//! The state shared between the two operations: the structure of the last
//! directory scanned, which decides where the page template is read from.

use vstd::prelude::*;
use crate::site::{EntryInfo, EntryKind, ScanError, SiteStructure, classify, index_name, join, join_path, scan_model};
use crate::template::RenderError;

verus! {

/// The currently selected project, replaced in full by each successful scan.
pub struct Session {
    pub current: Option<SiteStructure>,
}

impl Session {
    /// A session with no project selected.
    pub fn new() -> (r: Session)
        ensures
            r.current is None,
    {
        Session { current: None }
    }

    /// Classify `root` and, on success, make it the selected project; on
    /// failure the selection stays as it was.
    pub fn scan(&mut self, root: &str, root_kind: EntryKind, listing: Option<Vec<EntryInfo>>) -> (r:
        Result<SiteStructure, ScanError>)
        ensures
            root_kind != EntryKind::Dir ==> r == Err::<SiteStructure, ScanError>(
                ScanError::NotADirectory,
            ),
            root_kind == EntryKind::Dir && listing is None ==> r == Err::<SiteStructure, ScanError>(
                ScanError::DirectoryReadError,
            ),
            root_kind == EntryKind::Dir && listing is Some ==> r is Ok && r->Ok_0@ == scan_model(
                root@,
                listing->Some_0@,
            ),
            r is Ok ==> final(self).current is Some && final(self).current->Some_0@ == r->Ok_0@,
            r is Err ==> final(self).current == old(self).current,
    {
        let r = classify(root, root_kind, listing);
        if let Ok(site) = &r {
            self.current = Some(site.copy());
        }
        r
    }

    /// Path of the page template of the selected project: its `index.html`.
    pub fn template_path(&self) -> (r: Result<String, RenderError>)
        ensures
            self.current is None ==> r == Err::<String, RenderError>(RenderError::NoProjectSelected),
            self.current is Some ==> r is Ok && r->Ok_0@ == join_path(
                self.current->Some_0.root_path@,
                index_name(),
            ),
    {
        match &self.current {
            Some(site) => Ok(join(site.root_path.as_str(), "index.html")),
            None => Err(RenderError::NoProjectSelected),
        }
    }
}

} // verus!
