//! Directory classification: one level of a project directory becomes a
//! `SiteStructure` (index file, asset folder, category folders).
//!
//! Reading the file system is the caller's part: it hands over the kind of
//! the root and the entries it could read, and this module decides.

use vstd::prelude::*;
use crate::text::{ends_with_char, same_text, starts_with_char};

verus! {

/// What a directory entry is, as its metadata reports it.
#[derive(PartialEq, Eq, Structural, Clone, Copy, Debug)]
pub enum EntryKind {
    File,
    Dir,
    Other,
}

/// One immediate child of a scanned directory.
#[derive(Clone, Debug)]
pub struct EntryInfo {
    pub name: String,
    pub kind: EntryKind,
}

/// The classified summary of one directory scan.
#[derive(Clone, Debug)]
pub struct SiteStructure {
    pub root_path: String,
    pub index_path: Option<String>,
    pub categories: Vec<String>,
    pub assets_path: Option<String>,
}

/// Abstract value of a `SiteStructure`.
pub struct SiteView {
    pub root: Seq<char>,
    pub index: Option<Seq<char>>,
    pub categories: Seq<Seq<char>>,
    pub assets: Option<Seq<char>>,
}

pub open spec fn opt_view(o: Option<String>) -> Option<Seq<char>> {
    match o {
        Some(s) => Some(s@),
        None => None,
    }
}

impl View for SiteStructure {
    type V = SiteView;

    open spec fn view(&self) -> SiteView {
        SiteView {
            root: self.root_path@,
            index: opt_view(self.index_path),
            categories: self.categories@.map_values(|c: String| c@),
            assets: opt_view(self.assets_path),
        }
    }
}

/// Why a scan failed.
#[derive(PartialEq, Eq, Structural, Clone, Copy, Debug)]
pub enum ScanError {
    NotADirectory,
    DirectoryReadError,
}

impl ScanError {
    pub open spec fn message_text(self) -> Seq<char> {
        match self {
            ScanError::NotADirectory => "not a directory"@,
            ScanError::DirectoryReadError => "could not read the directory entries"@,
        }
    }

    /// Human-readable description of the error.
    pub fn message(&self) -> (r: String)
        ensures
            r@ == self.message_text(),
    {
        match self {
            ScanError::NotADirectory => String::from_str("not a directory"),
            ScanError::DirectoryReadError => String::from_str("could not read the directory entries"),
        }
    }
}

pub open spec fn index_name() -> Seq<char> {
    "index.html"@
}

pub open spec fn assets_name() -> Seq<char> {
    "assets"@
}

pub open spec fn is_hidden_name(name: Seq<char>) -> bool {
    name.len() > 0 && name[0] == '.'
}

/// `name` appended to `root` as a path component.
pub open spec fn join_path(root: Seq<char>, name: Seq<char>) -> Seq<char> {
    if root.len() == 0 {
        name
    } else if root.last() == '/' {
        root + name
    } else {
        root + seq!['/'] + name
    }
}

pub open spec fn is_index_file(e: EntryInfo) -> bool {
    e.kind == EntryKind::File && e.name@ == index_name()
}

pub open spec fn is_assets_dir(e: EntryInfo) -> bool {
    e.kind == EntryKind::Dir && e.name@ == assets_name()
}

pub open spec fn is_category(e: EntryInfo) -> bool {
    e.kind == EntryKind::Dir && e.name@ != assets_name() && !is_hidden_name(e.name@)
}

/// Names of the category entries, in listing order.
pub open spec fn categories_of(es: Seq<EntryInfo>) -> Seq<Seq<char>>
    decreases es.len(),
{
    if es.len() == 0 {
        Seq::empty()
    } else {
        let rest = categories_of(es.drop_last());
        if is_category(es.last()) {
            rest.push(es.last().name@)
        } else {
            rest
        }
    }
}

/// The structure that a scan of `root` with listing `es` yields.
pub open spec fn scan_model(root: Seq<char>, es: Seq<EntryInfo>) -> SiteView {
    SiteView {
        root,
        index: if exists|i: int| 0 <= i < es.len() && is_index_file(#[trigger] es[i]) {
            Some(join_path(root, index_name()))
        } else {
            None
        },
        categories: categories_of(es),
        assets: if exists|i: int| 0 <= i < es.len() && is_assets_dir(#[trigger] es[i]) {
            Some(join_path(root, assets_name()))
        } else {
            None
        },
    }
}

/// Path of `name` inside `root`.
pub fn join(root: &str, name: &str) -> (r: String)
    ensures
        r@ == join_path(root@, name@),
{
    let mut r = String::from_str(root);
    if root.unicode_len() > 0 && !ends_with_char(root, '/') {
        r.append("/");
        proof {
            reveal_strlit("/");
        }
    }
    r.append(name);
    proof {
        if root@.len() > 0 && root@.last() != '/' {
            assert(r@ =~= root@ + seq!['/'] + name@);
        }
    }
    r
}

/// Classify the immediate children of `root`.
///
/// `root_kind` is what `root` is; `listing` is its entries, or `None` when
/// they could not be enumerated. Entries whose metadata could not be read are
/// left out of `listing` by the caller.
pub fn classify(root: &str, root_kind: EntryKind, listing: Option<Vec<EntryInfo>>) -> (r: Result<
    SiteStructure,
    ScanError,
>)
    ensures
        root_kind != EntryKind::Dir ==> r == Err::<SiteStructure, ScanError>(
            ScanError::NotADirectory,
        ),
        root_kind == EntryKind::Dir && listing is None ==> r == Err::<SiteStructure, ScanError>(
            ScanError::DirectoryReadError,
        ),
        root_kind == EntryKind::Dir && listing is Some ==> r is Ok && r->Ok_0@ == scan_model(
            root@,
            listing->Some_0@,
        ),
{
    if root_kind != EntryKind::Dir {
        return Err(ScanError::NotADirectory);
    }
    let entries = match listing {
        Some(es) => es,
        None => return Err(ScanError::DirectoryReadError),
    };
    let mut has_index = false;
    let mut has_assets = false;
    let mut categories: Vec<String> = Vec::new();
    let mut i: usize = 0;
    while i < entries.len()
        invariant
            i <= entries@.len(),
            has_index == exists|j: int| 0 <= j < i && is_index_file(#[trigger] entries@[j]),
            has_assets == exists|j: int| 0 <= j < i && is_assets_dir(#[trigger] entries@[j]),
            categories@.map_values(|c: String| c@) == categories_of(entries@.subrange(0, i as int)),
        decreases entries@.len() - i,
    {
        let e = &entries[i];
        let ghost pre = entries@.subrange(0, i as int);
        assert(entries@.subrange(0, i + 1).drop_last() =~= pre);
        match e.kind {
            EntryKind::File => {
                if same_text(e.name.as_str(), "index.html") {
                    has_index = true;
                }
            },
            EntryKind::Dir => {
                if same_text(e.name.as_str(), "assets") {
                    has_assets = true;
                } else if !starts_with_char(e.name.as_str(), '.') {
                    categories.push(e.name.clone());
                    assert(categories@.map_values(|c: String| c@) =~= categories_of(
                        entries@.subrange(0, i as int),
                    ).push(e.name@));
                }
            },
            EntryKind::Other => {},
        }
        i = i + 1;
        assert(has_index == exists|j: int| 0 <= j < i && is_index_file(#[trigger] entries@[j])) by {
            if has_index {
                if !is_index_file(entries@[i - 1]) {
                    let j = choose|j: int| 0 <= j < i - 1 && is_index_file(#[trigger] entries@[j]);
                    assert(0 <= j < i && is_index_file(entries@[j]));
                }
            }
        }
        assert(has_assets == exists|j: int| 0 <= j < i && is_assets_dir(#[trigger] entries@[j])) by {
            if has_assets {
                if !is_assets_dir(entries@[i - 1]) {
                    let j = choose|j: int| 0 <= j < i - 1 && is_assets_dir(#[trigger] entries@[j]);
                    assert(0 <= j < i && is_assets_dir(entries@[j]));
                }
            }
        }
    }
    assert(entries@.subrange(0, entries@.len() as int) =~= entries@);
    let index_path = if has_index {
        Some(join(root, "index.html"))
    } else {
        None
    };
    let assets_path = if has_assets {
        Some(join(root, "assets"))
    } else {
        None
    };
    Ok(SiteStructure { root_path: String::from_str(root), index_path, categories, assets_path })
}

fn copy_opt(o: &Option<String>) -> (r: Option<String>)
    ensures
        opt_view(r) == opt_view(*o),
{
    match o {
        Some(s) => Some(s.clone()),
        None => None,
    }
}

impl SiteStructure {
    /// A structure with the same value.
    pub fn copy(&self) -> (r: SiteStructure)
        ensures
            r@ == self@,
    {
        let mut categories: Vec<String> = Vec::new();
        let mut k: usize = 0;
        while k < self.categories.len()
            invariant
                k <= self.categories@.len(),
                categories@.len() == k,
                forall|j: int| 0 <= j < k ==> (#[trigger] categories@[j])@ == self.categories@[j]@,
            decreases self.categories@.len() - k,
        {
            categories.push(self.categories[k].clone());
            k = k + 1;
        }
        let r = SiteStructure {
            root_path: self.root_path.clone(),
            index_path: copy_opt(&self.index_path),
            categories,
            assets_path: copy_opt(&self.assets_path),
        };
        assert(r@.categories =~= self@.categories);
        r
    }
}

/// Every category name comes from a listed category entry.
pub proof fn lemma_categories_are_category_entries(es: Seq<EntryInfo>, k: int)
    requires
        0 <= k < categories_of(es).len(),
    ensures
        exists|i: int| 0 <= i < es.len() && is_category(#[trigger] es[i]) && es[i].name@ == categories_of(es)[k],
    decreases es.len(),
{
    let rest = categories_of(es.drop_last());
    if k < rest.len() {
        lemma_categories_are_category_entries(es.drop_last(), k);
        let i = choose|i: int| 0 <= i < es.drop_last().len() && is_category(#[trigger] es.drop_last()[i]) && es.drop_last()[i].name@ == rest[k];
        assert(es[i] == es.drop_last()[i]);
    } else {
        assert(is_category(es[es.len() - 1]));
    }
}

/// A directory holding no entry named `index.html` scans to no index path.
pub proof fn lemma_no_index_without_index_file(root: Seq<char>, es: Seq<EntryInfo>)
    requires
        forall|i: int| 0 <= i < es.len() ==> (#[trigger] es[i]).name@ != index_name(),
    ensures
        scan_model(root, es).index is None,
{
}

/// A directory holding a subdirectory named `assets` scans to an assets path,
/// and `assets` is never a category.
pub proof fn lemma_assets_dir_found(root: Seq<char>, es: Seq<EntryInfo>)
    requires
        exists|i: int| 0 <= i < es.len() && (#[trigger] es[i]).kind == EntryKind::Dir && es[i].name@ == assets_name(),
    ensures
        scan_model(root, es).assets == Some(join_path(root, assets_name())),
        !scan_model(root, es).categories.contains(assets_name()),
{
    let i = choose|i: int| 0 <= i < es.len() && (#[trigger] es[i]).kind == EntryKind::Dir && es[i].name@ == assets_name();
    assert(is_assets_dir(es[i]));
    lemma_no_reserved_category(root, es);
}

/// No category is `assets` or a name starting with `.`.
pub proof fn lemma_no_reserved_category(root: Seq<char>, es: Seq<EntryInfo>)
    ensures
        forall|k: int| 0 <= k < scan_model(root, es).categories.len() ==> {
            let c = #[trigger] scan_model(root, es).categories[k];
            c != assets_name() && !is_hidden_name(c)
        },
        !scan_model(root, es).categories.contains(assets_name()),
{
    assert forall|k: int| 0 <= k < scan_model(root, es).categories.len() implies {
        let c = #[trigger] scan_model(root, es).categories[k];
        c != assets_name() && !is_hidden_name(c)
    } by {
        lemma_categories_are_category_entries(es, k);
    }
}

} // verus!
