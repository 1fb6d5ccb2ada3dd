//! Rendering: placeholder tokens `{{title}}` and `{{content}}` in the text
//! nodes of a template document are replaced by the supplied values; markup
//! (tags, attribute values, comments) is never touched.

use vstd::prelude::*;
use crate::markup::{Document, Node, NodeView, node_chars, parse_doc, serialize_nodes};
use crate::text::{occurs_at, occurs_at_exec};

verus! {

pub open spec fn title_token() -> Seq<char> {
    seq!['{', '{', 't', 'i', 't', 'l', 'e', '}', '}']
}

pub open spec fn content_token() -> Seq<char> {
    seq!['{', '{', 'c', 'o', 'n', 't', 'e', 'n', 't', '}', '}']
}

/// `t` with each placeholder, read from left to right, replaced.
pub open spec fn fill(t: Seq<char>, title: Seq<char>, content: Seq<char>) -> Seq<char>
    decreases t.len(),
{
    if t.len() == 0 {
        Seq::empty()
    } else if occurs_at(t, 0, title_token()) {
        title + fill(t.skip(9), title, content)
    } else if occurs_at(t, 0, content_token()) {
        content + fill(t.skip(11), title, content)
    } else {
        seq![t[0]] + fill(t.skip(1), title, content)
    }
}

pub open spec fn fill_node(n: NodeView, title: Seq<char>, content: Seq<char>) -> NodeView {
    match n {
        NodeView::Text(t) => NodeView::Text(fill(t, title, content)),
        NodeView::Markup(m) => NodeView::Markup(m),
    }
}

pub open spec fn fill_nodes(ns: Seq<NodeView>, title: Seq<char>, content: Seq<char>) -> Seq<
    NodeView,
> {
    ns.map_values(|n: NodeView| fill_node(n, title, content))
}

/// The page that template text `t` renders to.
pub open spec fn render_text(t: Seq<char>, title: Seq<char>, content: Seq<char>) -> Seq<char> {
    serialize_nodes(fill_nodes(parse_doc(t), title, content))
}

/// Why a render failed.
#[derive(PartialEq, Eq, Structural, Clone, Copy, Debug)]
pub enum RenderError {
    /// The template file could not be read as text.
    TemplateReadError,
    /// No project directory has been scanned yet.
    NoProjectSelected,
    /// The output file could not be created or written.
    FileWriteError,
}

impl RenderError {
    pub open spec fn message_text(self) -> Seq<char> {
        match self {
            RenderError::TemplateReadError => "could not read the template file"@,
            RenderError::NoProjectSelected => "no project directory selected"@,
            RenderError::FileWriteError => "could not write the output file"@,
        }
    }

    /// Human-readable description of the error.
    pub fn message(&self) -> (r: String)
        ensures
            r@ == self.message_text(),
    {
        match self {
            RenderError::TemplateReadError => String::from_str("could not read the template file"),
            RenderError::NoProjectSelected => String::from_str("no project directory selected"),
            RenderError::FileWriteError => String::from_str("could not write the output file"),
        }
    }
}

proof fn lemma_occurs_skip(t: Seq<char>, i: int, p: Seq<char>)
    requires
        0 <= i <= t.len(),
    ensures
        occurs_at(t, i, p) == occurs_at(t.skip(i), 0, p),
{
    if i + p.len() <= t.len() {
        assert(t.skip(i).subrange(0, p.len() as int) =~= t.subrange(i, i + p.len()));
    }
}

/// Replace the placeholders of one text.
pub fn fill_text(t: &str, title: &str, content: &str) -> (r: String)
    ensures
        r@ == fill(t@, title@, content@),
{
    let n = t.unicode_len();
    let mut out = String::new();
    let mut i: usize = 0;
    proof {
        reveal_strlit("{{title}}");
        reveal_strlit("{{content}}");
        assert("{{title}}"@ =~= title_token());
        assert("{{content}}"@ =~= content_token());
        assert(t@.skip(0) =~= t@);
    }
    while i < n
        invariant
            n == t@.len(),
            i <= n,
            "{{title}}"@ == title_token(),
            "{{content}}"@ == content_token(),
            out@ + fill(t@.skip(i as int), title@, content@) == fill(t@, title@, content@),
        decreases n - i,
    {
        let ghost rest = t@.skip(i as int);
        proof {
            lemma_occurs_skip(t@, i as int, title_token());
            lemma_occurs_skip(t@, i as int, content_token());
        }
        if occurs_at_exec(t, n, i, "{{title}}") {
            assert(rest.skip(9) =~= t@.skip(i + 9));
            out.append(title);
            i = i + 9;
        } else if occurs_at_exec(t, n, i, "{{content}}") {
            assert(rest.skip(11) =~= t@.skip(i + 11));
            out.append(content);
            i = i + 11;
        } else {
            assert(rest.skip(1) =~= t@.skip(i + 1));
            let c = t.substring_char(i, i + 1);
            assert(c@ =~= seq![rest[0]]);
            out.append(c);
            i = i + 1;
        }
        assert(out@ + fill(t@.skip(i as int), title@, content@) =~= fill(t@, title@, content@));
    }
    assert(t@.skip(n as int) =~= Seq::<char>::empty());
    assert(out@ + Seq::<char>::empty() =~= out@);
    out
}

impl Document {
    /// Replace the placeholders in every text node; markup nodes stay as they are.
    pub fn substitute(&mut self, title: &str, content: &str)
        ensures
            final(self)@ == fill_nodes(old(self)@, title@, content@),
    {
        let mut filled: Vec<Node> = Vec::new();
        let mut k: usize = 0;
        while k < self.nodes.len()
            invariant
                k <= self.nodes@.len(),
                filled@.map_values(|x: Node| x@) == fill_nodes(
                    self@.subrange(0, k as int),
                    title@,
                    content@,
                ),
            decreases self.nodes@.len() - k,
        {
            let node = match &self.nodes[k] {
                Node::Text(t) => Node::Text(fill_text(t.as_str(), title, content)),
                Node::Markup(m) => Node::Markup(m.clone()),
            };
            assert(node@ == fill_node(self@[k as int], title@, content@));
            let ghost before = filled@.map_values(|x: Node| x@);
            filled.push(node);
            assert(filled@.map_values(|x: Node| x@) =~= before.push(node@));
            assert(self@.subrange(0, k + 1) =~= self@.subrange(0, k as int).push(self@[k as int]));
            k = k + 1;
            assert(filled@.map_values(|x: Node| x@) =~= fill_nodes(
                self@.subrange(0, k as int),
                title@,
                content@,
            ));
        }
        assert(self@.subrange(0, k as int) =~= self@);
        self.nodes = filled;
    }
}

/// Render template text: read it as a document, fill its placeholders, and
/// write it back. The result depends on the three texts alone.
pub fn render_template(template: &str, title: &str, content: &str) -> (r: String)
    ensures
        r@ == render_text(template@, title@, content@),
{
    let mut doc = Document::parse(template);
    doc.substitute(title, content);
    doc.serialize()
}

/// Render a loaded template; `source` is `None` when the template file could
/// not be read as text.
pub fn render(source: Option<String>, title: &str, content: &str) -> (r: Result<
    String,
    RenderError,
>)
    ensures
        source is None ==> r == Err::<String, RenderError>(RenderError::TemplateReadError),
        source is Some ==> r is Ok && r->Ok_0@ == render_text(source->Some_0@, title@, content@),
{
    match source {
        Some(t) => Ok(render_template(t.as_str(), title, content)),
        None => Err(RenderError::TemplateReadError),
    }
}

pub open spec fn no_brace(s: Seq<char>) -> bool {
    forall|i: int| 0 <= i < s.len() ==> s[i] != '{'
}

/// Every `{` of `t` begins a placeholder, reading from left to right.
pub open spec fn braces_only_in_tokens(t: Seq<char>) -> bool
    decreases t.len(),
{
    if t.len() == 0 {
        true
    } else if occurs_at(t, 0, title_token()) {
        braces_only_in_tokens(t.skip(9))
    } else if occurs_at(t, 0, content_token()) {
        braces_only_in_tokens(t.skip(11))
    } else {
        t[0] != '{' && braces_only_in_tokens(t.skip(1))
    }
}

/// The template's markup holds no `{`, and every `{` of its text begins a placeholder.
pub open spec fn braces_only_in_placeholders(ns: Seq<NodeView>) -> bool {
    forall|k: int|
        0 <= k < ns.len() ==> match #[trigger] ns[k] {
            NodeView::Text(t) => braces_only_in_tokens(t),
            NodeView::Markup(m) => no_brace(m),
        }
}

proof fn lemma_no_brace_concat(a: Seq<char>, b: Seq<char>)
    requires
        no_brace(a),
        no_brace(b),
    ensures
        no_brace(a + b),
{
    assert forall|i: int| 0 <= i < (a + b).len() implies (a + b)[i] != '{' by {
        if i >= a.len() {
            assert((a + b)[i] == b[i - a.len()]);
        }
    }
}

proof fn lemma_fill_no_brace(t: Seq<char>, title: Seq<char>, content: Seq<char>)
    requires
        braces_only_in_tokens(t),
        no_brace(title),
        no_brace(content),
    ensures
        no_brace(fill(t, title, content)),
    decreases t.len(),
{
    if t.len() == 0 {
    } else if occurs_at(t, 0, title_token()) {
        lemma_fill_no_brace(t.skip(9), title, content);
        lemma_no_brace_concat(title, fill(t.skip(9), title, content));
    } else if occurs_at(t, 0, content_token()) {
        lemma_fill_no_brace(t.skip(11), title, content);
        lemma_no_brace_concat(content, fill(t.skip(11), title, content));
    } else {
        lemma_fill_no_brace(t.skip(1), title, content);
        lemma_no_brace_concat(seq![t[0]], fill(t.skip(1), title, content));
    }
}

proof fn lemma_serialize_no_brace(ns: Seq<NodeView>)
    requires
        forall|k: int| 0 <= k < ns.len() ==> no_brace(node_chars(#[trigger] ns[k])),
    ensures
        no_brace(serialize_nodes(ns)),
    decreases ns.len(),
{
    if ns.len() > 0 {
        assert forall|k: int| 0 <= k < ns.drop_last().len() implies no_brace(
            node_chars(#[trigger] ns.drop_last()[k]),
        ) by {
            assert(ns.drop_last()[k] == ns[k]);
        }
        lemma_serialize_no_brace(ns.drop_last());
        assert(no_brace(node_chars(ns[ns.len() - 1])));
        lemma_no_brace_concat(serialize_nodes(ns.drop_last()), node_chars(ns.last()));
    }
}

/// When the template's markup holds no `{`, every `{` of its text begins a
/// placeholder, and the title and content hold no `{`, then the rendered page
/// holds no `{`: every placeholder was replaced and none is left.
pub proof fn lemma_render_leaves_no_placeholder(t: Seq<char>, title: Seq<char>, content: Seq<char>)
    requires
        braces_only_in_placeholders(parse_doc(t)),
        no_brace(title),
        no_brace(content),
    ensures
        no_brace(render_text(t, title, content)),
        forall|i: int| !occurs_at(render_text(t, title, content), i, title_token()),
        forall|i: int| !occurs_at(render_text(t, title, content), i, content_token()),
{
    let ns = fill_nodes(parse_doc(t), title, content);
    assert forall|k: int| 0 <= k < ns.len() implies no_brace(node_chars(#[trigger] ns[k])) by {
        let n = parse_doc(t)[k];
        assert(match n {
            NodeView::Text(x) => braces_only_in_tokens(x),
            NodeView::Markup(m) => no_brace(m),
        });
        match n {
            NodeView::Text(x) => lemma_fill_no_brace(x, title, content),
            NodeView::Markup(m) => {},
        }
    }
    lemma_serialize_no_brace(ns);
    let out = render_text(t, title, content);
    assert forall|i: int| !occurs_at(out, i, title_token()) by {
        if occurs_at(out, i, title_token()) {
            assert(out.subrange(i, i + 9)[0] == '{');
        }
    }
    assert forall|i: int| !occurs_at(out, i, content_token()) by {
        if occurs_at(out, i, content_token()) {
            assert(out.subrange(i, i + 11)[0] == '{');
        }
    }
}

} // verus!
