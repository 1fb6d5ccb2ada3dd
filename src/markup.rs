//! Template documents: markup text read as a sequence of nodes, each a text
//! run or a piece of markup (a tag, a comment, a doctype), kept verbatim.
//!
//! Reading is lenient: a `<` that does not open a complete piece of markup is
//! text, so every input reads as a document and nothing is rejected.

use vstd::prelude::*;

verus! {

/// One node of a template document.
#[derive(Clone, Debug)]
pub enum Node {
    /// Character data between pieces of markup.
    Text(String),
    /// A tag, comment, doctype or processing instruction, as written.
    Markup(String),
}

/// Abstract value of a `Node`.
pub enum NodeView {
    Text(Seq<char>),
    Markup(Seq<char>),
}

impl View for Node {
    type V = NodeView;

    open spec fn view(&self) -> NodeView {
        match self {
            Node::Text(t) => NodeView::Text(t@),
            Node::Markup(m) => NodeView::Markup(m@),
        }
    }
}

/// A parsed template: its nodes in document order.
#[derive(Clone, Debug)]
pub struct Document {
    pub nodes: Vec<Node>,
}

impl View for Document {
    type V = Seq<NodeView>;

    open spec fn view(&self) -> Seq<NodeView> {
        self.nodes@.map_values(|n: Node| n@)
    }
}

/// The characters a node stands for in the document text.
pub open spec fn node_chars(n: NodeView) -> Seq<char> {
    match n {
        NodeView::Text(t) => t,
        NodeView::Markup(m) => m,
    }
}

/// Document text of a node sequence.
pub open spec fn serialize_nodes(ns: Seq<NodeView>) -> Seq<char>
    decreases ns.len(),
{
    if ns.len() == 0 {
        Seq::empty()
    } else {
        serialize_nodes(ns.drop_last()) + node_chars(ns.last())
    }
}

pub open spec fn is_ascii_letter(c: char) -> bool {
    ('a' <= c && c <= 'z') || ('A' <= c && c <= 'Z')
}

/// A `<` at `i` followed by a letter, `/`, `!` or `?`.
pub open spec fn opens_markup(s: Seq<char>, i: int) -> bool {
    0 <= i && i + 1 < s.len() && s[i] == '<' && (is_ascii_letter(s[i + 1]) || s[i + 1] == '/'
        || s[i + 1] == '!' || s[i + 1] == '?')
}

/// `<!--` at `i`.
pub open spec fn opens_comment(s: Seq<char>, i: int) -> bool {
    0 <= i && i + 3 < s.len() && s[i] == '<' && s[i + 1] == '!' && s[i + 2] == '-' && s[i + 3]
        == '-'
}

/// Index of the first `>` at or after `j`, or -1.
pub open spec fn first_gt(s: Seq<char>, j: int) -> int
    decreases s.len() - j,
{
    if j < 0 || j >= s.len() {
        -1
    } else if s[j] == '>' {
        j
    } else {
        first_gt(s, j + 1)
    }
}

/// Index of the first `-->` at or after `j`, or -1.
pub open spec fn first_comment_close(s: Seq<char>, j: int) -> int
    decreases s.len() - j,
{
    if j < 0 || j + 3 > s.len() {
        -1
    } else if s[j] == '-' && s[j + 1] == '-' && s[j + 2] == '>' {
        j
    } else {
        first_comment_close(s, j + 1)
    }
}

/// Length of the piece of markup that starts at `i`, or 0 where none does.
pub open spec fn markup_len(s: Seq<char>, i: int) -> int {
    if !opens_markup(s, i) {
        0
    } else if opens_comment(s, i) {
        let c = first_comment_close(s, i + 4);
        if c < 0 {
            0
        } else {
            c + 3 - i
        }
    } else {
        let g = first_gt(s, i + 1);
        if g < 0 {
            0
        } else {
            g - i + 1
        }
    }
}

/// A text node for `s[a..b]`, or nothing when the range is empty.
pub open spec fn text_run(s: Seq<char>, a: int, b: int) -> Seq<NodeView> {
    if a < b {
        seq![NodeView::Text(s.subrange(a, b))]
    } else {
        Seq::empty()
    }
}

/// Nodes of `s` from position `i` on, with pending text from `start`.
pub open spec fn parse_from(s: Seq<char>, i: int, start: int) -> Seq<NodeView>
    decreases s.len() - i,
{
    if i >= s.len() {
        text_run(s, start, s.len() as int)
    } else if 0 < markup_len(s, i) && i + markup_len(s, i) <= s.len() {
        let e = i + markup_len(s, i);
        text_run(s, start, i) + seq![NodeView::Markup(s.subrange(i, e))] + parse_from(s, e, e)
    } else {
        parse_from(s, i + 1, start)
    }
}

/// The document that the text `s` reads as.
pub open spec fn parse_doc(s: Seq<char>) -> Seq<NodeView> {
    parse_from(s, 0, 0)
}

pub proof fn lemma_first_gt_bounds(s: Seq<char>, j: int)
    ensures
        first_gt(s, j) == -1 || (j <= first_gt(s, j) < s.len() && s[first_gt(s, j)] == '>'),
    decreases s.len() - j,
{
    if !(j < 0 || j >= s.len()) && s[j] != '>' {
        lemma_first_gt_bounds(s, j + 1);
    }
}

pub proof fn lemma_first_comment_close_bounds(s: Seq<char>, j: int)
    ensures
        first_comment_close(s, j) == -1 || (j <= first_comment_close(s, j) && first_comment_close(
            s,
            j,
        ) + 3 <= s.len()),
    decreases s.len() - j,
{
    if !(j < 0 || j + 3 > s.len()) && !(s[j] == '-' && s[j + 1] == '-' && s[j + 2] == '>') {
        lemma_first_comment_close_bounds(s, j + 1);
    }
}

pub proof fn lemma_markup_len_bounds(s: Seq<char>, i: int)
    ensures
        0 <= markup_len(s, i),
        0 <= i < s.len() ==> i + markup_len(s, i) <= s.len(),
{
    lemma_first_gt_bounds(s, i + 1);
    lemma_first_comment_close_bounds(s, i + 4);
}

/// Index of the first `>` at or after `j`, or `n` where there is none.
fn find_gt(s: &str, n: usize, j: usize) -> (r: usize)
    requires
        n == s@.len(),
        j <= n,
    ensures
        r <= n,
        r == n <==> first_gt(s@, j as int) == -1,
        r < n ==> r == first_gt(s@, j as int),
{
    let mut k = j;
    while k < n
        invariant
            n == s@.len(),
            j <= k <= n,
            first_gt(s@, j as int) == first_gt(s@, k as int),
        decreases n - k,
    {
        if s.get_char(k) == '>' {
            return k;
        }
        k = k + 1;
    }
    k
}

/// Index of the first `-->` at or after `j`, or `n` where there is none.
fn find_comment_close(s: &str, n: usize, j: usize) -> (r: usize)
    requires
        n == s@.len(),
        j <= n,
    ensures
        r <= n,
        r == n <==> first_comment_close(s@, j as int) == -1,
        r < n ==> r == first_comment_close(s@, j as int),
{
    let mut k = j;
    while n - k >= 3
        invariant
            n == s@.len(),
            j <= k <= n,
            first_comment_close(s@, j as int) == first_comment_close(s@, k as int),
        decreases n - k,
    {
        if s.get_char(k) == '-' && s.get_char(k + 1) == '-' && s.get_char(k + 2) == '>' {
            return k;
        }
        k = k + 1;
    }
    n
}

fn is_letter(c: char) -> (r: bool)
    ensures
        r == is_ascii_letter(c),
{
    ('a' <= c && c <= 'z') || ('A' <= c && c <= 'Z')
}

/// Length of the piece of markup at `i`, or 0.
fn markup_len_at(s: &str, n: usize, i: usize) -> (r: usize)
    requires
        n == s@.len(),
        i < n,
    ensures
        r == markup_len(s@, i as int),
        i + r <= n,
{
    proof {
        lemma_markup_len_bounds(s@, i as int);
        lemma_first_gt_bounds(s@, i + 1);
        lemma_first_comment_close_bounds(s@, i + 4);
    }
    if i + 1 >= n || s.get_char(i) != '<' {
        return 0;
    }
    let c = s.get_char(i + 1);
    if !(is_letter(c) || c == '/' || c == '!' || c == '?') {
        return 0;
    }
    if n - i > 3 && c == '!' && s.get_char(i + 2) == '-' && s.get_char(i + 3) == '-' {
        let close = find_comment_close(s, n, i + 4);
        if close == n {
            0
        } else {
            close + 3 - i
        }
    } else {
        let g = find_gt(s, n, i + 1);
        if g == n {
            0
        } else {
            g - i + 1
        }
    }
}

pub proof fn lemma_serialize_one(x: NodeView)
    ensures
        serialize_nodes(seq![x]) == node_chars(x),
{
    assert(seq![x].drop_last() =~= Seq::<NodeView>::empty());
    assert(seq![x].last() == x);
    assert(serialize_nodes(Seq::<NodeView>::empty()) == Seq::<char>::empty());
    assert(Seq::<char>::empty() + node_chars(x) =~= node_chars(x));
}

/// Serializing a concatenation concatenates the serializations.
pub proof fn lemma_serialize_concat(a: Seq<NodeView>, b: Seq<NodeView>)
    ensures
        serialize_nodes(a + b) == serialize_nodes(a) + serialize_nodes(b),
    decreases b.len(),
{
    if b.len() == 0 {
        assert(a + b =~= a);
        assert(serialize_nodes(a) + Seq::<char>::empty() =~= serialize_nodes(a));
    } else {
        assert((a + b).drop_last() =~= a + b.drop_last());
        assert((a + b).last() == b.last());
        lemma_serialize_concat(a, b.drop_last());
        assert(serialize_nodes(a) + serialize_nodes(b.drop_last()) + node_chars(b.last())
            =~= serialize_nodes(a) + (serialize_nodes(b.drop_last()) + node_chars(b.last())));
    }
}

pub proof fn lemma_text_run_chars(s: Seq<char>, a: int, b: int)
    requires
        0 <= a <= b <= s.len(),
    ensures
        serialize_nodes(text_run(s, a, b)) == s.subrange(a, b),
{
    if a < b {
        lemma_serialize_one(NodeView::Text(s.subrange(a, b)));
    } else {
        assert(s.subrange(a, b) =~= Seq::<char>::empty());
    }
}

proof fn lemma_parse_from_chars(s: Seq<char>, i: int, start: int)
    requires
        0 <= start <= i <= s.len(),
    ensures
        serialize_nodes(parse_from(s, i, start)) == s.subrange(start, s.len() as int),
    decreases s.len() - i,
{
    if i >= s.len() {
        lemma_text_run_chars(s, start, s.len() as int);
    } else if 0 < markup_len(s, i) && i + markup_len(s, i) <= s.len() {
        let e = i + markup_len(s, i);
        let tr = text_run(s, start, i);
        let mk = seq![NodeView::Markup(s.subrange(i, e))];
        lemma_parse_from_chars(s, e, e);
        lemma_text_run_chars(s, start, i);
        lemma_serialize_one(NodeView::Markup(s.subrange(i, e)));
        lemma_serialize_concat(tr, mk);
        lemma_serialize_concat(tr + mk, parse_from(s, e, e));
        assert(s.subrange(start, i) + s.subrange(i, e) + s.subrange(e, s.len() as int) =~= s.subrange(
            start,
            s.len() as int,
        ));
    } else {
        lemma_parse_from_chars(s, i + 1, start);
    }
}

/// Reading a text as a document and writing the document back gives the
/// same text, character for character.
pub proof fn lemma_parse_serialize_round_trip(s: Seq<char>)
    ensures
        serialize_nodes(parse_doc(s)) == s,
{
    lemma_parse_from_chars(s, 0, 0);
    assert(s.subrange(0, s.len() as int) =~= s);
}

impl Document {
    /// Read a template text as a document.
    pub fn parse(s: &str) -> (r: Document)
        ensures
            r@ == parse_doc(s@),
    {
        let n = s.unicode_len();
        let mut nodes: Vec<Node> = Vec::new();
        let mut i: usize = 0;
        let mut start: usize = 0;
        while i < n
            invariant
                n == s@.len(),
                start <= i <= n,
                nodes@.map_values(|x: Node| x@) + parse_from(s@, i as int, start as int)
                    == parse_doc(s@),
            decreases n - i,
        {
            let ml = markup_len_at(s, n, i);
            if ml > 0 {
                let ghost before = nodes@.map_values(|x: Node| x@);
                let ghost tr = text_run(s@, start as int, i as int);
                let ghost mk = seq![NodeView::Markup(s@.subrange(i as int, (i + ml) as int))];
                if start < i {
                    nodes.push(Node::Text(String::from_str(s.substring_char(start, i))));
                }
                nodes.push(Node::Markup(String::from_str(s.substring_char(i, i + ml))));
                assert(nodes@.map_values(|x: Node| x@) =~= before + tr + mk);
                assert(before + (tr + mk + parse_from(s@, (i + ml) as int, (i + ml) as int)) =~= (
                before + tr + mk) + parse_from(s@, (i + ml) as int, (i + ml) as int));
                i = i + ml;
                start = i;
            } else {
                i = i + 1;
            }
        }
        let ghost before = nodes@.map_values(|x: Node| x@);
        if start < n {
            nodes.push(Node::Text(String::from_str(s.substring_char(start, n))));
        }
        assert(nodes@.map_values(|x: Node| x@) =~= before + text_run(s@, start as int, n as int));
        Document { nodes }
    }

    /// Write the document back as text.
    pub fn serialize(&self) -> (r: String)
        ensures
            r@ == serialize_nodes(self@),
    {
        let mut out = String::new();
        let mut k: usize = 0;
        while k < self.nodes.len()
            invariant
                k <= self.nodes@.len(),
                out@ == serialize_nodes(self@.subrange(0, k as int)),
            decreases self.nodes@.len() - k,
        {
            assert(self@.subrange(0, k + 1).drop_last() =~= self@.subrange(0, k as int));
            match &self.nodes[k] {
                Node::Text(t) => out.append(t.as_str()),
                Node::Markup(m) => out.append(m.as_str()),
            }
            k = k + 1;
        }
        assert(self@.subrange(0, k as int) =~= self@);
        out
    }
}

} // verus!
