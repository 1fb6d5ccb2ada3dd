//! A fixed-layout blog page: the site's header and navigation, one entry
//! with the title as heading and each non-empty line of the content as a
//! paragraph, and the closing footer.

use vstd::prelude::*;

verus! {

pub open spec fn page_head() -> Seq<char> {
    PAGE_HEAD@
}

pub open spec fn page_foot() -> Seq<char> {
    PAGE_FOOT@
}

pub const PAGE_HEAD: &'static str = r#"<!DOCTYPE html>
<html lang="en">
    <head>
        <meta charset="UTF-8" />
        <title>james "james" pham</title>
        <meta name="viewport" content="width=device-width,initial-scale=1" />
        <meta name="description" content="" />
        <link rel="stylesheet" type="text/css" href="barebones.css" />
        <link rel="icon" href="favicon.png">
        <link rel="preconnect" href="https://fonts.googleapis.com">
        <link rel="preconnect" href="https://fonts.gstatic.com" crossorigin>
        <link href="https://fonts.googleapis.com/css2?family=Lexend:wght@100..900&display=swap" rel="stylesheet">
        <div class="grid-container full">
            <nav class="navbar" id="navbar">
                <ul class="navbar-list">
                <li class="navbar-item"><a class="navbar-link" href="index.html">Home</a></li>
                <li class="navbar-item"><a class="navbar-link" href="tech.html">Technical</a></li>
                <li class="navbar-item"><a class="navbar-link" href="anime.html">Anime</a></li>
                <li class="navbar-item"><a class="navbar-link" href="life.html">Life</a></li>
                <li class="navbar-item right"><a class="navbar-link right" href="resume.html">Resume</a></li>
                <li class="navbar-item right"><a class="navbar-link right" href="contact.html">Contact</a></li>
                </ul>
            </nav>
        </div>
    </head>
    <body>
        <div class="grid-container full full-left">
        "#;

pub const PAGE_FOOT: &'static str = r#"
        </div>
    </body>
</html>
        "#;

/// A line without the `\r` of a `\r\n` ending.
pub open spec fn strip_cr(l: Seq<char>) -> Seq<char> {
    if l.len() > 0 && l.last() == '\r' {
        l.drop_last()
    } else {
        l
    }
}

/// The paragraph for one line, or nothing for an empty line.
pub open spec fn paragraph(l: Seq<char>) -> Seq<char> {
    if l.len() == 0 {
        Seq::empty()
    } else {
        "\t\t\t<p>"@ + l + "</p>\r\n"@
    }
}

/// Paragraphs of the lines of `s` from `i` on; the current line began at `start`.
///
/// Lines end at `\n` or `\r\n`; the last line needs no ending, and a `\r`
/// that no `\n` follows stays in it.
pub open spec fn paragraphs_from(s: Seq<char>, i: int, start: int) -> Seq<char>
    decreases s.len() - i,
{
    if i >= s.len() {
        paragraph(s.subrange(start, s.len() as int))
    } else if s[i] == '\n' {
        paragraph(strip_cr(s.subrange(start, i))) + paragraphs_from(s, i + 1, i + 1)
    } else {
        paragraphs_from(s, i + 1, start)
    }
}

/// The entry block for a title and a content text.
pub open spec fn entry_text(title: Seq<char>, content: Seq<char>) -> Seq<char> {
    "<div class=\"data-entry\">\r\n"@ + "\t\t\t<h2>"@ + title + "</h2>\r\n"@ + "\t\t\t<h5>"@ + title
        + "</h5>\r\n"@ + paragraphs_from(content, 0, 0)
}

/// The whole page for a title and a content text.
pub open spec fn page_text(title: Seq<char>, content: Seq<char>) -> Seq<char> {
    page_head() + entry_text(title, content) + page_foot()
}

/// Append the paragraph for `s[start..end]` to `out`.
fn push_paragraph(out: &mut String, s: &str, start: usize, end: usize)
    requires
        start <= end <= s@.len(),
    ensures
        final(out)@ == old(out)@ + paragraph(s@.subrange(start as int, end as int)),
{
    if start < end {
        out.append("\t\t\t<p>");
        out.append(s.substring_char(start, end));
        out.append("</p>\r\n");
    } else {
        assert(old(out)@ + Seq::<char>::empty() =~= old(out)@);
    }
}

/// The paragraphs for the lines of `content`.
pub fn paragraphs(content: &str) -> (r: String)
    ensures
        r@ == paragraphs_from(content@, 0, 0),
{
    let n = content.unicode_len();
    let mut out = String::new();
    let mut i: usize = 0;
    let mut start: usize = 0;
    assert(out@ + paragraphs_from(content@, 0, 0) =~= paragraphs_from(content@, 0, 0));
    while i < n
        invariant
            n == content@.len(),
            start <= i <= n,
            out@ + paragraphs_from(content@, i as int, start as int) == paragraphs_from(
                content@,
                0,
                0,
            ),
        decreases n - i,
    {
        if content.get_char(i) == '\n' {
            let ghost before = out@;
            let mut end = i;
            if end > start && content.get_char(end - 1) == '\r' {
                end = end - 1;
            }
            assert(strip_cr(content@.subrange(start as int, i as int)) =~= content@.subrange(
                start as int,
                end as int,
            ));
            push_paragraph(&mut out, content, start, end);
            assert(before + (paragraph(content@.subrange(start as int, end as int))
                + paragraphs_from(content@, i + 1, i + 1)) =~= out@ + paragraphs_from(
                content@,
                i + 1,
                i + 1,
            ));
            i = i + 1;
            start = i;
        } else {
            i = i + 1;
        }
    }
    let ghost before = out@;
    push_paragraph(&mut out, content, start, n);
    assert(before + paragraph(content@.subrange(start as int, n as int)) =~= out@);
    out
}

/// The blog page for `title` and `content`.
pub fn blog_page(title: &str, content: &str) -> (r: String)
    ensures
        r@ == page_text(title@, content@),
{
    let mut page = String::from_str(PAGE_HEAD);
    page.append("<div class=\"data-entry\">\r\n");
    page.append("\t\t\t<h2>");
    page.append(title);
    page.append("</h2>\r\n");
    page.append("\t\t\t<h5>");
    page.append(title);
    page.append("</h5>\r\n");
    let body = paragraphs(content);
    page.append(body.as_str());
    page.append(PAGE_FOOT);
    assert(page@ =~= page_text(title@, content@));
    page
}

} // verus!
