use equinox::blog::{blog_page, paragraphs, PAGE_FOOT, PAGE_HEAD};

#[test]
fn paragraphs_skip_empty_lines() {
    assert_eq!(paragraphs("a\r\n\nb"), "\t\t\t<p>a</p>\r\n\t\t\t<p>b</p>\r\n");
    assert_eq!(paragraphs(""), "");
    assert_eq!(paragraphs("\n\r\n"), "");
    assert_eq!(paragraphs("one\n"), "\t\t\t<p>one</p>\r\n");
}

#[test]
fn paragraphs_keep_a_lone_carriage_return() {
    assert_eq!(paragraphs("x\r"), "\t\t\t<p>x\r</p>\r\n");
    assert_eq!(paragraphs("x\ry\n"), "\t\t\t<p>x\ry</p>\r\n");
}

#[test]
fn blog_page_layout() {
    let page = blog_page("My Post", "first\nsecond");
    let expected = format!(
        "{}<div class=\"data-entry\">\r\n\t\t\t<h2>My Post</h2>\r\n\t\t\t<h5>My Post</h5>\r\n\t\t\t<p>first</p>\r\n\t\t\t<p>second</p>\r\n{}",
        PAGE_HEAD, PAGE_FOOT
    );
    assert_eq!(page, expected);
    assert!(page.starts_with("<!DOCTYPE html>"));
    assert!(page.trim_end().ends_with("</html>"));
}
