use equinox::markup::{Document, Node};
use equinox::template::{fill_text, render, render_template, RenderError};

fn texts(doc: &Document) -> Vec<(bool, String)> {
    doc.nodes
        .iter()
        .map(|n| match n {
            Node::Text(t) => (true, t.clone()),
            Node::Markup(m) => (false, m.clone()),
        })
        .collect()
}

#[test]
fn render_heading_and_paragraph() {
    let t = "<html><body><h1>{{title}}</h1><p>{{content}}</p></body></html>";
    let out = render_template(t, "Hello", "World");
    assert!(out.contains("<h1>Hello</h1><p>World</p>"));
    assert!(!out.contains("{{"));
    assert_eq!(out, "<html><body><h1>Hello</h1><p>World</p></body></html>");
}

#[test]
fn render_replaces_every_placeholder() {
    let t = "<title>{{title}}</title><h1>{{title}}</h1><main>{{content}}</main>";
    let out = render_template(t, "T", "Body text");
    assert_eq!(out, "<title>T</title><h1>T</h1><main>Body text</main>");
    assert!(!out.contains("{{title}}"));
    assert!(!out.contains("{{content}}"));
}

#[test]
fn render_twice_gives_identical_output() {
    let t = "<div>{{title}} - {{content}}</div>";
    let a = render_template(t, "x", "y\nz");
    let b = render_template(t, "x", "y\nz");
    assert_eq!(a, b);
    assert_eq!(a.as_bytes(), b.as_bytes());
}

#[test]
fn parse_then_serialize_reproduces_text() {
    let samples = [
        "<!DOCTYPE html><html lang=\"en\"><head><title>t</title></head><body><p>a &amp; b</p></body></html>",
        "<!-- a > b --><div class='x'>text</div>",
        "plain text without markup",
        "<p>unclosed <b>bold",
        "a < b and c > d",
        "<div",
        "",
    ];
    for s in samples.iter() {
        let doc = Document::parse(s);
        assert_eq!(doc.serialize(), *s);
    }
}

#[test]
fn parse_splits_text_and_markup() {
    let doc = Document::parse("<p>hi <!-- c > d --> there</p>");
    assert_eq!(
        texts(&doc),
        vec![
            (false, "<p>".to_string()),
            (true, "hi ".to_string()),
            (false, "<!-- c > d -->".to_string()),
            (true, " there".to_string()),
            (false, "</p>".to_string()),
        ]
    );
    let loose = Document::parse("1 < 2 <x");
    assert_eq!(texts(&loose), vec![(true, "1 < 2 <x".to_string())]);
}

#[test]
fn render_missing_template_fails() {
    let r = render(None, "Hello", "World");
    assert_eq!(r, Err(RenderError::TemplateReadError));
}

#[test]
fn render_loaded_template() {
    let r = render(Some("<h1>{{title}}</h1>".to_string()), "Hi", "");
    assert_eq!(r, Ok("<h1>Hi</h1>".to_string()));
}

#[test]
fn placeholders_in_markup_are_kept() {
    let t = "<a title=\"{{title}}\">{{title}}</a><!-- {{content}} -->";
    let out = render_template(t, "X", "Y");
    assert_eq!(out, "<a title=\"{{title}}\">X</a><!-- {{content}} -->");
}

#[test]
fn inputs_are_inserted_unescaped() {
    let out = render_template("<p>{{content}}</p>", "", "<b>bold</b> & more");
    assert_eq!(out, "<p><b>bold</b> & more</p>");
}

#[test]
fn fill_text_reads_left_to_right() {
    assert_eq!(fill_text("{{title}}{{content}}{{title}}", "a", "b"), "aba");
    assert_eq!(fill_text("{{titl}} {{ title }} {title}", "a", "b"), "{{titl}} {{ title }} {title}");
    assert_eq!(fill_text("{{{title}}}", "a", "b"), "{a}");
    assert_eq!(fill_text("", "a", "b"), "");
    assert_eq!(fill_text("{{title}}", "{{content}}", "c"), "{{content}}");
}

#[test]
fn substitute_changes_text_nodes_only() {
    let mut doc = Document::parse("<h1 id=\"{{title}}\">{{title}}</h1>");
    doc.substitute("New", "C");
    assert_eq!(
        texts(&doc),
        vec![
            (false, "<h1 id=\"{{title}}\">".to_string()),
            (true, "New".to_string()),
            (false, "</h1>".to_string()),
        ]
    );
}

#[test]
fn render_error_messages() {
    assert_eq!(RenderError::TemplateReadError.message(), "could not read the template file");
    assert_eq!(RenderError::NoProjectSelected.message(), "no project directory selected");
    assert_eq!(RenderError::FileWriteError.message(), "could not write the output file");
}
