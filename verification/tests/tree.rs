use htom_core::config::{ClassStyle, Config, IdStyle, Render};
use htom_core::doc::{Doc, Parent};
use htom_core::dom::{Dom, NodeData};
use htom_core::html_to_maud::{convert, html_to_maud};
use htom_core::parse::{parse, ParseError, MAX_TEXT_BYTES};
use htom_core::text::{join, pad};
use htom_core::walk::{walk, walk_children};

fn config(render: Render) -> Config {
    Config { render, id_style: IdStyle::Full, class_style: ClassStyle::Full }
}

fn element(name: &str, attrs: &[(&str, &str)]) -> NodeData {
    NodeData::Element {
        name: name.to_string(),
        attrs: attrs.iter().map(|(n, v)| (n.to_string(), v.to_string())).collect(),
    }
}

fn text(contents: &str) -> NodeData {
    NodeData::Text(contents.to_string())
}

fn strings(lines: &[&str]) -> Vec<String> {
    lines.iter().map(|l| l.to_string()).collect()
}

#[test]
fn pad_gives_spaces() {
    assert_eq!(pad(0), "");
    assert_eq!(pad(1), " ");
    assert_eq!(pad(8), "        ");
}

#[test]
fn join_puts_the_separator_between() {
    assert_eq!(join(&strings(&[]), ", "), "");
    assert_eq!(join(&strings(&["a"]), ", "), "a");
    assert_eq!(join(&strings(&["a", "", "b"]), ", "), "a, , b");
    assert_eq!(join(&strings(&["", ""]), "\n"), "\n");
}

#[test]
fn new_dom_is_one_document() {
    let dom = Dom::new();
    assert_eq!(dom.len(), 1);
    assert!(matches!(dom.node(0).data(), NodeData::Document));
    assert!(dom.node(0).children().is_empty());
}

#[test]
fn append_numbers_the_nodes_in_the_order_of_arrival() {
    let mut dom = Dom::new();
    let body = dom.append(0, element("body", &[])).unwrap();
    let p = dom.append(body, element("p", &[])).unwrap();
    let t = dom.append(p, text("x")).unwrap();
    let q = dom.append(body, element("q", &[])).unwrap();
    assert_eq!((body, p, t, q), (1, 2, 3, 4));
    assert_eq!(dom.len(), 5);
    assert_eq!(dom.node(0).children(), &vec![1]);
    assert_eq!(dom.node(body).children(), &vec![2, 4]);
    assert_eq!(dom.node(p).children(), &vec![3]);
    assert!(matches!(dom.node(t).data(), NodeData::Text(s) if s == "x"));
}

#[test]
fn append_refuses_what_no_dom_holds() {
    let mut dom = Dom::new();
    assert_eq!(dom.append(0, NodeData::ProcessingInstruction), None);
    assert_eq!(dom.append(1, NodeData::Doctype), None);
    assert_eq!(dom.append(7, text("x")), None);
    assert_eq!(dom.len(), 1);
    assert!(dom.node(0).children().is_empty());
    assert_eq!(dom.append(0, NodeData::Doctype), Some(1));
}

#[test]
fn doc_keeps_lines_by_place() {
    let mut doc = Doc::new("input");
    doc.push(&Parent::Head, "h1".to_string());
    doc.push(&Parent::Other, "dropped".to_string());
    doc.push(&Parent::Body, "b1".to_string());
    doc.push(&Parent::Head, "h2".to_string());
    assert_eq!(doc.head(), &strings(&["h1", "h2"]));
    assert_eq!(doc.body(), &strings(&["b1"]));
    assert_eq!(doc.indent_vec(&strings(&["a", "  b", ""]), 3), strings(&["   a", "     b", "   "]));
    assert_eq!(doc.render_body(), "html! {\n    b1\n}");
    assert_eq!(
        doc.render_full(),
        "html! {\n    (maud::DOCTYPE)\n    head {\n        h1\n        h2\n    }\n    body {\n        b1\n    }\n}"
    );
    assert_eq!(doc.render(&config(Render::Auto)), doc.render_body());
    assert_eq!(doc.render(&config(Render::OnlyBody)), doc.render_body());
    assert_eq!(doc.render(&config(Render::Full)), doc.render_full());
}

#[test]
fn auto_looks_at_the_input_text_only() {
    for (input, full) in [
        ("<html>", true),
        ("x<head>y", true),
        ("<body>", true),
        ("<BODY>", false),
        ("<body class=\"a\">", false),
        ("< body>", false),
        ("<htm l><hea d>", false),
        ("", false),
    ] {
        let mut doc = Doc::new(input);
        doc.push(&Parent::Body, "p;".to_string());
        let expected = if full { doc.render_full() } else { doc.render_body() };
        assert_eq!(doc.render(&config(Render::Auto)), expected, "{}", input);
    }
}

#[test]
fn walk_collects_lines_in_document_order() {
    let mut dom = Dom::new();
    let html = dom.append(0, element("html", &[("lang", "en")])).unwrap();
    let head = dom.append(html, element("head", &[])).unwrap();
    let title = dom.append(head, element("title", &[])).unwrap();
    dom.append(title, text(" T ")).unwrap();
    dom.append(head, NodeData::Comment("c".to_string())).unwrap();
    dom.append(head, element("meta", &[("charset", "utf-8")])).unwrap();
    let body = dom.append(html, element("body", &[])).unwrap();
    dom.append(body, text("  ")).unwrap();
    let div = dom.append(body, element("div", &[("id", "a"), ("class", "b c")])).unwrap();
    dom.append(div, element("br", &[])).unwrap();
    dom.append(div, text("x\"y")).unwrap();
    dom.append(0, text("outside")).unwrap();

    let mut doc = Doc::new("");
    walk(&config(Render::Full), 0, &dom, 0, &mut doc, &Parent::Other);
    assert_eq!(doc.head(), &strings(&["title {", "    \"T\"", "}", "meta charset=\"utf-8\";"]));
    assert_eq!(
        doc.body(),
        &strings(&["div id=\"a\" class=\"b c\" {", "    br;", "    \"x\\\"y\"", "}"])
    );
}

#[test]
fn walk_starts_at_the_indentation_it_is_given() {
    let mut dom = Dom::new();
    let p = dom.append(0, element("p", &[])).unwrap();
    dom.append(p, text("x")).unwrap();
    let mut doc = Doc::new("");
    walk(&config(Render::Full), 2, &dom, p, &mut doc, &Parent::Body);
    assert_eq!(doc.body(), &strings(&["  p {", "      \"x\"", "  }"]));
    assert!(doc.head().is_empty());

    let mut doc = Doc::new("");
    walk_children(&config(Render::Full), 1, &dom, 0, &mut doc, &Parent::Head);
    assert_eq!(doc.head(), &strings(&[" p {", "     \"x\"", " }"]));
}

#[test]
fn children_of_a_void_element_are_walked_and_nothing_is_closed() {
    let mut dom = Dom::new();
    let br = dom.append(0, element("br", &[])).unwrap();
    dom.append(br, text("inside")).unwrap();
    let mut doc = Doc::new("");
    walk(&config(Render::Full), 0, &dom, br, &mut doc, &Parent::Body);
    assert_eq!(doc.body(), &strings(&["br;", "    \"inside\""]));
}

#[test]
fn characters_outside_printable_ascii_are_escaped_by_code_point() {
    let mut dom = Dom::new();
    dom.append(0, text("a\u{1}\u{7f}\0~ \u{a0}\u{10ffff}z")).unwrap();
    let mut doc = Doc::new("");
    walk(&config(Render::Full), 0, &dom, 0, &mut doc, &Parent::Body);
    assert_eq!(doc.body(), &strings(&["    \"a\\u{1}\\u{7f}\\u{0}~ \\u{a0}\\u{10ffff}z\""]));
}

#[test]
fn whitespace_of_every_kind_is_trimmed() {
    let mut dom = Dom::new();
    dom.append(0, text("\u{a0}\u{2003}\n\t x \u{3000}\r")).unwrap();
    dom.append(0, text("\u{2028}\u{85} \u{1680}")).unwrap();
    dom.append(0, text("\u{200b}")).unwrap();
    let mut doc = Doc::new("");
    walk(&config(Render::Full), 0, &dom, 0, &mut doc, &Parent::Head);
    assert_eq!(doc.head(), &strings(&["    \"x\"", "    \"\\u{200b}\""]));
}

#[test]
fn body_inside_the_head_closes_in_the_head() {
    let mut dom = Dom::new();
    let head = dom.append(0, element("head", &[])).unwrap();
    let body = dom.append(head, element("body", &[])).unwrap();
    dom.append(body, element("hr", &[])).unwrap();
    let mut doc = Doc::new("");
    walk(&config(Render::Full), 0, &dom, 0, &mut doc, &Parent::Other);
    assert_eq!(doc.head(), &strings(&["body {", "}"]));
    assert_eq!(doc.body(), &strings(&["hr;"]));
}

#[test]
fn convert_walks_and_renders() {
    let mut dom = Dom::new();
    let body = dom.append(0, element("body", &[])).unwrap();
    dom.append(body, element("hr", &[])).unwrap();
    assert_eq!(convert(&dom, "<hr>", &config(Render::Auto)), "html! {\n    hr;\n}");
    assert_eq!(
        convert(&dom, "<body><hr>", &config(Render::Auto)),
        "html! {\n    (maud::DOCTYPE)\n    head {\n\n    }\n    body {\n        hr;\n    }\n}"
    );
    assert_eq!(convert(&Dom::new(), "", &config(Render::OnlyBody)), "html! {\n\n}");
}

#[test]
fn parse_writes_the_parsers_tree_into_the_arena() {
    let dom = parse("<!DOCTYPE html><p class=\"a\" id=x>t<!--c--><br></p>").unwrap();
    // document, doctype, html, head, body, p, text, comment, br
    assert_eq!(dom.len(), 9);
    assert!(matches!(dom.node(0).data(), NodeData::Document));
    assert_eq!(dom.node(0).children(), &vec![1, 2]);
    assert!(matches!(dom.node(1).data(), NodeData::Doctype));
    assert!(matches!(dom.node(2).data(), NodeData::Element { name, attrs } if name == "html" && attrs.is_empty()));
    assert_eq!(dom.node(2).children(), &vec![3, 4]);
    assert!(matches!(dom.node(3).data(), NodeData::Element { name, .. } if name == "head"));
    assert!(matches!(dom.node(4).data(), NodeData::Element { name, .. } if name == "body"));
    assert_eq!(dom.node(4).children(), &vec![5]);
    assert!(matches!(
        dom.node(5).data(),
        NodeData::Element { name, attrs }
            if name == "p" && attrs == &vec![("class".to_string(), "a".to_string()), ("id".to_string(), "x".to_string())]
    ));
    assert_eq!(dom.node(5).children(), &vec![6, 7, 8]);
    assert!(matches!(dom.node(6).data(), NodeData::Text(s) if s == "t"));
    assert!(matches!(dom.node(7).data(), NodeData::Comment(s) if s == "c"));
    assert!(matches!(dom.node(8).data(), NodeData::Element { name, .. } if name == "br"));
    assert!(dom.node(8).children().is_empty());
}

#[test]
fn a_question_mark_tag_is_a_comment_to_the_parser() {
    let dom = parse("<?xml version=\"1.0\"?><p>x</p>").unwrap();
    let mut comments = 0;
    for i in 0..dom.len() {
        assert!(!matches!(dom.node(i).data(), NodeData::ProcessingInstruction));
        if matches!(dom.node(i).data(), NodeData::Comment(_)) {
            comments += 1;
        }
    }
    assert_eq!(comments, 1);
}

#[test]
fn a_text_beyond_the_limit_is_too_large() {
    assert_eq!(MAX_TEXT_BYTES, (1usize << 31) / 3);
    let html = " ".repeat(MAX_TEXT_BYTES + 1);
    assert!(matches!(parse(&html), Err(ParseError::TooLarge)));
    let config = config(Render::Auto);
    assert!(matches!(html_to_maud(&html, &config), Err(ParseError::TooLarge)));
}

#[test]
fn errors_have_messages() {
    assert_eq!(
        ParseError::Read("broken pipe".to_string()).message(),
        "could not read the markup: broken pipe"
    );
    assert_eq!(ParseError::NotADocument.message(), "the root of the markup is no document");
    assert_eq!(
        ParseError::ProcessingInstruction.message(),
        "the markup holds a processing instruction"
    );
    assert_eq!(ParseError::TooLarge.message(), "the markup is too large");
}
