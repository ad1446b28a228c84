use htom_core::html_to_maud::{html_to_maud, ClassStyle, Config, IdStyle, Render};

fn config(render: Render, id_style: IdStyle, class_style: ClassStyle) -> Config {
    Config { render, id_style, class_style }
}

fn full() -> Config {
    config(Render::Auto, IdStyle::Full, ClassStyle::Full)
}

fn convert(html: &str, config: &Config) -> String {
    html_to_maud(html, config).expect("the parser reads every text")
}

const TITLE: &str = "<div id=\"title\" class=\"text-xl font-bold\">Hello world</div>";

#[test]
fn div_with_id_and_classes_in_full_styles() {
    assert_eq!(
        convert(TITLE, &full()),
        "html! {\n    div id=\"title\" class=\"text-xl font-bold\" {\n        \"Hello world\"\n    }\n}"
    );
}

#[test]
fn div_with_id_and_classes_in_short_styles_without_div() {
    assert_eq!(
        convert(TITLE, &config(Render::Full, IdStyle::ShortNoDiv, ClassStyle::ShortNoDiv)),
        "html! {\n    (maud::DOCTYPE)\n    head {\n\n    }\n    body {\n        #title .text-xl.font-bold {\n            \"Hello world\"\n        }\n    }\n}"
    );
    assert_eq!(
        convert(TITLE, &config(Render::Auto, IdStyle::ShortNoDiv, ClassStyle::ShortNoDiv)),
        "html! {\n    #title .text-xl.font-bold {\n        \"Hello world\"\n    }\n}"
    );
}

#[test]
fn div_keeps_its_name_in_short_styles() {
    assert_eq!(
        convert(TITLE, &config(Render::Auto, IdStyle::Short, ClassStyle::Short)),
        "html! {\n    div #title .text-xl.font-bold {\n        \"Hello world\"\n    }\n}"
    );
}

#[test]
fn br_is_one_line_without_closing() {
    assert_eq!(
        convert("<p>a<br>b</p>", &full()),
        "html! {\n    p {\n        \"a\"\n        br;\n        \"b\"\n    }\n}"
    );
}

#[test]
fn every_void_element_ends_with_a_semicolon() {
    for tag in ["area", "base", "br", "col", "embed", "hr", "img", "input", "link", "meta", "param", "source", "track", "wbr"] {
        let out = convert(&format!("<body><{}></body>", tag), &config(Render::OnlyBody, IdStyle::Full, ClassStyle::Full));
        // `col` outside a table and the elements that belong in the head are dropped or moved by
        // the parser; wherever one is kept in the body, it is one line that ends with `;`.
        for line in out.lines() {
            if line.trim_start().starts_with(tag) {
                assert_eq!(line.trim_start(), format!("{};", tag));
            }
        }
        assert_eq!(out.matches('{').count(), out.matches('}').count());
    }
}

#[test]
fn full_document_has_head_and_body_blocks() {
    assert_eq!(
        convert(
            "<html><head><title>T</title></head><body><p>Hi</p></body></html>",
            &config(Render::Full, IdStyle::Full, ClassStyle::Full)
        ),
        "html! {\n    (maud::DOCTYPE)\n    head {\n        title {\n            \"T\"\n        }\n    }\n    body {\n        p {\n            \"Hi\"\n        }\n    }\n}"
    );
}

#[test]
fn only_body_leaves_the_head_out() {
    assert_eq!(
        convert(
            "<html><head><title>T</title></head><body><p>Hi</p></body></html>",
            &config(Render::OnlyBody, IdStyle::Full, ClassStyle::Full)
        ),
        "html! {\n    p {\n        \"Hi\"\n    }\n}"
    );
}

#[test]
fn id_with_a_digit_is_quoted_in_short_style() {
    assert_eq!(
        convert("<p id=\"2fa\">x</p>", &config(Render::Auto, IdStyle::Short, ClassStyle::Full)),
        "html! {\n    p #\"2fa\" {\n        \"x\"\n    }\n}"
    );
}

#[test]
fn class_with_a_colon_is_quoted_in_short_style() {
    assert_eq!(
        convert(
            "<p class=\"flex sm:block w-1/2\">x</p>",
            &config(Render::Auto, IdStyle::Full, ClassStyle::Short)
        ),
        "html! {\n    p .flex.\"sm:block\".\"w-1/2\" {\n        \"x\"\n    }\n}"
    );
}

#[test]
fn auto_is_only_body_without_document_tags() {
    for html in [TITLE, "", "plain text", "<p>a</p><!-- c --><p>b</p>", "<body class=\"x\"><p>a</p></body>"] {
        assert_eq!(
            convert(html, &config(Render::Auto, IdStyle::Short, ClassStyle::Short)),
            convert(html, &config(Render::OnlyBody, IdStyle::Short, ClassStyle::Short))
        );
    }
}

#[test]
fn auto_is_full_with_a_document_tag() {
    for html in [
        "<html><p>a</p></html>",
        "<head><title>t</title></head>",
        "<body><p>a</p></body>",
        "<p>the text &lt;body> is no tag, <body> is</p>",
    ] {
        assert_eq!(
            convert(html, &config(Render::Auto, IdStyle::Full, ClassStyle::Full)),
            convert(html, &config(Render::Full, IdStyle::Full, ClassStyle::Full))
        );
    }
}

#[test]
fn comments_are_dropped() {
    let with = convert("<p>a<!-- note --></p><!-- more -->", &full());
    let without = convert("<p>a</p>", &full());
    assert_eq!(with, without);
    assert!(!with.contains("note"));
}

#[test]
fn doctype_is_dropped() {
    assert_eq!(
        convert("<!DOCTYPE html><p>a</p>", &full()),
        convert("<p>a</p>", &full())
    );
}

#[test]
fn whitespace_only_text_gives_no_line() {
    assert_eq!(
        convert("<ul>\n  <li>a</li>\n  <li> b \n</li>\n</ul>", &full()),
        "html! {\n    ul {\n        li {\n            \"a\"\n        }\n        li {\n            \"b\"\n        }\n    }\n}"
    );
}

#[test]
fn text_is_trimmed_and_escaped() {
    assert_eq!(
        convert("<p>  say \"hi\"\tto\\ it's\nme\u{e9}\u{1f600} </p>", &full()),
        "html! {\n    p {\n        \"say \\\"hi\\\"\\tto\\\\ it\\'s\\nme\\u{e9}\\u{1f600}\"\n    }\n}"
    );
}

#[test]
fn empty_input_gives_an_empty_body() {
    assert_eq!(convert("", &full()), "html! {\n\n}");
    assert_eq!(
        convert("", &config(Render::Full, IdStyle::Full, ClassStyle::Full)),
        "html! {\n    (maud::DOCTYPE)\n    head {\n\n    }\n    body {\n\n    }\n}"
    );
}

#[test]
fn attributes_keep_their_order_and_empty_values_are_bare() {
    assert_eq!(
        convert("<input type=\"checkbox\" checked name=\"a\" disabled=\"\">", &full()),
        "html! {\n    input type=\"checkbox\" checked name=\"a\" disabled;\n}"
    );
}

#[test]
fn nested_elements_are_indented_by_four() {
    assert_eq!(
        convert("<div><section><p>deep</p></section></div>", &full()),
        "html! {\n    div {\n        section {\n            p {\n                \"deep\"\n            }\n        }\n    }\n}"
    );
}

#[test]
fn head_elements_go_to_the_head_block() {
    assert_eq!(
        convert(
            "<head><meta charset=\"utf-8\"><title>T</title></head><body><hr></body>",
            &full()
        ),
        "html! {\n    (maud::DOCTYPE)\n    head {\n        meta charset=\"utf-8\";\n        title {\n            \"T\"\n        }\n    }\n    body {\n        hr;\n    }\n}"
    );
}

#[test]
fn blocks_nest_in_every_output() {
    for html in [TITLE, "<ul><li>a<li>b</ul><br><img src=x>", "<table><tr><td>1</table>", "<b><i>x</b>y</i>"] {
        for render in [Render::Auto, Render::Full, Render::OnlyBody] {
            let out = convert(html, &config(render, IdStyle::ShortNoDiv, ClassStyle::Short));
            let mut depth = 0i64;
            for line in out.lines() {
                if line.ends_with('{') {
                    depth += 1;
                } else if line.ends_with('}') {
                    depth -= 1;
                    assert!(depth >= 0);
                }
            }
            assert_eq!(depth, 0);
        }
    }
}

#[test]
fn duplicated_id_attribute_keeps_the_first() {
    assert_eq!(
        convert("<p id=\"a\" id=\"b\">x</p>", &config(Render::Auto, IdStyle::Short, ClassStyle::Full)),
        "html! {\n    p #a {\n        \"x\"\n    }\n}"
    );
}

#[test]
fn a_line_feed_in_a_text_stays_within_its_line() {
    let text = convert("<p title=\"a b\">one\ntwo</p>", &full());
    assert_eq!(text, "html! {\n    p title=\"a b\" {\n        \"one\\ntwo\"\n    }\n}");
    assert_eq!(text.split('\n').count(), 5);
}

#[test]
fn a_line_feed_in_an_attribute_value_is_written_as_it_is() {
    assert_eq!(
        convert("<p title=\"a\nb\">x</p>", &full()),
        "html! {\n    p title=\"a\nb\" {\n        \"x\"\n    }\n}"
    );
}
