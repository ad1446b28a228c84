use htom_core::config::{ClassStyle, Config, IdStyle, Render};
use htom_core::element::{is_empty_element, new_attribute, Attribute, Element};

fn config(id_style: IdStyle, class_style: ClassStyle) -> Config {
    Config { render: Render::Auto, id_style, class_style }
}

fn id(value: &str) -> Attribute {
    Attribute::Id(value.to_string())
}

fn classes(value: &str) -> Attribute {
    Attribute::Classes(value.to_string())
}

fn other(name: &str, value: &str) -> Attribute {
    Attribute::Other { name: name.to_string(), value: value.to_string() }
}

fn element(tag: &str, attrs: Vec<Attribute>) -> Element {
    Element::new(tag.to_string(), attrs)
}

#[test]
fn attributes_are_told_apart_by_name() {
    assert!(matches!(new_attribute("id".to_string(), "a".to_string()), Attribute::Id(v) if v == "a"));
    assert!(matches!(new_attribute("class".to_string(), "a b".to_string()), Attribute::Classes(v) if v == "a b"));
    assert!(matches!(
        new_attribute("href".to_string(), "/".to_string()),
        Attribute::Other { name, value } if name == "href" && value == "/"
    ));
    assert!(matches!(new_attribute("ID".to_string(), "a".to_string()), Attribute::Other { .. }));
}

#[test]
fn void_tags_are_the_fourteen() {
    for tag in ["area", "base", "br", "col", "embed", "hr", "img", "input", "link", "meta", "param", "source", "track", "wbr"] {
        assert!(is_empty_element(tag), "{}", tag);
    }
    for tag in ["div", "p", "BR", "br ", "", "html", "textarea", "script", "b"] {
        assert!(!is_empty_element(tag), "{}", tag);
    }
}

#[test]
fn full_styles_write_attributes() {
    let e = element("div", vec![id("title"), classes("text-xl font-bold")]);
    assert_eq!(
        e.to_maud(&config(IdStyle::Full, ClassStyle::Full)),
        "div id=\"title\" class=\"text-xl font-bold\""
    );
}

#[test]
fn segments_stand_in_a_fixed_order() {
    let e = element("a", vec![other("href", "/x"), classes("b  c"), other("download", ""), id("i")]);
    assert_eq!(
        e.to_maud(&config(IdStyle::Full, ClassStyle::Full)),
        "a id=\"i\" class=\"b c\" href=\"/x\" download"
    );
    assert_eq!(
        e.to_maud(&config(IdStyle::Short, ClassStyle::Short)),
        "a #i .b.c href=\"/x\" download"
    );
}

#[test]
fn empty_segments_are_left_out() {
    assert_eq!(element("p", vec![]).to_maud(&config(IdStyle::Short, ClassStyle::Short)), "p");
    assert_eq!(
        element("p", vec![classes("  \t ")]).to_maud(&config(IdStyle::Full, ClassStyle::Full)),
        "p"
    );
    assert_eq!(
        element("p", vec![other("hidden", "")]).to_maud(&config(IdStyle::Full, ClassStyle::Short)),
        "p hidden"
    );
}

#[test]
fn only_the_first_id_is_written() {
    let many = element("p", vec![id("a"), id("b"), id("c")]);
    let one = element("p", vec![id("a")]);
    for id_style in [IdStyle::Full, IdStyle::Short, IdStyle::ShortNoDiv] {
        let c = config(id_style, ClassStyle::Full);
        assert_eq!(many.to_maud(&c), one.to_maud(&c));
    }
    assert_eq!(many.to_maud(&config(IdStyle::Short, ClassStyle::Full)), "p #a");
    assert_eq!(many.format_id(&IdStyle::Full), "id=\"a\"");
}

#[test]
fn classes_of_several_attributes_are_kept_in_order_with_duplicates() {
    let e = element("p", vec![classes("a b"), id("x"), classes(" b\nc ")]);
    assert_eq!(e.format_classes(&ClassStyle::Full), "class=\"a b b c\"");
    assert_eq!(e.format_classes(&ClassStyle::Short), ".a.b.b.c");
    assert_eq!(e.format_classes(&ClassStyle::ShortNoDiv), ".a.b.b.c");
}

#[test]
fn shorthand_is_quoted_for_digits_and_colons_only() {
    let e = element("p", vec![]);
    for token in ["2fa", "h1", "md:flex", ":", "a:b", "x\u{0663}", "\u{00be}", "w-1/2", "\u{2460}"] {
        assert!(e.shorthand_attr_required_quotes(token), "{}", token);
        assert_eq!(e.shorthand_quote(token), format!("\"{}\"", token));
    }
    for token in ["title", "text-xl", "a_b", "", "font.bold", "\u{4e09}", "K", "a b"] {
        assert!(!e.shorthand_attr_required_quotes(token), "{}", token);
        assert_eq!(e.shorthand_quote(token), token);
    }
    assert_eq!(e.format_id_helper(&IdStyle::Short, "2fa"), "#\"2fa\"");
    assert_eq!(e.format_id_helper(&IdStyle::ShortNoDiv, "title"), "#title");
    assert_eq!(e.format_id_helper(&IdStyle::Full, "2fa"), "id=\"2fa\"");
}

#[test]
fn div_loses_its_name_only_with_the_attribute_that_the_style_is_for() {
    let both = element("div", vec![id("i"), classes("c")]);
    let only_id = element("div", vec![id("i")]);
    let only_class = element("div", vec![classes("c")]);
    let bare = element("div", vec![other("hidden", "")]);
    let span = element("span", vec![id("i"), classes("c")]);

    assert_eq!(both.to_maud(&config(IdStyle::ShortNoDiv, ClassStyle::ShortNoDiv)), "#i .c");
    assert_eq!(both.to_maud(&config(IdStyle::ShortNoDiv, ClassStyle::Full)), "#i class=\"c\"");
    assert_eq!(both.to_maud(&config(IdStyle::Full, ClassStyle::ShortNoDiv)), "id=\"i\" .c");
    assert_eq!(both.to_maud(&config(IdStyle::Short, ClassStyle::Short)), "div #i .c");
    assert_eq!(both.to_maud(&config(IdStyle::Full, ClassStyle::Full)), "div id=\"i\" class=\"c\"");

    assert_eq!(only_id.to_maud(&config(IdStyle::ShortNoDiv, ClassStyle::Full)), "#i");
    assert_eq!(only_id.to_maud(&config(IdStyle::Full, ClassStyle::ShortNoDiv)), "div id=\"i\"");
    assert_eq!(only_class.to_maud(&config(IdStyle::ShortNoDiv, ClassStyle::Full)), "div class=\"c\"");
    assert_eq!(only_class.to_maud(&config(IdStyle::Full, ClassStyle::ShortNoDiv)), ".c");
    assert_eq!(bare.to_maud(&config(IdStyle::ShortNoDiv, ClassStyle::ShortNoDiv)), "div hidden");
    assert_eq!(span.to_maud(&config(IdStyle::ShortNoDiv, ClassStyle::ShortNoDiv)), "span #i .c");

    assert!(both.should_omit_tag_name(&config(IdStyle::ShortNoDiv, ClassStyle::Full)));
    assert!(!both.should_omit_tag_name(&config(IdStyle::Short, ClassStyle::Short)));
    assert!(!span.should_omit_tag_name(&config(IdStyle::ShortNoDiv, ClassStyle::ShortNoDiv)));
    assert_eq!(both.format_tag_name(&config(IdStyle::ShortNoDiv, ClassStyle::Full)), "");
    assert_eq!(span.format_tag_name(&config(IdStyle::ShortNoDiv, ClassStyle::Full)), "span");
}

#[test]
fn attribute_values_are_written_as_they_stand() {
    let e = element("a", vec![other("title", "a \"b\" {"), other("x", ""), other("y", " ")]);
    assert_eq!(e.format_attributes(), "title=\"a \"b\" {\" x y=\" \"");
    assert_eq!(e.format_attribute("href", "/"), "href=\"/\"");
    assert_eq!(e.format_attribute("checked", ""), "checked");
}
