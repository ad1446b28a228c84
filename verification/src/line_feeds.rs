//! Where the lines of the output are the lines of its text: no line that the walk collects
//! holds a line feed, unless a tag name, an attribute name or an attribute value of the markup
//! holds one.

use crate::config::{Config, Render};
use crate::doc::{DocView, Parent};
use crate::dom::{Content, Tree};
use crate::element::{
    attribute_of, attribute_segment, attribute_text, attribute_texts, attributes_of,
    class_segment, classes_of, element_of, head_token, id_segment, ids_of, others_of, shorthand,
    shorthands, tag_segment, AttributeView, ElementView,
};
use crate::html_to_maud::conversion;
use crate::laws::{block_lines, conversion_lines, law_output_nests, rendered_lines};
use crate::text::{
    escaped, escaped_char, hex, hex_digit, indented, is_whitespace, joined,
    lemma_word_len_bounds, padding, spaced, trimmed, trimmed_end, trimmed_start, word_len, words,
};
use crate::walk::{
    child_indent, child_parent, close_line, emitted, emitted_all, line_for, open_line, terminator,
    text_line, walked,
};
use vstd::prelude::*;

verus! {

/// Whether a text holds no line feed.
pub open spec fn feed_free(text: Seq<char>) -> bool {
    forall|i: int| 0 <= i < text.len() ==> (#[trigger] text[i]) != '\n'
}

/// Whether none of the texts holds a line feed.
pub open spec fn all_feed_free(texts: Seq<Seq<char>>) -> bool {
    forall|i: int| 0 <= i < texts.len() ==> feed_free(#[trigger] texts[i])
}

/// Whether no name and no value of the pairs holds a line feed.
pub open spec fn pairs_feed_free(pairs: Seq<(Seq<char>, Seq<char>)>) -> bool {
    forall|i: int|
        0 <= i < pairs.len() ==> feed_free((#[trigger] pairs[i]).0) && feed_free(pairs[i].1)
}

/// Whether an attribute holds no line feed.
pub open spec fn attribute_feed_free(attribute: AttributeView) -> bool {
    match attribute {
        AttributeView::Id(id) => feed_free(id),
        AttributeView::Classes(classes) => feed_free(classes),
        AttributeView::Other { name, value } => feed_free(name) && feed_free(value),
    }
}

/// Whether none of the attributes holds a line feed.
pub open spec fn attributes_feed_free(attrs: Seq<AttributeView>) -> bool {
    forall|i: int| 0 <= i < attrs.len() ==> attribute_feed_free(#[trigger] attrs[i])
}

/// Whether no tag name, attribute name or attribute value of the markup holds a line feed.
pub open spec fn markup_feed_free(tree: Tree) -> bool
    decreases tree,
{
    &&& tree.content is Element ==> feed_free(tree.content->name) && pairs_feed_free(
        tree.content->attrs,
    )
    &&& all_markup_feed_free(tree.children)
}

/// Whether no tag name, attribute name or attribute value of the trees holds a line feed.
pub open spec fn all_markup_feed_free(trees: Seq<Tree>) -> bool
    decreases trees,
{
    trees.len() == 0 || (all_markup_feed_free(trees.drop_last()) && markup_feed_free(
        trees.last(),
    ))
}

/// Two texts one after the other hold no line feed where neither does.
pub proof fn lemma_feed_free_concat(a: Seq<char>, b: Seq<char>)
    requires
        feed_free(a),
        feed_free(b),
    ensures
        feed_free(a + b),
{
    assert forall|i: int| 0 <= i < (a + b).len() implies (#[trigger] (a + b)[i]) != '\n' by {
        if i < a.len() {
            assert((a + b)[i] == a[i]);
        } else {
            assert((a + b)[i] == b[i - a.len()]);
        }
    }
}

/// Two runs of texts one after the other hold no line feed where neither does.
pub proof fn lemma_all_feed_free_concat(a: Seq<Seq<char>>, b: Seq<Seq<char>>)
    requires
        all_feed_free(a),
        all_feed_free(b),
    ensures
        all_feed_free(a + b),
{
    assert forall|i: int| 0 <= i < (a + b).len() implies feed_free(#[trigger] (a + b)[i]) by {
        if i < a.len() {
            assert((a + b)[i] == a[i]);
        } else {
            assert((a + b)[i] == b[i - a.len()]);
        }
    }
}

/// A part of a text holds no line feed where the text holds none.
pub proof fn lemma_feed_free_subrange(s: Seq<char>, from: int, to: int)
    requires
        feed_free(s),
        0 <= from <= to <= s.len(),
    ensures
        feed_free(s.subrange(from, to)),
{
    assert forall|i: int| 0 <= i < to - from implies (#[trigger] s.subrange(from, to)[i])
        != '\n' by {
        assert(s.subrange(from, to)[i] == s[from + i]);
    }
}

/// The texts that the output is written with hold no line feed.
pub proof fn lemma_marks_feed_free()
    ensures
        feed_free("\""@),
        feed_free(";"@),
        feed_free(" {"@),
        feed_free("}"@),
        feed_free("id=\""@),
        feed_free("#"@),
        feed_free("class=\""@),
        feed_free("."@),
        feed_free("=\""@),
        feed_free(" "@),
        feed_free(seq![' ']),
        feed_free(seq!['"']),
        feed_free(Seq::<char>::empty()),
{
    reveal_strlit("\"");
    reveal_strlit(";");
    reveal_strlit(" {");
    reveal_strlit("}");
    reveal_strlit("id=\"");
    reveal_strlit("#");
    reveal_strlit("class=\"");
    reveal_strlit(".");
    reveal_strlit("=\"");
    reveal_strlit(" ");
}

/// Spaces hold no line feed.
pub proof fn lemma_padding_feed_free(count: nat)
    ensures
        feed_free(padding(count)),
{
}

/// A number in hexadecimal holds no line feed.
pub proof fn lemma_hex_feed_free(n: nat)
    ensures
        feed_free(hex(n)),
    decreases n,
{
    reveal_strlit("0123456789abcdef");
    assert forall|d: nat| d < 16 implies hex_digit(d) != '\n' by {}
    if n < 16 {
        assert(hex(n) =~= seq![hex_digit(n)]);
    } else {
        lemma_hex_feed_free(n / 16);
        let digit = hex_digit(n % 16);
        assert(hex(n) =~= hex(n / 16) + seq![digit]);
        lemma_feed_free_concat(hex(n / 16), seq![digit]);
    }
}

/// The escape of a character holds no line feed.
pub proof fn lemma_escaped_char_feed_free(c: char)
    ensures
        feed_free(escaped_char(c)),
{
    if c == '\t' || c == '\r' || c == '\n' {
    } else if c == '\'' || c == '"' || c == '\\' {
    } else if 0x20 <= c as u32 <= 0x7e {
    } else {
        lemma_hex_feed_free(c as nat);
        lemma_feed_free_concat(seq!['\\', 'u', '{'], hex(c as nat));
        lemma_feed_free_concat(seq!['\\', 'u', '{'] + hex(c as nat), seq!['}']);
    }
}

/// An escaped text holds no line feed.
pub proof fn lemma_escaped_feed_free(s: Seq<char>)
    ensures
        feed_free(escaped(s)),
    decreases s.len(),
{
    if s.len() > 0 {
        lemma_escaped_feed_free(s.drop_last());
        lemma_escaped_char_feed_free(s.last());
        lemma_feed_free_concat(escaped(s.drop_last()), escaped_char(s.last()));
    }
}

/// Joined parts hold no line feed where no part and not the separator holds one.
pub proof fn lemma_joined_feed_free(parts: Seq<Seq<char>>, sep: Seq<char>)
    requires
        all_feed_free(parts),
        feed_free(sep),
    ensures
        feed_free(joined(parts, sep)),
    decreases parts.len(),
{
    if parts.len() == 0 {
    } else if parts.len() == 1 {
        assert(feed_free(parts[0]));
    } else {
        assert(feed_free(parts[parts.len() - 1]));
        assert forall|i: int| 0 <= i < parts.drop_last().len() implies feed_free(
            #[trigger] parts.drop_last()[i],
        ) by {
            assert(parts.drop_last()[i] == parts[i]);
        }
        lemma_joined_feed_free(parts.drop_last(), sep);
        lemma_feed_free_concat(joined(parts.drop_last(), sep), sep);
        lemma_feed_free_concat(joined(parts.drop_last(), sep) + sep, parts.last());
    }
}

/// Parts with spaces between hold no line feed where no part holds one.
pub proof fn lemma_spaced_feed_free(parts: Seq<Seq<char>>)
    requires
        all_feed_free(parts),
    ensures
        feed_free(spaced(parts)),
    decreases parts.len(),
{
    if parts.len() > 0 {
        assert(feed_free(parts[parts.len() - 1]));
        assert forall|i: int| 0 <= i < parts.drop_last().len() implies feed_free(
            #[trigger] parts.drop_last()[i],
        ) by {
            assert(parts.drop_last()[i] == parts[i]);
        }
        lemma_spaced_feed_free(parts.drop_last());
        let before = spaced(parts.drop_last());
        lemma_feed_free_concat(before, seq![' ']);
        lemma_feed_free_concat(before + seq![' '], parts.last());
    }
}

/// The words of a text hold no line feed where the text holds none.
pub proof fn lemma_words_feed_free(s: Seq<char>)
    requires
        feed_free(s),
    ensures
        all_feed_free(words(s)),
    decreases s.len(),
{
    if s.len() == 0 {
    } else if is_whitespace(s.first()) {
        lemma_feed_free_subrange(s, 1, s.len() as int);
        lemma_words_feed_free(s.drop_first());
        assert(words(s) == words(s.drop_first()));
    } else {
        let n = word_len(s) as int;
        lemma_word_len_bounds(s);
        lemma_feed_free_subrange(s, 0, n);
        lemma_feed_free_subrange(s, n, s.len() as int);
        lemma_words_feed_free(s.skip(n));
        assert(words(s) == seq![s.take(n)] + words(s.skip(n)));
        assert(all_feed_free(seq![s.take(n)])) by {
            assert(seq![s.take(n)][0] == s.take(n));
        }
        lemma_all_feed_free_concat(seq![s.take(n)], words(s.skip(n)));
    }
}

/// What is left of a text without the whitespace at its ends holds no line feed where the
/// text holds none.
pub proof fn lemma_trimmed_feed_free(s: Seq<char>)
    requires
        feed_free(s),
    ensures
        feed_free(trimmed(s)),
{
    lemma_trimmed_start_feed_free(s);
    lemma_trimmed_end_feed_free(trimmed_start(s));
}

/// Without its leading whitespace a text holds no line feed where it held none.
pub proof fn lemma_trimmed_start_feed_free(s: Seq<char>)
    requires
        feed_free(s),
    ensures
        feed_free(trimmed_start(s)),
    decreases s.len(),
{
    if s.len() > 0 && is_whitespace(s.first()) {
        lemma_feed_free_subrange(s, 1, s.len() as int);
        lemma_trimmed_start_feed_free(s.drop_first());
    }
}

/// Without its trailing whitespace a text holds no line feed where it held none.
pub proof fn lemma_trimmed_end_feed_free(s: Seq<char>)
    requires
        feed_free(s),
    ensures
        feed_free(trimmed_end(s)),
    decreases s.len(),
{
    if s.len() > 0 && is_whitespace(s.last()) {
        lemma_feed_free_subrange(s, 0, s.len() - 1);
        lemma_trimmed_end_feed_free(s.drop_last());
    }
}

/// The attributes that names and values stand for hold no line feed where these hold none.
pub proof fn lemma_attributes_of_feed_free(pairs: Seq<(Seq<char>, Seq<char>)>)
    requires
        pairs_feed_free(pairs),
    ensures
        attributes_feed_free(attributes_of(pairs)),
{
    assert forall|i: int| 0 <= i < attributes_of(pairs).len() implies attribute_feed_free(
        #[trigger] attributes_of(pairs)[i],
    ) by {
        assert(feed_free(pairs[i].0) && feed_free(pairs[i].1));
        assert(attributes_of(pairs)[i] == attribute_of(pairs[i].0, pairs[i].1));
    }
}

/// The ids, class names and remaining attributes of an element hold no line feed where its
/// attributes hold none.
pub proof fn lemma_element_feed_free(attrs: Seq<AttributeView>)
    requires
        attributes_feed_free(attrs),
    ensures
        all_feed_free(ids_of(attrs)),
        all_feed_free(classes_of(attrs)),
        pairs_feed_free(others_of(attrs)),
    decreases attrs.len(),
{
    if attrs.len() > 0 {
        let before = attrs.drop_last();
        assert forall|i: int| 0 <= i < before.len() implies attribute_feed_free(
            #[trigger] before[i],
        ) by {
            assert(before[i] == attrs[i]);
        }
        lemma_element_feed_free(before);
        assert(attribute_feed_free(attrs[attrs.len() - 1]));
        match attrs.last() {
            AttributeView::Id(id) => {
                assert(ids_of(attrs) == ids_of(before).push(id));
                assert forall|i: int| 0 <= i < ids_of(attrs).len() implies feed_free(
                    #[trigger] ids_of(attrs)[i],
                ) by {
                    if i < ids_of(before).len() {
                        assert(ids_of(attrs)[i] == ids_of(before)[i]);
                    }
                }
            },
            AttributeView::Classes(classes) => {
                lemma_words_feed_free(classes);
                assert(classes_of(attrs) == classes_of(before) + words(classes));
                lemma_all_feed_free_concat(classes_of(before), words(classes));
            },
            AttributeView::Other { name, value } => {
                assert(others_of(attrs) == others_of(before).push((name, value)));
                assert forall|i: int| 0 <= i < others_of(attrs).len() implies feed_free(
                    (#[trigger] others_of(attrs)[i]).0,
                ) && feed_free(others_of(attrs)[i].1) by {
                    if i < others_of(before).len() {
                        assert(others_of(attrs)[i] == others_of(before)[i]);
                    }
                }
            },
        }
    }
}

/// A shorthand token holds no line feed where the token holds none.
pub proof fn lemma_shorthand_feed_free(token: Seq<char>)
    requires
        feed_free(token),
    ensures
        feed_free(shorthand(token)),
{
    lemma_feed_free_concat(seq!['"'], token);
    lemma_feed_free_concat(seq!['"'] + token, seq!['"']);
}

/// The head token of an element holds no line feed where its tag name, ids, class names and
/// remaining attributes hold none.
pub proof fn lemma_head_token_feed_free(element: ElementView, config: Config)
    requires
        feed_free(element.tag_name),
        all_feed_free(element.ids),
        all_feed_free(element.classes),
        pairs_feed_free(element.attributes),
    ensures
        feed_free(head_token(element, config)),
{
    lemma_marks_feed_free();
    let tag = tag_segment(element, config);
    let id = id_segment(element.ids, config.id_style);
    let class = class_segment(element.classes, config.class_style);
    let rest = attribute_segment(element.attributes);
    assert(feed_free(id)) by {
        if element.ids.len() > 0 {
            let first = element.ids.first();
            assert(first == element.ids[0]);
            lemma_shorthand_feed_free(first);
            lemma_feed_free_concat("id=\""@, first);
            lemma_feed_free_concat("id=\""@ + first, "\""@);
            lemma_feed_free_concat("#"@, shorthand(first));
        }
    }
    assert(feed_free(class)) by {
        let tokens = shorthands(element.classes);
        assert forall|i: int| 0 <= i < tokens.len() implies feed_free(#[trigger] tokens[i]) by {
            lemma_shorthand_feed_free(element.classes[i]);
        }
        lemma_joined_feed_free(element.classes, " "@);
        lemma_joined_feed_free(tokens, "."@);
        let names = joined(element.classes, " "@);
        lemma_feed_free_concat("class=\""@, names);
        lemma_feed_free_concat("class=\""@ + names, "\""@);
        lemma_feed_free_concat("."@, joined(tokens, "."@));
    }
    assert(feed_free(rest)) by {
        let written = attribute_texts(element.attributes);
        assert forall|i: int| 0 <= i < written.len() implies feed_free(#[trigger] written[i]) by {
            let name = element.attributes[i].0;
            let value = element.attributes[i].1;
            assert(written[i] == attribute_text(name, value));
            lemma_feed_free_concat(name, "=\""@);
            lemma_feed_free_concat(name + "=\""@, value);
            lemma_feed_free_concat(name + "=\""@ + value, "\""@);
        }
        lemma_joined_feed_free(written, " "@);
    }
    let parts = seq![tag, id, class, rest];
    assert(all_feed_free(parts));
    lemma_spaced_feed_free(parts);
}

/// The opening line of an element holds no line feed where its tag name and its attributes
/// hold none; the line of a text and the closing line of an element never hold one.
pub proof fn lemma_lines_feed_free(
    text: Seq<char>,
    name: Seq<char>,
    attrs: Seq<(Seq<char>, Seq<char>)>,
    config: Config,
    indent: nat,
)
    ensures
        feed_free(text_line(text, indent)),
        feed_free(close_line(indent)),
        feed_free(name) && pairs_feed_free(attrs) ==> feed_free(
            open_line(name, attrs, config, indent),
        ),
{
    lemma_marks_feed_free();
    lemma_padding_feed_free(indent);
    lemma_escaped_feed_free(trimmed(text));
    lemma_feed_free_concat(padding(indent), "\""@);
    lemma_feed_free_concat(padding(indent) + "\""@, escaped(trimmed(text)));
    lemma_feed_free_concat(padding(indent) + "\""@ + escaped(trimmed(text)), "\""@);
    lemma_feed_free_concat(padding(indent), "}"@);
    if feed_free(name) && pairs_feed_free(attrs) {
        let element = element_of(name, attributes_of(attrs));
        lemma_attributes_of_feed_free(attrs);
        lemma_element_feed_free(attributes_of(attrs));
        lemma_head_token_feed_free(element, config);
        lemma_feed_free_concat(padding(indent), head_token(element, config));
        lemma_feed_free_concat(padding(indent) + head_token(element, config), terminator(name));
    }
}

/// No line that the walk collects holds a line feed, where no tag name, attribute name or
/// attribute value of the markup holds one: a line feed in a text is written as its escape.
/// The lines of the output are then the lines of its text.
pub proof fn law_lines_hold_no_line_feed(
    tree: Tree,
    config: Config,
    indent: nat,
    parent: Parent,
    target: Parent,
)
    requires
        markup_feed_free(tree),
    ensures
        all_feed_free(emitted(tree, config, indent, parent, target)),
    decreases tree,
{
    match tree.content {
        Content::Document => {
            law_all_lines_hold_no_line_feed(tree.children, config, indent + 4, parent, target);
        },
        Content::Text(text) => {
            lemma_lines_feed_free(text, Seq::empty(), Seq::empty(), config, indent);
            assert(all_feed_free(seq![text_line(text, indent)])) by {
                assert(seq![text_line(text, indent)][0] == text_line(text, indent));
            }
        },
        Content::Element { name, attrs } => {
            lemma_lines_feed_free(Seq::empty(), name, attrs, config, indent);
            let open = open_line(name, attrs, config, indent);
            let close = close_line(indent);
            let opening = line_for(parent, target, open);
            let closing = line_for(parent, target, close);
            let inner = emitted_all(
                tree.children,
                config,
                child_indent(name, indent),
                child_parent(name, parent),
                target,
            );
            law_all_lines_hold_no_line_feed(
                tree.children,
                config,
                child_indent(name, indent),
                child_parent(name, parent),
                target,
            );
            assert(all_feed_free(opening)) by {
                if parent == target {
                    assert(opening[0] == open);
                }
            }
            assert(all_feed_free(closing)) by {
                if parent == target {
                    assert(closing[0] == close);
                }
            }
            lemma_all_feed_free_concat(opening, inner);
            lemma_all_feed_free_concat(opening + inner, closing);
            lemma_all_feed_free_concat(opening + inner, Seq::empty());
        },
        _ => {},
    }
}

/// No line that the walks over trees collect holds a line feed, where no tag name, attribute
/// name or attribute value of the trees holds one.
pub proof fn law_all_lines_hold_no_line_feed(
    trees: Seq<Tree>,
    config: Config,
    indent: nat,
    parent: Parent,
    target: Parent,
)
    requires
        all_markup_feed_free(trees),
    ensures
        all_feed_free(emitted_all(trees, config, indent, parent, target)),
    decreases trees,
{
    if trees.len() > 0 {
        law_all_lines_hold_no_line_feed(trees.drop_last(), config, indent, parent, target);
        law_lines_hold_no_line_feed(trees.last(), config, indent, parent, target);
        lemma_all_feed_free_concat(
            emitted_all(trees.drop_last(), config, indent, parent, target),
            emitted(trees.last(), config, indent, parent, target),
        );
    }
}

/// Indented lines hold no line feed where the lines hold none.
pub proof fn lemma_indented_feed_free(lines: Seq<Seq<char>>, indent: nat)
    requires
        all_feed_free(lines),
    ensures
        all_feed_free(indented(lines, indent)),
        all_feed_free(block_lines(lines, indent)),
{
    assert forall|i: int| 0 <= i < indented(lines, indent).len() implies feed_free(
        #[trigger] indented(lines, indent)[i],
    ) by {
        assert(feed_free(lines[i]));
        lemma_feed_free_concat(padding(indent), lines[i]);
    }
    assert(feed_free(seq![Seq::<char>::empty()][0]));
}

/// The lines of the text of a document hold no line feed where the lines of its head and of
/// its body hold none.
pub proof fn lemma_rendered_lines_feed_free(doc: DocView, render: Render)
    requires
        all_feed_free(doc.head),
        all_feed_free(doc.body),
    ensures
        all_feed_free(rendered_lines(doc, render)),
{
    reveal_strlit("html! {");
    reveal_strlit("    (maud::DOCTYPE)");
    reveal_strlit("    head {");
    reveal_strlit("    }");
    reveal_strlit("    body {");
    reveal_strlit("}");
    lemma_indented_feed_free(doc.head, 8);
    lemma_indented_feed_free(doc.body, 8);
    lemma_indented_feed_free(doc.body, 4);
    let open = seq!["html! {"@];
    let close = seq!["}"@];
    let a = seq!["html! {"@, "    (maud::DOCTYPE)"@, "    head {"@];
    let b = seq!["    }"@, "    body {"@];
    let c = seq!["    }"@, "}"@];
    assert(all_feed_free(open));
    assert(all_feed_free(close));
    assert(all_feed_free(a));
    assert(all_feed_free(b));
    assert(all_feed_free(c));
    lemma_all_feed_free_concat(open, block_lines(doc.body, 4));
    lemma_all_feed_free_concat(open + block_lines(doc.body, 4), close);
    lemma_all_feed_free_concat(a, block_lines(doc.head, 8));
    lemma_all_feed_free_concat(a + block_lines(doc.head, 8), b);
    lemma_all_feed_free_concat(a + block_lines(doc.head, 8) + b, block_lines(doc.body, 8));
    lemma_all_feed_free_concat(
        a + block_lines(doc.head, 8) + b + block_lines(doc.body, 8),
        c,
    );
}

/// The lines that the text of a conversion is made of are the lines of that text, where no
/// tag name, attribute name or attribute value of the markup holds a line feed: the text is
/// these lines with a line feed between each two, and none of them holds a line feed.
pub proof fn law_output_lines_are_the_lines_of_the_text(
    tree: Tree,
    html: Seq<char>,
    config: Config,
)
    requires
        markup_feed_free(tree),
    ensures
        conversion(tree, html, config) == joined(conversion_lines(tree, html, config), "\n"@),
        all_feed_free(conversion_lines(tree, html, config)),
{
    let start = DocView { input: html, head: Seq::empty(), body: Seq::empty() };
    let doc = walked(start, tree, config, 0, Parent::Other);
    law_lines_hold_no_line_feed(tree, config, 0, Parent::Other, Parent::Head);
    law_lines_hold_no_line_feed(tree, config, 0, Parent::Other, Parent::Body);
    assert(doc.head =~= emitted(tree, config, 0, Parent::Other, Parent::Head));
    assert(doc.body =~= emitted(tree, config, 0, Parent::Other, Parent::Body));
    lemma_rendered_lines_feed_free(doc, config.render);
    law_output_nests(tree, html, config);
}

} // verus!
