//! What holds of every conversion, stated over the functions that the contracts use.

use crate::config::{ClassStyle, Config, IdStyle, Render};
use crate::doc::{body_text, full_text, names_document, pushed, rendered, DocView, Parent};
use crate::html_to_maud::converted;
use crate::parse::parsed;
use crate::dom::{Content, Tree};
use crate::element::{
    attribute_segment, attributes_of, class_segment, classes_of, element_of, head_token,
    id_segment, id_text,
    is_void_tag, omits_tag_name, requires_quotes, shorthand, shorthands, tag_segment,
    AttributeView, ElementView,
};
use crate::html_to_maud::conversion;
use crate::text::{
    escaped, escaped_char, indented, is_numeric, is_whitespace, joined, lemma_word_len_bounds, padding, spaced,
    trimmed, word_len, words,
};
use crate::walk::{
    child_indent, child_parent, close_line, emitted, emitted_all, extended,
    lemma_extended_twice, lemma_pushed_is_extended, line_for, open_line, terminator, text_line,
    walked, walked_all,
};
use vstd::prelude::*;

verus! {

/// Whether a line opens a block: it ends with an opening brace.
pub open spec fn opens_block(line: Seq<char>) -> bool {
    line.len() > 0 && line.last() == '{'
}

/// Whether a line closes a block: it ends with a closing brace.
pub open spec fn closes_block(line: Seq<char>) -> bool {
    line.len() > 0 && line.last() == '}'
}

/// The number of blocks that are open behind `lines`, `depth` of them being open before; `None`
/// where a line closes a block and none is open.
pub open spec fn nesting(lines: Seq<Seq<char>>, depth: nat) -> Option<nat>
    decreases lines.len(),
{
    if lines.len() == 0 {
        Some(depth)
    } else {
        match nesting(lines.drop_last(), depth) {
            None => None,
            Some(open) => if opens_block(lines.last()) {
                Some(open + 1)
            } else if closes_block(lines.last()) {
                if open == 0 {
                    None
                } else {
                    Some((open - 1) as nat)
                }
            } else {
                Some(open)
            },
        }
    }
}

/// The number of lines that open a block.
pub open spec fn opening_count(lines: Seq<Seq<char>>) -> nat
    decreases lines.len(),
{
    if lines.len() == 0 {
        0
    } else {
        opening_count(lines.drop_last()) + if opens_block(lines.last()) {
            1nat
        } else {
            0nat
        }
    }
}

/// The number of lines that close a block.
pub open spec fn closing_count(lines: Seq<Seq<char>>) -> nat
    decreases lines.len(),
{
    if lines.len() == 0 {
        0
    } else {
        closing_count(lines.drop_last()) + if closes_block(lines.last()) {
            1nat
        } else {
            0nat
        }
    }
}

/// Scanning two runs of lines is scanning the first and then the second.
pub proof fn lemma_nesting_concat(first: Seq<Seq<char>>, second: Seq<Seq<char>>, depth: nat)
    ensures
        nesting(first + second, depth) == match nesting(first, depth) {
            None => None,
            Some(open) => nesting(second, open),
        },
    decreases second.len(),
{
    if second.len() == 0 {
        assert(first + second =~= first);
    } else {
        assert((first + second).drop_last() =~= first + second.drop_last());
        assert((first + second).last() == second.last());
        lemma_nesting_concat(first, second.drop_last(), depth);
    }
}

/// The counts of two runs of lines add up.
pub proof fn lemma_counts_concat(first: Seq<Seq<char>>, second: Seq<Seq<char>>)
    ensures
        opening_count(first + second) == opening_count(first) + opening_count(second),
        closing_count(first + second) == closing_count(first) + closing_count(second),
    decreases second.len(),
{
    if second.len() == 0 {
        assert(first + second =~= first);
    } else {
        assert((first + second).drop_last() =~= first + second.drop_last());
        assert((first + second).last() == second.last());
        lemma_counts_concat(first, second.drop_last());
    }
}

/// What one line does to the depth and to the counts.
pub proof fn lemma_one_line(line: Seq<char>, depth: nat)
    ensures
        opens_block(line) ==> nesting(seq![line], depth) == Some(depth + 1),
        closes_block(line) && depth > 0 ==> nesting(seq![line], depth) == Some((depth - 1) as nat),
        !opens_block(line) && !closes_block(line) ==> nesting(seq![line], depth) == Some(depth),
        opening_count(seq![line]) == if opens_block(line) { 1nat } else { 0nat },
        closing_count(seq![line]) == if closes_block(line) { 1nat } else { 0nat },
        nesting(Seq::empty(), depth) == Some(depth),
        opening_count(Seq::empty()) == 0,
        closing_count(Seq::empty()) == 0,
{
    let lines = seq![line];
    assert(lines.drop_last() =~= Seq::<Seq<char>>::empty());
    assert(lines.last() == line);
    assert(nesting(lines.drop_last(), depth) == Some(depth));
    assert(opening_count(lines.drop_last()) == 0);
    assert(closing_count(lines.drop_last()) == 0);
}

/// How the three kinds of line end: a text with a double quote, the opening of an element with
/// a semicolon where the element is void and with an opening brace where it is not, the closing
/// with a closing brace.
pub proof fn lemma_line_ends(
    text: Seq<char>,
    name: Seq<char>,
    attrs: Seq<(Seq<char>, Seq<char>)>,
    config: Config,
    indent: nat,
)
    ensures
        text_line(text, indent).len() > 0,
        open_line(name, attrs, config, indent).len() > 0,
        close_line(indent).len() > 0,
        text_line(text, indent).last() == '"',
        text_line(text, indent) == padding(indent) + seq!['"'] + escaped(trimmed(text)) + seq!['"'],
        is_void_tag(name) ==> open_line(name, attrs, config, indent).last() == ';',
        !is_void_tag(name) ==> open_line(name, attrs, config, indent).last() == '{',
        close_line(indent).last() == '}',
        close_line(indent) == padding(indent).push('}'),
{
    reveal_strlit("\"");
    reveal_strlit(";");
    reveal_strlit(" {");
    reveal_strlit("}");
    assert("\""@ =~= seq!['"']);
    assert(close_line(indent) =~= padding(indent).push('}'));
    assert(terminator(name).len() > 0);
    assert(open_line(name, attrs, config, indent).last() == terminator(name).last());
}

/// A void element gets no closing line, and its opening line ends with a semicolon: what the
/// walk collects for it is its opening line and then what its children give.
pub proof fn law_void_element_is_not_closed(
    tree: Tree,
    config: Config,
    indent: nat,
    parent: Parent,
    target: Parent,
)
    requires
        tree.content is Element,
        is_void_tag(tree.content->name),
    ensures
        emitted(tree, config, indent, parent, target) == line_for(
            parent,
            target,
            open_line(tree.content->name, tree.content->attrs, config, indent),
        ) + emitted_all(
            tree.children,
            config,
            child_indent(tree.content->name, indent),
            child_parent(tree.content->name, parent),
            target,
        ),
        open_line(tree.content->name, tree.content->attrs, config, indent).last() == ';',
        !opens_block(open_line(tree.content->name, tree.content->attrs, config, indent)),
        !closes_block(open_line(tree.content->name, tree.content->attrs, config, indent)),
{
    let name = tree.content->name;
    let attrs = tree.content->attrs;
    lemma_line_ends(Seq::empty(), name, attrs, config, indent);
    let opening = line_for(parent, target, open_line(name, attrs, config, indent));
    let inner = emitted_all(
        tree.children,
        config,
        child_indent(name, indent),
        child_parent(name, parent),
        target,
    );
    assert(opening + inner + Seq::<Seq<char>>::empty() =~= opening + inner);
}

/// An element that is not void is closed once, at the indentation it is opened at and in the
/// place it is opened in: what the walk collects for it is its opening line, then what its
/// children give, then its closing line, which is a closing brace behind as many spaces as
/// stand before the head token in the opening line.
pub proof fn law_element_is_closed_where_it_is_opened(
    tree: Tree,
    config: Config,
    indent: nat,
    parent: Parent,
    target: Parent,
)
    requires
        tree.content is Element,
        !is_void_tag(tree.content->name),
    ensures
        emitted(tree, config, indent, parent, target) == line_for(
            parent,
            target,
            open_line(tree.content->name, tree.content->attrs, config, indent),
        ) + emitted_all(
            tree.children,
            config,
            child_indent(tree.content->name, indent),
            child_parent(tree.content->name, parent),
            target,
        ) + line_for(parent, target, close_line(indent)),
        open_line(tree.content->name, tree.content->attrs, config, indent).last() == '{',
        close_line(indent) == padding(indent).push('}'),
{
    lemma_line_ends(Seq::empty(), tree.content->name, tree.content->attrs, config, indent);
}

/// Nothing added leaves a document as it is.
proof fn lemma_extended_by_nothing(doc: DocView)
    ensures
        extended(doc, Seq::empty(), Seq::empty()) == doc,
{
    assert(doc.head + Seq::<Seq<char>>::empty() =~= doc.head);
    assert(doc.body + Seq::<Seq<char>>::empty() =~= doc.body);
}

/// The walk over a void element without children hands its opening line, which ends with a
/// semicolon, to the place it stands in, and nothing else: no closing line follows, and the
/// other place gets nothing.
pub proof fn law_walk_over_void_leaf(
    doc: DocView,
    tree: Tree,
    config: Config,
    indent: nat,
    parent: Parent,
)
    requires
        tree.content is Element,
        is_void_tag(tree.content->name),
        tree.children.len() == 0,
    ensures
        walked(doc, tree, config, indent, parent) == pushed(
            doc,
            parent,
            open_line(tree.content->name, tree.content->attrs, config, indent),
        ),
        open_line(tree.content->name, tree.content->attrs, config, indent) == padding(indent)
            + head_token(element_of(tree.content->name, attributes_of(tree.content->attrs)), config)
            + ";"@,
{
    let open = open_line(tree.content->name, tree.content->attrs, config, indent);
    law_void_element_is_not_closed(tree, config, indent, parent, Parent::Head);
    law_void_element_is_not_closed(tree, config, indent, parent, Parent::Body);
    lemma_pushed_is_extended(doc, parent, open);
    assert(line_for(parent, Parent::Head, open) + Seq::<Seq<char>>::empty() =~= line_for(
        parent,
        Parent::Head,
        open,
    ));
    assert(line_for(parent, Parent::Body, open) + Seq::<Seq<char>>::empty() =~= line_for(
        parent,
        Parent::Body,
        open,
    ));
}

/// The walk over an element that is not void hands its opening line to the place it stands
/// in, then walks over its children, then hands its closing line to the same place: a closing
/// brace behind the indentation of the opening line.
pub proof fn law_walk_over_element(
    doc: DocView,
    tree: Tree,
    config: Config,
    indent: nat,
    parent: Parent,
)
    requires
        tree.content is Element,
        !is_void_tag(tree.content->name),
    ensures
        walked(doc, tree, config, indent, parent) == pushed(
            walked_all(
                pushed(
                    doc,
                    parent,
                    open_line(tree.content->name, tree.content->attrs, config, indent),
                ),
                tree.children,
                config,
                child_indent(tree.content->name, indent),
                child_parent(tree.content->name, parent),
            ),
            parent,
            close_line(indent),
        ),
        open_line(tree.content->name, tree.content->attrs, config, indent) == padding(indent)
            + head_token(element_of(tree.content->name, attributes_of(tree.content->attrs)), config)
            + " {"@,
        close_line(indent) == padding(indent) + "}"@,
{
    let name = tree.content->name;
    let open = open_line(name, tree.content->attrs, config, indent);
    let close = close_line(indent);
    let inner_head = emitted_all(
        tree.children,
        config,
        child_indent(name, indent),
        child_parent(name, parent),
        Parent::Head,
    );
    let inner_body = emitted_all(
        tree.children,
        config,
        child_indent(name, indent),
        child_parent(name, parent),
        Parent::Body,
    );
    law_element_is_closed_where_it_is_opened(tree, config, indent, parent, Parent::Head);
    law_element_is_closed_where_it_is_opened(tree, config, indent, parent, Parent::Body);
    lemma_pushed_is_extended(doc, parent, open);
    let opened = pushed(doc, parent, open);
    lemma_extended_twice(
        doc,
        line_for(parent, Parent::Head, open),
        line_for(parent, Parent::Body, open),
        inner_head,
        inner_body,
    );
    let filled = extended(opened, inner_head, inner_body);
    lemma_pushed_is_extended(filled, parent, close);
    lemma_extended_twice(
        doc,
        line_for(parent, Parent::Head, open) + inner_head,
        line_for(parent, Parent::Body, open) + inner_body,
        line_for(parent, Parent::Head, close),
        line_for(parent, Parent::Body, close),
    );
}

/// The walk over a text of which nothing is left without the whitespace at its ends leaves the
/// document as it is. The walk over any other text hands one line to the place the text stands
/// in: the indentation, a double quote, the text without the whitespace at its ends and
/// escaped, a double quote. A double quote in the text is written behind a backslash.
pub proof fn law_walk_over_text(
    doc: DocView,
    tree: Tree,
    config: Config,
    indent: nat,
    parent: Parent,
)
    requires
        tree.content is Text,
    ensures
        trimmed(tree.content->Text_0).len() == 0 ==> walked(doc, tree, config, indent, parent)
            == doc,
        trimmed(tree.content->Text_0).len() != 0 ==> walked(doc, tree, config, indent, parent)
            == pushed(doc, parent, text_line(tree.content->Text_0, indent)),
        text_line(tree.content->Text_0, indent) == padding(indent) + seq!['"'] + escaped(
            trimmed(tree.content->Text_0),
        ) + seq!['"'],
        escaped_char('"') == seq!['\\', '"'],
{
    let text = tree.content->Text_0;
    lemma_line_ends(text, Seq::empty(), Seq::empty(), config, indent);
    lemma_extended_by_nothing(doc);
    lemma_pushed_is_extended(doc, parent, text_line(text, indent));
}

/// The walk over a comment leaves the document as it is, whatever the configuration, the
/// indentation and the place.
pub proof fn law_walk_over_comment(
    doc: DocView,
    tree: Tree,
    config: Config,
    indent: nat,
    parent: Parent,
)
    requires
        tree.content is Comment,
    ensures
        walked(doc, tree, config, indent, parent) == doc,
{
    lemma_extended_by_nothing(doc);
}

/// In the lines that the walk over a tree adds to one place, the blocks nest: scanned from any
/// depth, no line closes a block that is not open, and the depth at the end is the depth at
/// the start. As many lines open a block as close one.
pub proof fn law_blocks_nest(
    tree: Tree,
    config: Config,
    indent: nat,
    parent: Parent,
    target: Parent,
    depth: nat,
)
    ensures
        nesting(emitted(tree, config, indent, parent, target), depth) == Some(depth),
        opening_count(emitted(tree, config, indent, parent, target)) == closing_count(
            emitted(tree, config, indent, parent, target),
        ),
    decreases tree,
{
    let lines = emitted(tree, config, indent, parent, target);
    lemma_one_line(Seq::empty(), depth);
    match tree.content {
        Content::Document => {
            law_blocks_nest_all(tree.children, config, indent + 4, parent, target, depth);
        },
        Content::Doctype => {},
        Content::Comment(_) => {},
        Content::ProcessingInstruction => {},
        Content::Text(text) => {
            lemma_line_ends(text, Seq::empty(), Seq::empty(), config, indent);
            lemma_one_line(text_line(text, indent), depth);
        },
        Content::Element { name, attrs } => {
            lemma_line_ends(Seq::empty(), name, attrs, config, indent);
            let open = open_line(name, attrs, config, indent);
            let close = close_line(indent);
            let inner = emitted_all(
                tree.children,
                config,
                child_indent(name, indent),
                child_parent(name, parent),
                target,
            );
            let opening = line_for(parent, target, open);
            let closing = if is_void_tag(name) {
                Seq::empty()
            } else {
                line_for(parent, target, close)
            };
            assert(lines == opening + inner + closing);
            let inner_depth: nat = if parent == target && !is_void_tag(name) {
                depth + 1
            } else {
                depth
            };
            law_blocks_nest_all(
                tree.children,
                config,
                child_indent(name, indent),
                child_parent(name, parent),
                target,
                inner_depth,
            );
            lemma_one_line(open, depth);
            lemma_one_line(close, inner_depth);
            lemma_one_line(Seq::empty(), inner_depth);
            assert(nesting(opening, depth) == Some(inner_depth));
            lemma_nesting_concat(opening, inner, depth);
            assert(nesting(opening + inner, depth) == Some(inner_depth));
            lemma_nesting_concat(opening + inner, closing, depth);
            assert(nesting(closing, inner_depth) == Some(depth));
            lemma_counts_concat(opening, inner);
            lemma_counts_concat(opening + inner, closing);
        },
    }
}

/// In the lines that the walks over trees add to one place, the blocks nest, and as many lines
/// open a block as close one.
pub proof fn law_blocks_nest_all(
    trees: Seq<Tree>,
    config: Config,
    indent: nat,
    parent: Parent,
    target: Parent,
    depth: nat,
)
    ensures
        nesting(emitted_all(trees, config, indent, parent, target), depth) == Some(depth),
        opening_count(emitted_all(trees, config, indent, parent, target)) == closing_count(
            emitted_all(trees, config, indent, parent, target),
        ),
    decreases trees,
{
    if trees.len() > 0 {
        let before = emitted_all(trees.drop_last(), config, indent, parent, target);
        let last = emitted(trees.last(), config, indent, parent, target);
        law_blocks_nest_all(trees.drop_last(), config, indent, parent, target, depth);
        law_blocks_nest(trees.last(), config, indent, parent, target, depth);
        lemma_nesting_concat(before, last, depth);
        lemma_counts_concat(before, last);
    }
}

/// A text of which nothing is left without the whitespace at its ends gives no line; any other
/// text gives one line, which holds the text in double quotes behind the indentation, and goes
/// to the place that the text stands in.
pub proof fn law_text_is_one_quoted_line(
    tree: Tree,
    config: Config,
    indent: nat,
    parent: Parent,
    target: Parent,
)
    requires
        tree.content is Text,
    ensures
        trimmed(tree.content->Text_0).len() == 0 ==> emitted(tree, config, indent, parent, target)
            == Seq::<Seq<char>>::empty(),
        trimmed(tree.content->Text_0).len() != 0 ==> emitted(tree, config, indent, parent, parent)
            == seq![text_line(tree.content->Text_0, indent)],
        text_line(tree.content->Text_0, indent) == padding(indent) + seq!['"'] + escaped(
            trimmed(tree.content->Text_0),
        ) + seq!['"'],
{
    lemma_line_ends(tree.content->Text_0, Seq::empty(), Seq::empty(), config, indent);
}

/// A comment gives no line, whatever the configuration and wherever it stands.
pub proof fn law_comment_gives_no_line(
    tree: Tree,
    config: Config,
    indent: nat,
    parent: Parent,
    target: Parent,
)
    requires
        tree.content is Comment,
    ensures
        emitted(tree, config, indent, parent, target) == Seq::<Seq<char>>::empty(),
{
}

/// A tree without the comments in it.
pub open spec fn without_comments(tree: Tree) -> Tree
    decreases tree,
{
    Tree { content: tree.content, children: all_without_comments(tree.children) }
}

/// The trees that are no comments, each without the comments in it.
pub open spec fn all_without_comments(trees: Seq<Tree>) -> Seq<Tree>
    decreases trees,
{
    if trees.len() == 0 {
        Seq::empty()
    } else if trees.last().content is Comment {
        all_without_comments(trees.drop_last())
    } else {
        all_without_comments(trees.drop_last()).push(without_comments(trees.last()))
    }
}

/// Comments leave no trace: the walk collects the same lines when every comment is taken out
/// of the tree.
pub proof fn law_comments_leave_no_trace(
    tree: Tree,
    config: Config,
    indent: nat,
    parent: Parent,
    target: Parent,
)
    ensures
        emitted(without_comments(tree), config, indent, parent, target) == emitted(
            tree,
            config,
            indent,
            parent,
            target,
        ),
    decreases tree,
{
    match tree.content {
        Content::Document => {
            law_comments_leave_no_trace_all(tree.children, config, indent + 4, parent, target);
        },
        Content::Element { name, attrs } => {
            law_comments_leave_no_trace_all(
                tree.children,
                config,
                child_indent(name, indent),
                child_parent(name, parent),
                target,
            );
        },
        _ => {},
    }
}

/// Comments leave no trace in the lines of the walks over trees.
pub proof fn law_comments_leave_no_trace_all(
    trees: Seq<Tree>,
    config: Config,
    indent: nat,
    parent: Parent,
    target: Parent,
)
    ensures
        emitted_all(all_without_comments(trees), config, indent, parent, target) == emitted_all(
            trees,
            config,
            indent,
            parent,
            target,
        ),
    decreases trees,
{
    if trees.len() > 0 {
        let before = all_without_comments(trees.drop_last());
        let lines = emitted_all(trees.drop_last(), config, indent, parent, target);
        let last = emitted(trees.last(), config, indent, parent, target);
        law_comments_leave_no_trace_all(trees.drop_last(), config, indent, parent, target);
        assert(emitted_all(trees, config, indent, parent, target) == lines + last);
        if trees.last().content is Comment {
            assert(last =~= Seq::<Seq<char>>::empty());
            assert(lines + last =~= lines);
        } else {
            let kept = without_comments(trees.last());
            law_comments_leave_no_trace(trees.last(), config, indent, parent, target);
            let pruned = before.push(kept);
            assert(all_without_comments(trees) == pruned);
            assert(pruned.drop_last() =~= before);
            assert(pruned.last() == kept);
            assert(emitted_all(pruned, config, indent, parent, target) == emitted_all(
                pruned.drop_last(),
                config,
                indent,
                parent,
                target,
            ) + emitted(pruned.last(), config, indent, parent, target));
        }
    }
}

/// The lines of the walk do not depend on the render mode.
pub proof fn lemma_lines_ignore_render(
    tree: Tree,
    config: Config,
    other: Config,
    indent: nat,
    parent: Parent,
    target: Parent,
)
    requires
        config.id_style == other.id_style,
        config.class_style == other.class_style,
    ensures
        emitted(tree, config, indent, parent, target) == emitted(
            tree,
            other,
            indent,
            parent,
            target,
        ),
    decreases tree,
{
    match tree.content {
        Content::Document => {
            lemma_all_lines_ignore_render(
                tree.children,
                config,
                other,
                indent + 4,
                parent,
                target,
            );
        },
        Content::Element { name, attrs } => {
            lemma_all_lines_ignore_render(
                tree.children,
                config,
                other,
                child_indent(name, indent),
                child_parent(name, parent),
                target,
            );
        },
        _ => {},
    }
}

/// The lines of the walks over trees do not depend on the render mode.
pub proof fn lemma_all_lines_ignore_render(
    trees: Seq<Tree>,
    config: Config,
    other: Config,
    indent: nat,
    parent: Parent,
    target: Parent,
)
    requires
        config.id_style == other.id_style,
        config.class_style == other.class_style,
    ensures
        emitted_all(trees, config, indent, parent, target) == emitted_all(
            trees,
            other,
            indent,
            parent,
            target,
        ),
    decreases trees,
{
    if trees.len() > 0 {
        lemma_all_lines_ignore_render(trees.drop_last(), config, other, indent, parent, target);
        lemma_lines_ignore_render(trees.last(), config, other, indent, parent, target);
    }
}

/// What a text is converted to under `Render::Auto` is what it is converted to under
/// `Render::OnlyBody` where it names none of `<html>`, `<head>` and `<body>`, and what it is
/// converted to under `Render::Full` where it names one of them.
pub proof fn law_auto_follows_the_input(html: Seq<char>, config: Config)
    requires
        config.render == Render::Auto,
    ensures
        !names_document(html) ==> converted(html, config) == converted(
            html,
            Config { render: Render::OnlyBody, ..config },
        ),
        names_document(html) ==> converted(html, config) == converted(
            html,
            Config { render: Render::Full, ..config },
        ),
{
    if parsed(html) is Ok {
        law_auto_is_body_or_full(parsed(html)->Ok_0, html, config);
    }
}

/// `Render::Auto` gives the text of `Render::OnlyBody` where the input names none of `<html>`,
/// `<head>` and `<body>`, and the text of `Render::Full` where it names one of them, whatever
/// tree the text is made from.
pub proof fn law_auto_is_body_or_full(tree: Tree, html: Seq<char>, config: Config)
    requires
        config.render == Render::Auto,
    ensures
        !names_document(html) ==> conversion(tree, html, config) == conversion(
            tree,
            html,
            Config { render: Render::OnlyBody, ..config },
        ),
        names_document(html) ==> conversion(tree, html, config) == conversion(
            tree,
            html,
            Config { render: Render::Full, ..config },
        ),
{
    let body = Config { render: Render::OnlyBody, ..config };
    let full = Config { render: Render::Full, ..config };
    lemma_lines_ignore_render(tree, config, body, 0, Parent::Other, Parent::Head);
    lemma_lines_ignore_render(tree, config, body, 0, Parent::Other, Parent::Body);
    lemma_lines_ignore_render(tree, config, full, 0, Parent::Other, Parent::Head);
    lemma_lines_ignore_render(tree, config, full, 0, Parent::Other, Parent::Body);
}

/// A shorthand token that holds a numeric character or a colon is written in double quotes;
/// one that holds neither is written as it stands.
pub proof fn law_shorthand_is_quoted_or_bare(token: Seq<char>)
    ensures
        requires_quotes(token) <==> exists|i: int|
            0 <= i < token.len() && (is_numeric(#[trigger] token[i]) || token[i] == ':'),
        requires_quotes(token) ==> shorthand(token) == seq!['"'] + token + seq!['"'],
        !requires_quotes(token) ==> shorthand(token) == token,
        id_text(token, IdStyle::Short) == "#"@ + shorthand(token),
        id_text(token, IdStyle::ShortNoDiv) == "#"@ + shorthand(token),
{
}

/// Whether each of the parts holds a character.
pub open spec fn none_is_empty(parts: Seq<Seq<char>>) -> bool {
    forall|i: int| 0 <= i < parts.len() ==> (#[trigger] parts[i]).len() > 0
}

/// Every word of a text holds a character.
pub proof fn lemma_words_are_not_empty(s: Seq<char>)
    ensures
        none_is_empty(words(s)),
    decreases s.len(),
{
    if s.len() == 0 {
    } else if is_whitespace(s.first()) {
        lemma_words_are_not_empty(s.drop_first());
        assert(words(s) == words(s.drop_first()));
    } else {
        let n = word_len(s) as int;
        lemma_word_len_bounds(s);
        lemma_words_are_not_empty(s.skip(n));
        let rest = words(s.skip(n));
        assert(words(s) == seq![s.take(n)] + rest);
        assert forall|i: int| 0 <= i < words(s).len() implies (#[trigger] words(s)[i]).len()
            > 0 by {
            if i > 0 {
                assert(words(s)[i] == rest[i - 1]);
            } else {
                assert(words(s)[i] == s.take(n));
            }
        }
    }
}

/// Every class name of an element holds a character.
pub proof fn lemma_classes_are_not_empty(attrs: Seq<AttributeView>)
    ensures
        none_is_empty(classes_of(attrs)),
    decreases attrs.len(),
{
    if attrs.len() > 0 {
        let before = classes_of(attrs.drop_last());
        lemma_classes_are_not_empty(attrs.drop_last());
        match attrs.last() {
            AttributeView::Classes(classes) => {
                lemma_words_are_not_empty(classes);
                assert(classes_of(attrs) == before + words(classes));
                assert forall|i: int| 0 <= i < classes_of(attrs).len() implies (
                #[trigger] classes_of(attrs)[i]).len() > 0 by {
                    if i < before.len() {
                        assert(classes_of(attrs)[i] == before[i]);
                    } else {
                        assert(classes_of(attrs)[i] == words(classes)[i - before.len()]);
                    }
                }
            },
            _ => {
                assert(classes_of(attrs) == before);
            },
        }
    }
}

/// The classes of an element are written where it has any, and only there: the class segment
/// of an element that is made of a tag name and attributes is empty where no class attribute
/// of it holds a word, and holds a character where one does.
pub proof fn law_classes_are_written_where_there_are_any(
    tag_name: Seq<char>,
    attrs: Seq<AttributeView>,
    style: ClassStyle,
)
    ensures
        class_segment(element_of(tag_name, attrs).classes, style).len() == 0 <==> element_of(
            tag_name,
            attrs,
        ).classes.len() == 0,
{
    let classes = classes_of(attrs);
    lemma_classes_are_not_empty(attrs);
    if classes.len() > 0 {
        let tokens = shorthands(classes);
        let last = classes[classes.len() - 1];
        assert(last.len() > 0);
        assert(classes.last() == last);
        assert(tokens.last() == shorthand(last));
        assert(shorthand(last).len() > 0);
        assert(joined(classes, " "@).len() > 0);
        assert(joined(tokens, "."@).len() > 0);
    }
}

/// Of the ids of an element only the first is written: the head token is that of the element
/// with its first id alone.
pub proof fn law_only_first_id_is_written(element: ElementView, config: Config)
    requires
        element.ids.len() > 0,
    ensures
        head_token(element, config) == head_token(
            ElementView { ids: seq![element.ids.first()], ..element },
            config,
        ),
{
    let single = ElementView { ids: seq![element.ids.first()], ..element };
    assert(omits_tag_name(element, config) == omits_tag_name(single, config));
    assert(id_segment(element.ids, config.id_style) == id_segment(single.ids, config.id_style));
}

/// The head token of an element without its tag name: id, classes and attributes alone.
pub open spec fn token_without_tag(element: ElementView, config: Config) -> Seq<char> {
    spaced(
        seq![
            id_segment(element.ids, config.id_style),
            class_segment(element.classes, config.class_style),
            attribute_segment(element.attributes),
        ],
    )
}

/// A `div` loses its tag name where it has an id under `IdStyle::ShortNoDiv` or a class under
/// `ClassStyle::ShortNoDiv`: its head token is then made of id, classes and attributes alone.
pub proof fn law_div_is_left_out(element: ElementView, config: Config)
    requires
        element.tag_name == "div"@,
        (element.ids.len() > 0 && config.id_style == IdStyle::ShortNoDiv) || (element.classes.len()
            > 0 && config.class_style == ClassStyle::ShortNoDiv),
    ensures
        tag_segment(element, config) == Seq::<char>::empty(),
        head_token(element, config) == token_without_tag(element, config),
{
    let with_tag = seq![
        tag_segment(element, config),
        id_segment(element.ids, config.id_style),
        class_segment(element.classes, config.class_style),
        attribute_segment(element.attributes),
    ];
    let without = seq![
        id_segment(element.ids, config.id_style),
        class_segment(element.classes, config.class_style),
        attribute_segment(element.attributes),
    ];
    lemma_spaced_skips_empty_first(with_tag);
    assert(with_tag.drop_first() =~= without);
}

/// An element keeps its tag name where neither style is `ShortNoDiv`, where it is no `div`,
/// and where it has neither the id nor the class that would let a `div` lose it.
pub proof fn law_tag_name_is_kept(element: ElementView, config: Config)
    requires
        element.tag_name != "div"@ || ((element.ids.len() == 0 || config.id_style
            != IdStyle::ShortNoDiv) && (element.classes.len() == 0 || config.class_style
            != ClassStyle::ShortNoDiv)),
    ensures
        tag_segment(element, config) == element.tag_name,
{
}

/// An empty part at the start changes nothing in the spaced text.
pub proof fn lemma_spaced_skips_empty_first(parts: Seq<Seq<char>>)
    requires
        parts.len() > 0,
        parts.first().len() == 0,
    ensures
        spaced(parts) == spaced(parts.drop_first()),
    decreases parts.len(),
{
    if parts.len() == 1 {
        assert(parts.drop_last() =~= Seq::<Seq<char>>::empty());
        assert(parts.drop_first() =~= Seq::<Seq<char>>::empty());
        assert(spaced(parts.drop_last()) =~= Seq::<char>::empty());
    } else {
        lemma_spaced_skips_empty_first(parts.drop_last());
        assert(parts.drop_last().drop_first() =~= parts.drop_first().drop_last());
        assert(parts.drop_first().last() == parts.last());
    }
}

/// The lines of a block: its lines behind `indent` spaces, or one empty line where it has none.
pub open spec fn block_lines(lines: Seq<Seq<char>>, indent: nat) -> Seq<Seq<char>> {
    if lines.len() == 0 {
        seq![Seq::empty()]
    } else {
        indented(lines, indent)
    }
}

/// The lines of the text of the body alone.
pub open spec fn body_lines(body: Seq<Seq<char>>) -> Seq<Seq<char>> {
    seq!["html! {"@] + block_lines(body, 4) + seq!["}"@]
}

/// The lines of the text of a whole document.
pub open spec fn full_lines(head: Seq<Seq<char>>, body: Seq<Seq<char>>) -> Seq<Seq<char>> {
    seq!["html! {"@, "    (maud::DOCTYPE)"@, "    head {"@] + block_lines(head, 8) + seq![
        "    }"@,
        "    body {"@,
    ] + block_lines(body, 8) + seq!["    }"@, "}"@]
}

/// The lines of the text of a document in a render mode.
pub open spec fn rendered_lines(doc: DocView, render: Render) -> Seq<Seq<char>> {
    match render {
        Render::Auto => if names_document(doc.input) {
            full_lines(doc.head, doc.body)
        } else {
            body_lines(doc.body)
        },
        Render::Full => full_lines(doc.head, doc.body),
        Render::OnlyBody => body_lines(doc.body),
    }
}

/// Joining two runs of parts is joining each and putting the separator between.
pub proof fn lemma_joined_concat(first: Seq<Seq<char>>, second: Seq<Seq<char>>, sep: Seq<char>)
    requires
        first.len() > 0,
        second.len() > 0,
    ensures
        joined(first + second, sep) == joined(first, sep) + sep + joined(second, sep),
    decreases second.len(),
{
    assert((first + second).drop_last() =~= first + second.drop_last());
    assert((first + second).last() == second.last());
    if second.len() == 1 {
        assert(first + second.drop_last() =~= first);
    } else {
        lemma_joined_concat(first, second.drop_last(), sep);
        assert(joined(first, sep) + sep + joined(second.drop_last(), sep) + sep + second.last()
            =~= joined(first, sep) + sep + (joined(second.drop_last(), sep) + sep + second.last()));
    }
}

/// The lines of a block join to what its lines behind the indentation join to.
pub proof fn lemma_block_joined(lines: Seq<Seq<char>>, indent: nat, sep: Seq<char>)
    ensures
        joined(block_lines(lines, indent), sep) == joined(indented(lines, indent), sep),
{
    if lines.len() == 0 {
        assert(indented(lines, indent) =~= Seq::<Seq<char>>::empty());
    }
}

/// The text of the body alone is its lines with the separator between each two.
pub proof fn lemma_body_text_is_its_lines(body: Seq<Seq<char>>)
    ensures
        body_text(body) == joined(body_lines(body), "\n"@),
{
    let sep = "\n"@;
    let block = block_lines(body, 4);
    let inner = joined(indented(body, 4), sep);
    let open = seq!["html! {"@];
    let close = seq!["}"@];
    lemma_block_joined(body, 4, sep);
    lemma_joined_concat(open, block, sep);
    lemma_joined_concat(open + block, close, sep);
    let parts = seq!["html! {"@, inner, "}"@];
    assert(parts.drop_last() =~= seq!["html! {"@, inner]);
    assert(parts.drop_last().drop_last() =~= open);
    assert(joined(parts.drop_last(), sep) == "html! {"@ + sep + inner);
}

/// One more part joined.
proof fn lemma_joined_push(parts: Seq<Seq<char>>, part: Seq<char>, sep: Seq<char>)
    requires
        parts.len() > 0,
    ensures
        joined(parts.push(part), sep) == joined(parts, sep) + sep + part,
{
    assert(parts.push(part).drop_last() =~= parts);
}

/// Two runs of parts that join to the same text still do with one more part behind each.
proof fn lemma_same_with_part(
    lines: Seq<Seq<char>>,
    parts: Seq<Seq<char>>,
    part: Seq<char>,
    sep: Seq<char>,
)
    requires
        lines.len() > 0,
        parts.len() > 0,
        joined(lines, sep) == joined(parts, sep),
    ensures
        joined(lines.push(part), sep) == joined(parts.push(part), sep),
{
    lemma_joined_push(lines, part, sep);
    lemma_joined_push(parts, part, sep);
}

/// Two runs of parts that join to the same text still do with a block behind the one and what
/// the block joins to behind the other.
proof fn lemma_same_with_block(
    lines: Seq<Seq<char>>,
    parts: Seq<Seq<char>>,
    block: Seq<Seq<char>>,
    sep: Seq<char>,
)
    requires
        lines.len() > 0,
        parts.len() > 0,
        block.len() > 0,
        joined(lines, sep) == joined(parts, sep),
    ensures
        joined(lines + block, sep) == joined(parts.push(joined(block, sep)), sep),
{
    lemma_joined_concat(lines, block, sep);
    lemma_joined_push(parts, joined(block, sep), sep);
}

/// The text of a whole document is its lines with the separator between each two.
pub proof fn lemma_full_text_is_its_lines(head: Seq<Seq<char>>, body: Seq<Seq<char>>)
    ensures
        full_text(head, body) == joined(full_lines(head, body), "\n"@),
{
    let sep = "\n"@;
    let a = seq!["html! {"@, "    (maud::DOCTYPE)"@, "    head {"@];
    let head_block = block_lines(head, 8);
    let body_block = block_lines(body, 8);
    let h = joined(indented(head, 8), sep);
    let d = joined(indented(body, 8), sep);
    lemma_block_joined(head, 8, sep);
    lemma_block_joined(body, 8, sep);
    let l1 = a + head_block;
    let t1 = a.push(h);
    lemma_same_with_block(a, a, head_block, sep);
    let l2 = l1.push("    }"@);
    let t2 = t1.push("    }"@);
    lemma_same_with_part(l1, t1, "    }"@, sep);
    let l3 = l2.push("    body {"@);
    let t3 = t2.push("    body {"@);
    lemma_same_with_part(l2, t2, "    body {"@, sep);
    let l4 = l3 + body_block;
    let t4 = t3.push(d);
    lemma_same_with_block(l3, t3, body_block, sep);
    let l5 = l4.push("    }"@);
    let t5 = t4.push("    }"@);
    lemma_same_with_part(l4, t4, "    }"@, sep);
    let l6 = l5.push("}"@);
    let t6 = t5.push("}"@);
    lemma_same_with_part(l5, t5, "}"@, sep);
    assert(full_lines(head, body) =~= l6);
    assert(t6 =~= seq![
        "html! {"@,
        "    (maud::DOCTYPE)"@,
        "    head {"@,
        h,
        "    }"@,
        "    body {"@,
        d,
        "    }"@,
        "}"@,
    ]);
}

/// The text of a document is its lines with a line feed between each two.
pub proof fn law_text_is_its_lines(doc: DocView, render: Render)
    ensures
        rendered(doc, render) == joined(rendered_lines(doc, render), "\n"@),
{
    lemma_body_text_is_its_lines(doc.body);
    lemma_full_text_is_its_lines(doc.head, doc.body);
}

/// Indentation changes neither what a line opens nor what it closes.
pub proof fn lemma_indented_nests_alike(lines: Seq<Seq<char>>, indent: nat, depth: nat)
    ensures
        nesting(indented(lines, indent), depth) == nesting(lines, depth),
        opening_count(indented(lines, indent)) == opening_count(lines),
        closing_count(indented(lines, indent)) == closing_count(lines),
    decreases lines.len(),
{
    if lines.len() == 0 {
        assert(indented(lines, indent) =~= lines);
    } else {
        lemma_indented_nests_alike(lines.drop_last(), indent, depth);
        assert(indented(lines, indent).drop_last() =~= indented(lines.drop_last(), indent));
        let line = lines.last();
        let moved = padding(indent) + line;
        assert(indented(lines, indent).last() == moved);
        if line.len() > 0 {
            assert(moved.last() == line.last());
        } else if indent > 0 {
            assert(moved.last() == ' ');
        }
    }
}

/// A block nests as its lines do.
pub proof fn lemma_block_nests_alike(lines: Seq<Seq<char>>, indent: nat, depth: nat)
    ensures
        nesting(block_lines(lines, indent), depth) == nesting(lines, depth),
        opening_count(block_lines(lines, indent)) == opening_count(lines),
        closing_count(block_lines(lines, indent)) == closing_count(lines),
{
    if lines.len() == 0 {
        lemma_one_line(Seq::empty(), depth);
    } else {
        lemma_indented_nests_alike(lines, indent, depth);
    }
}

/// How the lines end that stand around the blocks.
pub proof fn lemma_marker_ends()
    ensures
        opens_block("html! {"@),
        opens_block("    head {"@),
        opens_block("    body {"@),
        closes_block("    }"@),
        closes_block("}"@),
        !opens_block("    (maud::DOCTYPE)"@),
        !closes_block("    (maud::DOCTYPE)"@),
{
    reveal_strlit("html! {");
    reveal_strlit("    head {");
    reveal_strlit("    body {");
    reveal_strlit("    }");
    reveal_strlit("}");
    reveal_strlit("    (maud::DOCTYPE)");
}

/// In the lines of the text of a document the blocks nest, and as many lines open a block as
/// close one, where this holds of the lines of its head and of its body.
pub proof fn lemma_rendered_lines_nest(doc: DocView, render: Render)
    requires
        forall|depth: nat| #[trigger] nesting(doc.head, depth) == Some(depth),
        forall|depth: nat| #[trigger] nesting(doc.body, depth) == Some(depth),
        opening_count(doc.head) == closing_count(doc.head),
        opening_count(doc.body) == closing_count(doc.body),
    ensures
        nesting(rendered_lines(doc, render), 0) == Some(0nat),
        opening_count(rendered_lines(doc, render)) == closing_count(rendered_lines(doc, render)),
{
    lemma_marker_ends();
    assert(nesting(body_lines(doc.body), 0) == Some(0nat) && opening_count(body_lines(doc.body))
        == closing_count(body_lines(doc.body))) by {
        let open = seq!["html! {"@];
        let block = block_lines(doc.body, 4);
        let close = seq!["}"@];
        lemma_one_line("html! {"@, 0);
        lemma_one_line("}"@, 1);
        lemma_block_nests_alike(doc.body, 4, 1);
        assert(nesting(doc.body, 1) == Some(1nat));
        lemma_nesting_concat(open, block, 0);
        lemma_nesting_concat(open + block, close, 0);
        lemma_counts_concat(open, block);
        lemma_counts_concat(open + block, close);
    }
    assert(nesting(full_lines(doc.head, doc.body), 0) == Some(0nat) && opening_count(
        full_lines(doc.head, doc.body),
    ) == closing_count(full_lines(doc.head, doc.body))) by {
        let a = seq!["html! {"@, "    (maud::DOCTYPE)"@, "    head {"@];
        let head = block_lines(doc.head, 8);
        let b = seq!["    }"@, "    body {"@];
        let body = block_lines(doc.body, 8);
        let c = seq!["    }"@, "}"@];
        lemma_block_nests_alike(doc.head, 8, 2);
        lemma_block_nests_alike(doc.body, 8, 2);
        assert(nesting(doc.head, 2) == Some(2nat));
        assert(nesting(doc.body, 2) == Some(2nat));
        assert(nesting(a, 0) == Some(2nat) && opening_count(a) == 2 && closing_count(a) == 0) by {
            let a1 = seq!["html! {"@];
            let a2 = seq!["    (maud::DOCTYPE)"@];
            let a3 = seq!["    head {"@];
            assert(a =~= a1 + a2 + a3);
            lemma_one_line("html! {"@, 0);
            lemma_one_line("    (maud::DOCTYPE)"@, 1);
            lemma_one_line("    head {"@, 1);
            lemma_nesting_concat(a1, a2, 0);
            lemma_nesting_concat(a1 + a2, a3, 0);
            lemma_counts_concat(a1, a2);
            lemma_counts_concat(a1 + a2, a3);
        }
        assert(nesting(b, 2) == Some(2nat) && opening_count(b) == 1 && closing_count(b) == 1) by {
            let b1 = seq!["    }"@];
            let b2 = seq!["    body {"@];
            assert(b =~= b1 + b2);
            lemma_one_line("    }"@, 2);
            lemma_one_line("    body {"@, 1);
            lemma_nesting_concat(b1, b2, 2);
            lemma_counts_concat(b1, b2);
        }
        assert(nesting(c, 2) == Some(0nat) && opening_count(c) == 0 && closing_count(c) == 2) by {
            let c1 = seq!["    }"@];
            let c2 = seq!["}"@];
            assert(c =~= c1 + c2);
            lemma_one_line("    }"@, 2);
            lemma_one_line("}"@, 1);
            lemma_nesting_concat(c1, c2, 2);
            lemma_counts_concat(c1, c2);
        }
        lemma_nesting_concat(a, head, 0);
        lemma_nesting_concat(a + head, b, 0);
        lemma_nesting_concat(a + head + b, body, 0);
        lemma_nesting_concat(a + head + b + body, c, 0);
        lemma_counts_concat(a, head);
        lemma_counts_concat(a + head, b);
        lemma_counts_concat(a + head + b, body);
        lemma_counts_concat(a + head + b + body, c);
    }
}

/// The lines that the text of a conversion is made of.
pub open spec fn conversion_lines(tree: Tree, html: Seq<char>, config: Config) -> Seq<Seq<char>> {
    rendered_lines(
        walked(
            DocView { input: html, head: Seq::empty(), body: Seq::empty() },
            tree,
            config,
            0,
            Parent::Other,
        ),
        config.render,
    )
}

/// The text of a conversion is made of lines in which the blocks nest: it is these lines with
/// a line feed between each two; scanned from the first line, no line closes a block that is
/// not open, and none is open behind the last; as many lines open a block as close one.
pub proof fn law_output_nests(tree: Tree, html: Seq<char>, config: Config)
    ensures
        conversion(tree, html, config) == joined(conversion_lines(tree, html, config), "\n"@),
        nesting(conversion_lines(tree, html, config), 0) == Some(0nat),
        opening_count(conversion_lines(tree, html, config)) == closing_count(
            conversion_lines(tree, html, config),
        ),
{
    let start = DocView { input: html, head: Seq::empty(), body: Seq::empty() };
    let doc = walked(start, tree, config, 0, Parent::Other);
    let head = emitted(tree, config, 0, Parent::Other, Parent::Head);
    let body = emitted(tree, config, 0, Parent::Other, Parent::Body);
    assert(doc.head =~= head);
    assert(doc.body =~= body);
    assert forall|depth: nat| #[trigger] nesting(doc.head, depth) == Some(depth) by {
        law_blocks_nest(tree, config, 0, Parent::Other, Parent::Head, depth);
    }
    assert forall|depth: nat| #[trigger] nesting(doc.body, depth) == Some(depth) by {
        law_blocks_nest(tree, config, 0, Parent::Other, Parent::Body, depth);
    }
    law_blocks_nest(tree, config, 0, Parent::Other, Parent::Head, 0);
    law_blocks_nest(tree, config, 0, Parent::Other, Parent::Body, 0);
    law_text_is_its_lines(doc, config.render);
    lemma_rendered_lines_nest(doc, config.render);
}

} // verus!
