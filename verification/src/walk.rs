//! The walk over the markup: depth first, in document order, one line for each text and for
//! each opening and closing of an element.

use crate::config::Config;
use crate::doc::{pushed, Doc, DocView, Parent};
use crate::dom::{subtree, well_formed, Content, Dom, NodeData, Tree};
use crate::element::{
    attribute_views, attributes_of, element_of, head_token, is_empty_element, is_void_tag,
    new_attribute, pair_views, Attribute, Element,
};
use crate::text::{escape_default, escaped, pad, padding, str_eq, trim, trimmed};
use vstd::prelude::*;

verus! {

/// The line of a text: behind the indentation, in double quotes, the text without the
/// whitespace at its ends and with its characters escaped.
pub open spec fn text_line(text: Seq<char>, indent: nat) -> Seq<char> {
    padding(indent) + "\""@ + escaped(trimmed(text)) + "\""@
}

/// What ends the opening line of an element: a semicolon for a void element, else a space and
/// an opening brace.
pub open spec fn terminator(name: Seq<char>) -> Seq<char> {
    if is_void_tag(name) {
        ";"@
    } else {
        " {"@
    }
}

/// The opening line of an element: behind the indentation, its head token and its terminator.
pub open spec fn open_line(
    name: Seq<char>,
    attrs: Seq<(Seq<char>, Seq<char>)>,
    config: Config,
    indent: nat,
) -> Seq<char> {
    padding(indent) + head_token(element_of(name, attributes_of(attrs)), config) + terminator(name)
}

/// The closing line of an element: behind the indentation, a closing brace.
pub open spec fn close_line(indent: nat) -> Seq<char> {
    padding(indent) + "}"@
}

/// Where the output of the children of an element goes: into the head below `head`, into the
/// body below `body`, else where the output of the element goes.
pub open spec fn child_parent(name: Seq<char>, parent: Parent) -> Parent {
    if name == "head"@ {
        Parent::Head
    } else if name == "body"@ {
        Parent::Body
    } else {
        parent
    }
}

/// The indentation of the children of an element: none below `head` and `body`, whose blocks
/// are indented when the text is made, else four more than that of the element.
pub open spec fn child_indent(name: Seq<char>, indent: nat) -> nat {
    if name == "head"@ || name == "body"@ {
        0
    } else {
        indent + 4
    }
}

/// The line `line` if the place `parent` is the place `target`, else no line.
pub open spec fn line_for(parent: Parent, target: Parent, line: Seq<char>) -> Seq<Seq<char>> {
    if parent == target {
        seq![line]
    } else {
        Seq::empty()
    }
}

/// The lines that the walk over `tree` adds to the place `target`, when it starts at the
/// indentation `indent` and the output of `tree` goes to `parent`.
///
/// The document, a doctype and a comment give no line of their own. A text gives one line
/// unless nothing is left of it without the whitespace at its ends. An element gives its
/// opening line, then what its children give, then its closing line unless it is void.
pub open spec fn emitted(
    tree: Tree,
    config: Config,
    indent: nat,
    parent: Parent,
    target: Parent,
) -> Seq<Seq<char>>
    decreases tree,
{
    match tree.content {
        Content::Document => emitted_all(tree.children, config, indent + 4, parent, target),
        Content::Doctype => Seq::empty(),
        Content::Comment(_) => Seq::empty(),
        Content::ProcessingInstruction => Seq::empty(),
        Content::Text(text) => if trimmed(text).len() == 0 {
            Seq::empty()
        } else {
            line_for(parent, target, text_line(text, indent))
        },
        Content::Element { name, attrs } => {
            let opening = line_for(parent, target, open_line(name, attrs, config, indent));
            let inner = emitted_all(
                tree.children,
                config,
                child_indent(name, indent),
                child_parent(name, parent),
                target,
            );
            let closing = if is_void_tag(name) {
                Seq::empty()
            } else {
                line_for(parent, target, close_line(indent))
            };
            opening + inner + closing
        },
    }
}

/// The lines that the walks over `trees`, one after the other, add to the place `target`.
pub open spec fn emitted_all(
    trees: Seq<Tree>,
    config: Config,
    indent: nat,
    parent: Parent,
    target: Parent,
) -> Seq<Seq<char>>
    decreases trees,
{
    if trees.len() == 0 {
        Seq::empty()
    } else {
        emitted_all(trees.drop_last(), config, indent, parent, target) + emitted(
            trees.last(),
            config,
            indent,
            parent,
            target,
        )
    }
}

/// The document with these lines behind those it has.
pub open spec fn extended(doc: DocView, head: Seq<Seq<char>>, body: Seq<Seq<char>>) -> DocView {
    DocView { input: doc.input, head: doc.head + head, body: doc.body + body }
}

/// The document after the walk over `tree`.
pub open spec fn walked(
    doc: DocView,
    tree: Tree,
    config: Config,
    indent: nat,
    parent: Parent,
) -> DocView {
    extended(
        doc,
        emitted(tree, config, indent, parent, Parent::Head),
        emitted(tree, config, indent, parent, Parent::Body),
    )
}

/// The document after the walks over `trees`, one after the other.
pub open spec fn walked_all(
    doc: DocView,
    trees: Seq<Tree>,
    config: Config,
    indent: nat,
    parent: Parent,
) -> DocView {
    extended(
        doc,
        emitted_all(trees, config, indent, parent, Parent::Head),
        emitted_all(trees, config, indent, parent, Parent::Body),
    )
}

/// Handing a line to the document adds it to the one place it is meant for.
pub proof fn lemma_pushed_is_extended(doc: DocView, parent: Parent, line: Seq<char>)
    ensures
        pushed(doc, parent, line) == extended(
            doc,
            line_for(parent, Parent::Head, line),
            line_for(parent, Parent::Body, line),
        ),
{
    assert(doc.head + Seq::<Seq<char>>::empty() =~= doc.head);
    assert(doc.body + Seq::<Seq<char>>::empty() =~= doc.body);
    assert(doc.head + seq![line] =~= doc.head.push(line));
    assert(doc.body + seq![line] =~= doc.body.push(line));
}

/// Extending twice is extending by both.
pub proof fn lemma_extended_twice(
    doc: DocView,
    head: Seq<Seq<char>>,
    body: Seq<Seq<char>>,
    more_head: Seq<Seq<char>>,
    more_body: Seq<Seq<char>>,
)
    ensures
        extended(extended(doc, head, body), more_head, more_body) == extended(
            doc,
            head + more_head,
            body + more_body,
        ),
{
    assert((doc.head + head) + more_head =~= doc.head + (head + more_head));
    assert((doc.body + body) + more_body =~= doc.body + (body + more_body));
}

/// The attributes of an element of the markup, each told apart by its name.
fn classify(attrs: &Vec<(String, String)>) -> (attributes: Vec<Attribute>)
    ensures
        attribute_views(attributes@) == attributes_of(pair_views(attrs@)),
{
    let mut attributes: Vec<Attribute> = Vec::new();
    let mut at: usize = 0;
    while at < attrs.len()
        invariant
            at <= attrs.len(),
            attribute_views(attributes@) == attributes_of(pair_views(attrs@)).take(at as int),
        decreases attrs.len() - at,
    {
        let ghost before = attributes@;
        let attribute = new_attribute(attrs[at].0.clone(), attrs[at].1.clone());
        attributes.push(attribute);
        proof {
            assert(attribute_views(attributes@) =~= attribute_views(before).push(attribute@));
            assert(attribute_views(attributes@) =~= attributes_of(pair_views(attrs@)).take(
                at + 1,
            ));
        }
        at = at + 1;
    }
    proof {
        assert(attributes_of(pair_views(attrs@)).take(at as int) =~= attributes_of(
            pair_views(attrs@),
        ));
    }
    attributes
}

/// Walks over the node at index `node` and all that stands below it, and hands each line to
/// `doc`: those of the node itself for the place `parent`.
pub fn walk(
    config: &Config,
    indent: usize,
    dom: &Dom,
    node: usize,
    doc: &mut Doc,
    parent: &Parent,
)
    requires
        well_formed(dom@),
        node < dom@.len(),
        indent + 4 * (dom@.len() - node) <= usize::MAX,
    ensures
        final(doc)@ == walked(old(doc)@, subtree(dom@, node as int), *config, indent as nat, *parent),
    decreases dom@.len() - node, 1nat,
{
    let ghost start = doc@;
    let ghost tree = subtree(dom@, node as int);
    proof {
        assert(start.head + Seq::<Seq<char>>::empty() =~= start.head);
        assert(start.body + Seq::<Seq<char>>::empty() =~= start.body);
    }
    match dom.node(node).data() {
        NodeData::Document => {
            walk_children(config, indent + 4, dom, node, doc, parent);
        },
        NodeData::Doctype => {},
        NodeData::Text(contents) => {
            let text = trim(contents.as_str());
            if !text.is_empty() {
                let mut output = pad(indent);
                output.append("\"");
                output.append(escape_default(text).as_str());
                output.append("\"");
                doc.push(parent, output);
                proof {
                    lemma_pushed_is_extended(start, *parent, text_line(contents@, indent as nat));
                }
            }
        },
        NodeData::Comment(_) => {},
        NodeData::Element { name, attrs } => {
            let elem = Element::new(name.clone(), classify(attrs));
            let void = is_empty_element(name.as_str());
            let mut output = pad(indent);
            output.append(elem.to_maud(config).as_str());
            if void {
                output.append(";");
            } else {
                output.append(" {");
            }
            doc.push(parent, output);
            let ghost opening = open_line(name@, pair_views(attrs@), *config, indent as nat);
            proof {
                assert(output@ == opening);
                lemma_pushed_is_extended(start, *parent, opening);
            }
            let ghost opened = doc@;
            let is_head = str_eq(name.as_str(), "head");
            let is_body = str_eq(name.as_str(), "body");
            let new_parent = if is_head {
                Parent::Head
            } else if is_body {
                Parent::Body
            } else {
                *parent
            };
            let new_indent = if is_head || is_body {
                0
            } else {
                indent + 4
            };
            walk_children(config, new_indent, dom, node, doc, &new_parent);
            let ghost inner_head = emitted_all(
                tree.children,
                *config,
                new_indent as nat,
                new_parent,
                Parent::Head,
            );
            let ghost inner_body = emitted_all(
                tree.children,
                *config,
                new_indent as nat,
                new_parent,
                Parent::Body,
            );
            proof {
                lemma_extended_twice(
                    start,
                    line_for(*parent, Parent::Head, opening),
                    line_for(*parent, Parent::Body, opening),
                    inner_head,
                    inner_body,
                );
            }
            let ghost filled = doc@;
            if !void {
                let mut closing = pad(indent);
                closing.append("}");
                doc.push(parent, closing);
                proof {
                    lemma_pushed_is_extended(filled, *parent, close_line(indent as nat));
                    lemma_extended_twice(
                        start,
                        line_for(*parent, Parent::Head, opening) + inner_head,
                        line_for(*parent, Parent::Body, opening) + inner_body,
                        line_for(*parent, Parent::Head, close_line(indent as nat)),
                        line_for(*parent, Parent::Body, close_line(indent as nat)),
                    );
                }
            } else {
                proof {
                    let head = line_for(*parent, Parent::Head, opening) + inner_head;
                    let body = line_for(*parent, Parent::Body, opening) + inner_body;
                    assert(head + Seq::<Seq<char>>::empty() =~= head);
                    assert(body + Seq::<Seq<char>>::empty() =~= body);
                }
            }
        },
        NodeData::ProcessingInstruction => {},
    }
}

/// Walks over the children of the node at index `node`, one after the other, each at the
/// indentation `indent` and with its own lines for the place `parent`.
pub fn walk_children(
    config: &Config,
    indent: usize,
    dom: &Dom,
    node: usize,
    doc: &mut Doc,
    parent: &Parent,
)
    requires
        well_formed(dom@),
        node < dom@.len(),
        indent + 4 * (dom@.len() - node - 1) <= usize::MAX,
    ensures
        final(doc)@ == walked_all(
            old(doc)@,
            subtree(dom@, node as int).children,
            *config,
            indent as nat,
            *parent,
        ),
    decreases dom@.len() - node, 0nat,
{
    let ghost start = doc@;
    let ghost trees = subtree(dom@, node as int).children;
    let children = dom.node(node).children();
    let mut at: usize = 0;
    proof {
        assert(start.head + Seq::<Seq<char>>::empty() =~= start.head);
        assert(start.body + Seq::<Seq<char>>::empty() =~= start.body);
    }
    while at < children.len()
        invariant
            at <= children.len(),
            well_formed(dom@),
            node < dom@.len(),
            indent + 4 * (dom@.len() - node - 1) <= usize::MAX,
            children@ == dom@[node as int].children,
            trees == subtree(dom@, node as int).children,
            doc@ == walked_all(start, trees.take(at as int), *config, indent as nat, *parent),
        decreases children.len() - at,
    {
        let child = children[at];
        let ghost before = trees.take(at as int);
        proof {
            assert(trees.take(at + 1).drop_last() =~= before);
            assert(trees.take(at + 1).last() == subtree(dom@, child as int));
        }
        walk(config, indent, dom, child, doc, parent);
        proof {
            lemma_extended_twice(
                start,
                emitted_all(before, *config, indent as nat, *parent, Parent::Head),
                emitted_all(before, *config, indent as nat, *parent, Parent::Body),
                emitted(subtree(dom@, child as int), *config, indent as nat, *parent, Parent::Head),
                emitted(subtree(dom@, child as int), *config, indent as nat, *parent, Parent::Body),
            );
        }
        at = at + 1;
    }
    proof {
        assert(trees.take(at as int) =~= trees);
    }
}

} // verus!
