//! From HTML text to the arena: the parser is html5ever with the reference-counted tree of
//! markup5ever_rcdom; what it hands back is read node by node and written into a [`Dom`].

use crate::dom::{
    any_has_instruction, has_instruction, subtree, well_formed, Dom, NodeData, RecordView, Tree,
};
use html5ever::tendril::TendrilSink;
use std::rc::Rc;
use vstd::prelude::*;

verus! {

/// `markup5ever_rcdom::Node`, a node of the parser's tree: nothing is known of what is inside
/// but what [`node_tree`] names.
#[verifier::external_type_specification]
#[verifier::external_body]
pub struct ExNode(markup5ever_rcdom::Node);

/// `std::io::Error`, what the parser fails with: nothing is known of what is inside but what
/// [`diagnostic`] names.
#[verifier::external_type_specification]
#[verifier::external_body]
pub struct ExIoError(std::io::Error);

/// What a node of the parser's tree holds: the node and all that is reached from it through
/// child lists, as a tree of plain values; `None` where that is no finite tree.
pub uninterp spec fn node_tree(node: &markup5ever_rcdom::Node) -> Option<Tree>;

/// What the parser makes of a text: the document as a tree, or the diagnostic that reading
/// the text failed with.
pub uninterp spec fn parsed(html: Seq<char>) -> Result<Tree, Seq<char>>;

/// What an error says of itself: the text that its `Display` writes.
pub uninterp spec fn diagnostic(error: &std::io::Error) -> Seq<char>;

/// The longest text that is handed to the parser, in bytes: a third of 2^31. The parser keeps
/// each text, comment and attribute value in one buffer of at most 2^31 bytes, and no byte of
/// a text takes more than three bytes there.
pub const MAX_TEXT_BYTES: usize = 715_827_882;

/// The number of bytes of a text.
pub open spec fn text_bytes(html: Seq<char>) -> nat {
    vstd::utf8::encode_utf8(html).len()
}

/// Whether a text is short enough for the parser.
pub open spec fn text_fits(html: Seq<char>) -> bool {
    text_bytes(html) <= MAX_TEXT_BYTES
}

/// `html5ever::parse_document` into a fresh `RcDom`, fed with the bytes of `html` through
/// `from_utf8` and `read_from`; of what comes back the document node is handed on.
///
/// The tree depends on the text alone, and it is a finite tree: the tree builder only ever
/// appends a node to one parent or moves it from one parent to another. Longer texts are left
/// out because a buffer of the parser that outgrows 2^31 bytes makes it panic.
#[verifier::external_body]
fn parse_document(html: &str) -> (result: Result<Rc<markup5ever_rcdom::Node>, std::io::Error>)
    requires
        text_fits(html@),
    ensures
        match result {
            Ok(document) => node_tree(&*document) is Some && parsed(html@) == Ok::<
                Tree,
                Seq<char>,
            >(node_tree(&*document)->0),
            Err(error) => parsed(html@) == Err::<Tree, Seq<char>>(diagnostic(&error)),
        },
{
    html5ever::parse_document(markup5ever_rcdom::RcDom::default(), Default::default())
        .from_utf8()
        .read_from(&mut html.as_bytes())
        .map(|dom| dom.document)
}

/// `<std::io::Error as ToString>::to_string`: the text that the error's `Display` writes.
#[verifier::external_body]
fn read_diagnostic(error: &std::io::Error) -> (text: String)
    ensures
        text@ == diagnostic(error),
{
    error.to_string()
}

/// The field `data` of a node of the parser's tree, its strings copied: the kind of the node,
/// the contents of a text or a comment, the local name of an element and the local names and
/// values of its attributes in their order.
#[verifier::external_body]
fn node_data(handle: &Rc<markup5ever_rcdom::Node>) -> (data: NodeData)
    requires
        node_tree(&**handle) is Some,
    ensures
        data@ == node_tree(&**handle)->0.content,
{
    match &handle.data {
        markup5ever_rcdom::NodeData::Document => NodeData::Document,
        markup5ever_rcdom::NodeData::Doctype { .. } => NodeData::Doctype,
        markup5ever_rcdom::NodeData::Text { contents } => NodeData::Text(contents.borrow().to_string()),
        markup5ever_rcdom::NodeData::Comment { contents } => NodeData::Comment(contents.to_string()),
        markup5ever_rcdom::NodeData::Element { name, attrs, .. } => NodeData::Element {
            name: name.local.to_string(),
            attrs: attrs.borrow().iter().map(|a| (a.name.local.to_string(), a.value.to_string())).collect(),
        },
        markup5ever_rcdom::NodeData::ProcessingInstruction { .. } => NodeData::ProcessingInstruction,
    }
}

/// The field `children` of a node of the parser's tree: the handles of its children, in
/// document order.
#[verifier::external_body]
fn node_children(handle: &Rc<markup5ever_rcdom::Node>) -> (children: Vec<
    Rc<markup5ever_rcdom::Node>,
>)
    requires
        node_tree(&**handle) is Some,
    ensures
        children@.len() == node_tree(&**handle)->0.children.len(),
        forall|i: int|
            0 <= i < children@.len() ==> node_tree(&*#[trigger] children@[i]) == Some(
                node_tree(&**handle)->0.children[i],
            ),
{
    handle.children.borrow().clone()
}

/// Why a text was not converted.
#[derive(Debug)]
pub enum ParseError {
    /// The parser could not read the text; the message is its diagnostic.
    Read(String),
    /// The root of what the parser handed back is no document.
    NotADocument,
    /// The parser handed back a processing instruction, which HTML does not have.
    ProcessingInstruction,
    /// The text is longer than the parser takes, or the markup has more nodes than an arena
    /// can hold.
    TooLarge,
}

/// A [`ParseError`] as plain text.
pub enum ParseErrorView {
    Read(Seq<char>),
    NotADocument,
    ProcessingInstruction,
    TooLarge,
}

impl View for ParseError {
    type V = ParseErrorView;

    open spec fn view(&self) -> ParseErrorView {
        match self {
            ParseError::Read(diagnostic) => ParseErrorView::Read(diagnostic@),
            ParseError::NotADocument => ParseErrorView::NotADocument,
            ParseError::ProcessingInstruction => ParseErrorView::ProcessingInstruction,
            ParseError::TooLarge => ParseErrorView::TooLarge,
        }
    }
}

/// An error in words.
pub open spec fn error_text(error: ParseErrorView) -> Seq<char> {
    match error {
        ParseErrorView::Read(diagnostic) => "could not read the markup: "@ + diagnostic,
        ParseErrorView::NotADocument => "the root of the markup is no document"@,
        ParseErrorView::ProcessingInstruction => "the markup holds a processing instruction"@,
        ParseErrorView::TooLarge => "the markup is too large"@,
    }
}

impl ParseError {
    /// The error in words.
    pub fn message(&self) -> (text: String)
        ensures
            text@ == error_text(self@),
    {
        match self {
            ParseError::Read(diagnostic) => {
                let mut text = String::from_str("could not read the markup: ");
                text.append(diagnostic.as_str());
                text
            },
            ParseError::NotADocument => String::from_str("the root of the markup is no document"),
            ParseError::ProcessingInstruction => String::from_str(
                "the markup holds a processing instruction",
            ),
            ParseError::TooLarge => String::from_str("the markup is too large"),
        }
    }
}

/// The number of nodes of `tree`.
pub open spec fn tree_size(tree: Tree) -> nat
    decreases tree,
{
    1 + forest_size(tree.children)
}

/// The number of nodes of `trees`.
pub open spec fn forest_size(trees: Seq<Tree>) -> nat
    decreases trees,
{
    if trees.len() == 0 {
        0
    } else {
        forest_size(trees.drop_last()) + tree_size(trees.last())
    }
}

/// Whether an arena can hold `tree`: its root is a document, no processing instruction stands
/// in it, and four times the number of its nodes fits in `usize`.
pub open spec fn fits_arena(tree: Tree) -> bool {
    &&& tree.content is Document
    &&& !has_instruction(tree)
    &&& 4 * tree_size(tree) <= usize::MAX
}

/// Why a text is not turned into an arena, if it is not: the text is too long; or reading it
/// failed; or what the parser made of it has no document at its root; or a processing
/// instruction stands in it; or it has more nodes than an arena can hold. Where several
/// hold, the first in this order is the reason.
pub open spec fn failure(html: Seq<char>) -> Option<ParseErrorView> {
    if !text_fits(html) {
        Some(ParseErrorView::TooLarge)
    } else {
        match parsed(html) {
            Err(text) => Some(ParseErrorView::Read(text)),
            Ok(tree) => if !(tree.content is Document) {
                Some(ParseErrorView::NotADocument)
            } else if has_instruction(tree) {
                Some(ParseErrorView::ProcessingInstruction)
            } else if 4 * tree_size(tree) > usize::MAX {
                Some(ParseErrorView::TooLarge)
            } else {
                None
            },
        }
    }
}

/// Whether `now` still holds what `before` held below the index `parent` and behind it, and
/// what the node at `parent` is.
pub open spec fn kept(before: Seq<RecordView>, now: Seq<RecordView>, parent: int) -> bool {
    &&& before.len() <= now.len()
    &&& now[parent].content == before[parent].content
    &&& forall|i: int| 0 <= i < before.len() && i != parent ==> #[trigger] now[i] == before[i]
}

/// The tree below a node is the same in two arenas that hold the same records from `from` on,
/// as far as the first arena goes.
proof fn lemma_subtree_kept(a: Seq<RecordView>, b: Seq<RecordView>, from: int, at: int)
    requires
        0 <= from <= at < a.len() <= b.len(),
        forall|i: int| from <= i < a.len() ==> #[trigger] a[i] == b[i],
        forall|i: int, k: int|
            0 <= i < a.len() && 0 <= k < a[i].children.len() ==> i
                < #[trigger] a[i].children[k] < a.len(),
    ensures
        subtree(a, at) == subtree(b, at),
    decreases a.len() - at,
{
    assert(a[at] == b[at]);
    assert forall|k: int| 0 <= k < a[at].children.len() implies subtree(a, at).children[k]
        == subtree(b, at).children[k] by {
        let child = a[at].children[k] as int;
        assert(at < child < a.len());
        lemma_subtree_kept(a, b, from, child);
    }
    assert(subtree(a, at).children =~= subtree(b, at).children);
}

/// The first trees of a forest have no more nodes than the forest.
proof fn lemma_forest_size_take(trees: Seq<Tree>, count: int)
    requires
        0 <= count <= trees.len(),
    ensures
        forest_size(trees.take(count)) <= forest_size(trees),
    decreases trees.len(),
{
    if count == trees.len() {
        assert(trees.take(count) =~= trees);
    } else {
        assert(trees.drop_last().take(count) =~= trees.take(count));
        lemma_forest_size_take(trees.drop_last(), count);
    }
}

/// A processing instruction in one tree of a forest is one in the forest.
proof fn lemma_instruction_in_forest(trees: Seq<Tree>, at: int)
    requires
        0 <= at < trees.len(),
        has_instruction(trees[at]),
    ensures
        any_has_instruction(trees),
    decreases trees.len(),
{
    if at < trees.len() - 1 {
        lemma_instruction_in_forest(trees.drop_last(), at);
    }
}

/// Whether a processing instruction stands in the node behind `handle` or below it.
fn holds_instruction(handle: &Rc<markup5ever_rcdom::Node>) -> (found: bool)
    requires
        node_tree(&**handle) is Some,
    ensures
        found == has_instruction(node_tree(&**handle)->0),
    decreases node_tree(&**handle)->0,
{
    match node_data(handle) {
        NodeData::ProcessingInstruction => {
            return true;
        },
        _ => {},
    }
    let ghost trees = node_tree(&**handle)->0.children;
    let children = node_children(handle);
    let mut at: usize = 0;
    while at < children.len()
        invariant
            at <= children.len(),
            node_tree(&**handle) is Some,
            trees == node_tree(&**handle)->0.children,
            children@.len() == trees.len(),
            forall|i: int|
                0 <= i < children@.len() ==> node_tree(&*#[trigger] children@[i]) == Some(trees[i]),
            !any_has_instruction(trees.take(at as int)),
        decreases children.len() - at,
    {
        proof {
            assert(trees.take(at + 1).drop_last() =~= trees.take(at as int));
            assert(trees.take(at + 1).last() == trees[at as int]);
        }
        if holds_instruction(&children[at]) {
            proof {
                lemma_instruction_in_forest(trees, at as int);
            }
            return true;
        }
        at = at + 1;
    }
    proof {
        assert(trees.take(at as int) =~= trees);
    }
    false
}

/// Writes the node behind `handle`, with all that stands below it, into `dom` as the last
/// child of the node at index `parent`.
fn import_node(handle: &Rc<markup5ever_rcdom::Node>, dom: &mut Dom, parent: usize) -> (result:
    Result<(), ParseError>)
    requires
        well_formed(old(dom)@),
        parent < old(dom)@.len(),
        node_tree(&**handle) is Some,
    ensures
        well_formed(final(dom)@),
        kept(old(dom)@, final(dom)@, parent as int),
        match result {
            Ok(_) => {
                &&& !has_instruction(node_tree(&**handle)->0)
                &&& final(dom)@.len() == old(dom)@.len() + tree_size(node_tree(&**handle)->0)
                &&& final(dom)@[parent as int].children == old(dom)@[parent as int].children.push(
                    old(dom)@.len() as usize,
                )
                &&& subtree(final(dom)@, old(dom)@.len() as int) == node_tree(&**handle)->0
            },
            Err(ParseError::ProcessingInstruction) => has_instruction(node_tree(&**handle)->0),
            Err(ParseError::TooLarge) => 4 * (old(dom)@.len() + tree_size(node_tree(&**handle)->0))
                > usize::MAX,
            Err(_) => false,
        },
    decreases node_tree(&**handle)->0, 1nat,
{
    let ghost tree = node_tree(&**handle)->0;
    let data = node_data(handle);
    match data {
        NodeData::ProcessingInstruction => {
            return Err(ParseError::ProcessingInstruction);
        },
        _ => {},
    }
    let added = dom.append(parent, data);
    match added {
        None => Err(ParseError::TooLarge),
        Some(index) => {
            let ghost after = dom@;
            let result = import_children(handle, dom, index);
            proof {
                assert(dom@[parent as int] == after[parent as int]);
                match result {
                    Ok(_) => {
                        assert(subtree(dom@, index as int).children =~= tree.children);
                    },
                    Err(_) => {},
                }
            }
            result
        },
    }
}

/// Writes the children of the node behind `handle`, each with all that stands below it, into
/// `dom` as the children of its last node, which has none yet.
fn import_children(handle: &Rc<markup5ever_rcdom::Node>, dom: &mut Dom, node: usize) -> (result:
    Result<(), ParseError>)
    requires
        well_formed(old(dom)@),
        node + 1 == old(dom)@.len(),
        old(dom)@[node as int].children.len() == 0,
        node_tree(&**handle) is Some,
    ensures
        well_formed(final(dom)@),
        kept(old(dom)@, final(dom)@, node as int),
        match result {
            Ok(_) => {
                &&& !any_has_instruction(node_tree(&**handle)->0.children)
                &&& final(dom)@.len() == old(dom)@.len() + forest_size(
                    node_tree(&**handle)->0.children,
                )
                &&& subtree(final(dom)@, node as int).children == node_tree(&**handle)->0.children
            },
            Err(ParseError::ProcessingInstruction) => any_has_instruction(
                node_tree(&**handle)->0.children,
            ),
            Err(ParseError::TooLarge) => 4 * (old(dom)@.len() + forest_size(
                node_tree(&**handle)->0.children,
            )) > usize::MAX,
            Err(_) => false,
        },
    decreases node_tree(&**handle)->0, 0nat,
{
    let ghost before = dom@;
    let ghost trees = node_tree(&**handle)->0.children;
    let children = node_children(handle);
    let mut at: usize = 0;
    while at < children.len()
        invariant
            at <= children.len(),
            node_tree(&**handle) is Some,
            trees == node_tree(&**handle)->0.children,
            children@.len() == trees.len(),
            forall|i: int|
                0 <= i < children@.len() ==> node_tree(&*#[trigger] children@[i]) == Some(trees[i]),
            well_formed(dom@),
            before == old(dom)@,
            node + 1 == before.len(),
            kept(before, dom@, node as int),
            dom@[node as int].children.len() == at,
            forall|i: int|
                0 <= i < at ==> subtree(dom@, #[trigger] dom@[node as int].children[i] as int)
                    == trees[i],
            dom@.len() == before.len() + forest_size(trees.take(at as int)),
            !any_has_instruction(trees.take(at as int)),
        decreases children.len() - at,
    {
        let ghost earlier = dom@;
        proof {
            assert(trees.take(at + 1).drop_last() =~= trees.take(at as int));
            assert(trees.take(at + 1).last() == trees[at as int]);
            lemma_forest_size_take(trees, at + 1);
        }
        match import_node(&children[at], dom, node) {
            Err(ParseError::ProcessingInstruction) => {
                proof {
                    lemma_instruction_in_forest(trees, at as int);
                }
                return Err(ParseError::ProcessingInstruction);
            },
            Err(_) => {
                return Err(ParseError::TooLarge);
            },
            Ok(_) => {},
        }
        proof {
            assert forall|i: int| 0 <= i < at + 1 implies subtree(
                dom@,
                #[trigger] dom@[node as int].children[i] as int,
            ) == trees[i] by {
                if i < at {
                    let child = earlier[node as int].children[i] as int;
                    assert(dom@[node as int].children[i] == child);
                    lemma_subtree_kept(earlier, dom@, node + 1, child);
                }
            }
        }
        at = at + 1;
    }
    proof {
        assert(trees.take(at as int) =~= trees);
        assert(subtree(dom@, node as int).children =~= trees);
    }
    Ok(())
}

/// Writes the document behind `document` into a new arena.
fn import(document: &Rc<markup5ever_rcdom::Node>) -> (result: Result<Dom, ParseError>)
    requires
        node_tree(&**document) is Some,
    ensures
        match result {
            Ok(dom) => {
                &&& fits_arena(node_tree(&**document)->0)
                &&& well_formed(dom@)
                &&& dom.tree() == node_tree(&**document)->0
            },
            Err(ParseError::NotADocument) => !(node_tree(&**document)->0.content is Document),
            Err(ParseError::ProcessingInstruction) => {
                &&& node_tree(&**document)->0.content is Document
                &&& has_instruction(node_tree(&**document)->0)
            },
            Err(ParseError::TooLarge) => {
                &&& node_tree(&**document)->0.content is Document
                &&& !has_instruction(node_tree(&**document)->0)
                &&& 4 * tree_size(node_tree(&**document)->0) > usize::MAX
            },
            Err(ParseError::Read(_)) => false,
        },
{
    match node_data(document) {
        NodeData::Document => {
            if holds_instruction(document) {
                return Err(ParseError::ProcessingInstruction);
            }
            let mut dom = Dom::new();
            match import_children(document, &mut dom, 0) {
                Ok(_) => Ok(dom),
                Err(_) => Err(ParseError::TooLarge),
            }
        },
        _ => Err(ParseError::NotADocument),
    }
}

/// Parses `html` and writes what the parser hands back into an arena.
///
/// This succeeds on every text that is short enough for the parser, that the parser reads,
/// and of which it makes a document that an arena can hold; the error says what failed, and
/// `ParseError::Read` carries the diagnostic of the parser.
pub fn parse(html: &str) -> (result: Result<Dom, ParseError>)
    ensures
        match result {
            Ok(dom) => {
                &&& failure(html@) is None
                &&& parsed(html@) is Ok
                &&& well_formed(dom@)
                &&& dom.tree() == parsed(html@)->Ok_0
            },
            Err(error) => failure(html@) == Some(error@),
        },
{
    if html.as_bytes().len() > MAX_TEXT_BYTES {
        return Err(ParseError::TooLarge);
    }
    match parse_document(html) {
        Ok(document) => import(&document),
        Err(error) => Err(ParseError::Read(read_diagnostic(&error))),
    }
}

} // verus!
