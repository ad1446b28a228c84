//! The parsed markup: an arena of node records, each addressed by its index and holding the
//! indices of its children in document order.

use crate::element::pair_views;
use vstd::prelude::*;

verus! {

/// What one node of the markup is.
#[derive(Debug)]
pub enum NodeData {
    /// The document itself, the root of the markup.
    Document,
    /// A document type declaration.
    Doctype,
    /// A run of text.
    Text(String),
    /// A comment.
    Comment(String),
    /// An element: its tag name and its attributes, names and values in the order of the markup.
    Element { name: String, attrs: Vec<(String, String)> },
    /// A processing instruction. HTML has none, and no [`Dom`] holds one.
    ProcessingInstruction,
}

/// A [`NodeData`] as plain text.
pub enum Content {
    Document,
    Doctype,
    Text(Seq<char>),
    Comment(Seq<char>),
    Element { name: Seq<char>, attrs: Seq<(Seq<char>, Seq<char>)> },
    ProcessingInstruction,
}

impl View for NodeData {
    type V = Content;

    open spec fn view(&self) -> Content {
        match self {
            NodeData::Document => Content::Document,
            NodeData::Doctype => Content::Doctype,
            NodeData::Text(contents) => Content::Text(contents@),
            NodeData::Comment(contents) => Content::Comment(contents@),
            NodeData::Element { name, attrs } => Content::Element {
                name: name@,
                attrs: pair_views(attrs@),
            },
            NodeData::ProcessingInstruction => Content::ProcessingInstruction,
        }
    }
}

/// A node with all that stands below it: the markup as a mathematical tree.
pub struct Tree {
    pub content: Content,
    pub children: Seq<Tree>,
}

/// The tree of one node without children.
pub open spec fn leaf(content: Content) -> Tree {
    Tree { content, children: Seq::empty() }
}

/// Whether a processing instruction stands anywhere in `tree`.
pub open spec fn has_instruction(tree: Tree) -> bool
    decreases tree,
{
    tree.content is ProcessingInstruction || any_has_instruction(tree.children)
}

/// Whether a processing instruction stands anywhere in one of `trees`.
pub open spec fn any_has_instruction(trees: Seq<Tree>) -> bool
    decreases trees,
{
    if trees.len() == 0 {
        false
    } else {
        any_has_instruction(trees.drop_last()) || has_instruction(trees.last())
    }
}

/// One record of the arena as plain values.
pub struct RecordView {
    pub content: Content,
    pub children: Seq<usize>,
}

/// One record of the arena: what the node is, and where its children stand.
#[derive(Debug)]
pub struct Record {
    data: NodeData,
    children: Vec<usize>,
}

impl View for Record {
    type V = RecordView;

    closed spec fn view(&self) -> RecordView {
        RecordView { content: self.data@, children: self.children@ }
    }
}

impl Record {
    /// What the node is.
    pub fn data(&self) -> (data: &NodeData)
        ensures
            data@ == self@.content,
    {
        &self.data
    }

    /// The indices of the children, in document order.
    pub fn children(&self) -> (children: &Vec<usize>)
        ensures
            children@ == self@.children,
    {
        &self.children
    }
}

/// What holds of every [`Dom`]: the root is a document and stands at index 0; no node is a
/// processing instruction; every child stands behind its parent, so that no node is reached
/// twice on one path; and four times the number of nodes fits in `usize`, which bounds every
/// indentation.
pub open spec fn well_formed(nodes: Seq<RecordView>) -> bool {
    &&& 0 < nodes.len()
    &&& 4 * nodes.len() <= usize::MAX
    &&& nodes[0].content is Document
    &&& forall|i: int|
        0 <= i < nodes.len() ==> (#[trigger] nodes[i]).content !is ProcessingInstruction
    &&& forall|i: int, k: int|
        0 <= i < nodes.len() && 0 <= k < nodes[i].children.len() ==> i
            < #[trigger] nodes[i].children[k] < nodes.len()
}

/// The tree below the node at index `at`.
pub open spec fn subtree(nodes: Seq<RecordView>, at: int) -> Tree
    decreases nodes.len() - at,
{
    if 0 <= at < nodes.len() {
        Tree {
            content: nodes[at].content,
            children: Seq::new(
                nodes[at].children.len(),
                |k: int|
                    {
                        let child = nodes[at].children[k] as int;
                        if at < child < nodes.len() {
                            subtree(nodes, child)
                        } else {
                            leaf(Content::Document)
                        }
                    },
            ),
        }
    } else {
        leaf(Content::Document)
    }
}

/// Whether a node of this content can be put below the node at index `parent`.
pub open spec fn accepts(nodes: Seq<RecordView>, parent: int, content: Content) -> bool {
    &&& 0 <= parent < nodes.len()
    &&& content !is ProcessingInstruction
    &&& 4 * (nodes.len() + 1) <= usize::MAX
}

/// The arena after a node of this content was put below the node at index `parent`, as its
/// last child: the new node stands at the end.
pub open spec fn appended(nodes: Seq<RecordView>, parent: int, content: Content) -> Seq<RecordView> {
    nodes.update(
        parent,
        RecordView {
            content: nodes[parent].content,
            children: nodes[parent].children.push(nodes.len() as usize),
        },
    ).push(RecordView { content, children: Seq::empty() })
}

/// The markup as an arena of nodes. The document is the node at index 0.
#[derive(Debug)]
pub struct Dom {
    nodes: Vec<Record>,
}

impl View for Dom {
    type V = Seq<RecordView>;

    closed spec fn view(&self) -> Seq<RecordView> {
        Seq::new(self.nodes@.len(), |i: int| self.nodes@[i]@)
    }
}

impl Dom {
    /// The whole markup as a tree.
    pub open spec fn tree(&self) -> Tree {
        subtree(self@, 0)
    }

    /// An empty document.
    pub fn new() -> (dom: Dom)
        ensures
            dom@ == seq![RecordView { content: Content::Document, children: Seq::empty() }],
            well_formed(dom@),
    {
        let mut nodes = Vec::new();
        nodes.push(Record { data: NodeData::Document, children: Vec::new() });
        let dom = Dom { nodes };
        proof {
            assert(dom@ =~= seq![RecordView { content: Content::Document, children: Seq::empty() }]);
        }
        dom
    }

    /// The number of nodes.
    pub fn len(&self) -> (len: usize)
        ensures
            len == self@.len(),
    {
        self.nodes.len()
    }

    /// The node at `index`.
    pub fn node(&self, index: usize) -> (record: &Record)
        requires
            index < self@.len(),
        ensures
            record@ == self@[index as int],
    {
        &self.nodes[index]
    }

    /// Puts a node below the node at index `parent`, behind the children that are there, and
    /// returns its index. Nothing is added, and `None` returned, where `parent` is no index of
    /// the arena, where `data` is a processing instruction, or where the arena is full.
    pub fn append(&mut self, parent: usize, data: NodeData) -> (added: Option<usize>)
        requires
            well_formed(old(self)@),
        ensures
            well_formed(final(self)@),
            accepts(old(self)@, parent as int, data@) ==> added == Some(old(self)@.len() as usize)
                && final(self)@ == appended(old(self)@, parent as int, data@),
            !accepts(old(self)@, parent as int, data@) ==> added is None && final(self)@ == old(
                self,
            )@,
    {
        let index = self.nodes.len();
        if parent >= index || index >= usize::MAX / 4 {
            return None;
        }
        match data {
            NodeData::ProcessingInstruction => {
                return None;
            },
            _ => {},
        }
        let ghost before = self@;
        self.nodes[parent].children.push(index);
        self.nodes.push(Record { data, children: Vec::new() });
        proof {
            assert(self@ =~= appended(before, parent as int, data@));
        }
        Some(index)
    }
}

} // verus!
