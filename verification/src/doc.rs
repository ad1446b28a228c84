//! The lines that a conversion collects, and the text that is made of them.

use crate::config::{Config, Render};
use crate::text::{contains, indented, join, joined, occurs_in, pad, padding, texts};
use vstd::prelude::*;

verus! {

/// Where the output of a node goes: into the head block, into the body block, or nowhere.
#[derive(Clone, Copy, Debug, PartialEq, Eq, Structural)]
pub enum Parent {
    Head,
    Body,
    Other,
}

/// A [`Doc`] as plain text.
pub struct DocView {
    pub input: Seq<char>,
    pub head: Seq<Seq<char>>,
    pub body: Seq<Seq<char>>,
}

/// The document after `line` was handed to it for the place `parent`: added behind the lines
/// of the head or of the body, or dropped.
pub open spec fn pushed(doc: DocView, parent: Parent, line: Seq<char>) -> DocView {
    match parent {
        Parent::Head => DocView { head: doc.head.push(line), ..doc },
        Parent::Body => DocView { body: doc.body.push(line), ..doc },
        Parent::Other => doc,
    }
}

/// The body alone: the opening marker, the body lines behind four spaces, the closing marker.
pub open spec fn body_text(body: Seq<Seq<char>>) -> Seq<char> {
    joined(seq!["html! {"@, joined(indented(body, 4), "\n"@), "}"@], "\n"@)
}

/// A whole document: the opening marker, the doctype, the head block and the body block with
/// their lines behind eight spaces, the closing marker.
pub open spec fn full_text(head: Seq<Seq<char>>, body: Seq<Seq<char>>) -> Seq<char> {
    joined(
        seq![
            "html! {"@,
            "    (maud::DOCTYPE)"@,
            "    head {"@,
            joined(indented(head, 8), "\n"@),
            "    }"@,
            "    body {"@,
            joined(indented(body, 8), "\n"@),
            "    }"@,
            "}"@,
        ],
        "\n"@,
    )
}

/// Whether the input text names a whole document: `<html>`, `<head>` or `<body>` stands in it,
/// letter for letter. A tag with attributes is not seen, and one inside a text is.
pub open spec fn names_document(input: Seq<char>) -> bool {
    ||| occurs_in(input, "<html>"@)
    ||| occurs_in(input, "<head>"@)
    ||| occurs_in(input, "<body>"@)
}

/// The text of a document in a render mode.
pub open spec fn rendered(doc: DocView, render: Render) -> Seq<char> {
    match render {
        Render::Auto => if names_document(doc.input) {
            full_text(doc.head, doc.body)
        } else {
            body_text(doc.body)
        },
        Render::Full => full_text(doc.head, doc.body),
        Render::OnlyBody => body_text(doc.body),
    }
}

/// What one conversion collects: the input text, and the lines of the head and of the body in
/// document order.
pub struct Doc {
    input: String,
    head: Vec<String>,
    body: Vec<String>,
}

impl View for Doc {
    type V = DocView;

    closed spec fn view(&self) -> DocView {
        DocView { input: self.input@, head: texts(self.head@), body: texts(self.body@) }
    }
}

impl Doc {
    /// A document without lines for the input text `input`.
    pub fn new(input: &str) -> (doc: Doc)
        ensures
            doc@ == (DocView { input: input@, head: Seq::empty(), body: Seq::empty() }),
    {
        let doc = Doc { input: String::from_str(input), head: Vec::new(), body: Vec::new() };
        proof {
            assert(texts(doc.head@) =~= Seq::<Seq<char>>::empty());
            assert(texts(doc.body@) =~= Seq::<Seq<char>>::empty());
        }
        doc
    }

    /// The lines of the head, in document order.
    pub fn head(&self) -> (lines: &Vec<String>)
        ensures
            texts(lines@) == self@.head,
    {
        &self.head
    }

    /// The lines of the body, in document order.
    pub fn body(&self) -> (lines: &Vec<String>)
        ensures
            texts(lines@) == self@.body,
    {
        &self.body
    }

    /// The text of the document in the render mode of `config`.
    pub fn render(&self, config: &Config) -> (text: String)
        ensures
            text@ == rendered(self@, config.render),
    {
        match config.render {
            Render::Auto => {
                let render_only_body = !(contains(self.input.as_str(), "<html>") || contains(
                    self.input.as_str(),
                    "<head>",
                ) || contains(self.input.as_str(), "<body>"));
                if render_only_body {
                    self.render_body()
                } else {
                    self.render_full()
                }
            },
            Render::Full => self.render_full(),
            Render::OnlyBody => self.render_body(),
        }
    }

    /// The text of a whole document.
    pub fn render_full(&self) -> (text: String)
        ensures
            text@ == full_text(self@.head, self@.body),
    {
        let head_str = join(self.indent_vec(self.head.as_slice(), 8).as_slice(), "\n");
        let body_str = join(self.indent_vec(self.body.as_slice(), 8).as_slice(), "\n");
        let mut parts: Vec<String> = Vec::new();
        parts.push(String::from_str("html! {"));
        parts.push(String::from_str("    (maud::DOCTYPE)"));
        parts.push(String::from_str("    head {"));
        parts.push(head_str);
        parts.push(String::from_str("    }"));
        parts.push(String::from_str("    body {"));
        parts.push(body_str);
        parts.push(String::from_str("    }"));
        parts.push(String::from_str("}"));
        proof {
            assert(texts(parts@) =~= seq![
                "html! {"@,
                "    (maud::DOCTYPE)"@,
                "    head {"@,
                joined(indented(self@.head, 8), "\n"@),
                "    }"@,
                "    body {"@,
                joined(indented(self@.body, 8), "\n"@),
                "    }"@,
                "}"@,
            ]);
        }
        join(parts.as_slice(), "\n")
    }

    /// The text of the body alone.
    pub fn render_body(&self) -> (text: String)
        ensures
            text@ == body_text(self@.body),
    {
        let body_str = join(self.indent_vec(self.body.as_slice(), 4).as_slice(), "\n");
        let mut parts: Vec<String> = Vec::new();
        parts.push(String::from_str("html! {"));
        parts.push(body_str);
        parts.push(String::from_str("}"));
        proof {
            assert(texts(parts@) =~= seq![
                "html! {"@,
                joined(indented(self@.body, 4), "\n"@),
                "}"@,
            ]);
        }
        join(parts.as_slice(), "\n")
    }

    /// Hands `content` to the document for the place `parent`.
    pub fn push(&mut self, parent: &Parent, content: String)
        ensures
            final(self)@ == pushed(old(self)@, *parent, content@),
    {
        let ghost head = self.head@;
        let ghost body = self.body@;
        match parent {
            Parent::Head => {
                self.head.push(content);
                proof {
                    assert(texts(self.head@) =~= texts(head).push(content@));
                }
            },
            Parent::Body => {
                self.body.push(content);
                proof {
                    assert(texts(self.body@) =~= texts(body).push(content@));
                }
            },
            Parent::Other => (),
        }
    }

    /// Each line of `v` behind `indent` spaces.
    pub fn indent_vec(&self, v: &[String], indent: usize) -> (lines: Vec<String>)
        ensures
            texts(lines@) == indented(texts(v@), indent as nat),
    {
        let mut lines: Vec<String> = Vec::new();
        let mut at: usize = 0;
        while at < v.len()
            invariant
                at <= v.len(),
                texts(lines@) == indented(texts(v@), indent as nat).take(at as int),
            decreases v.len() - at,
        {
            let ghost before = lines@;
            let mut line = pad(indent);
            line.append(v[at].as_str());
            lines.push(line);
            proof {
                assert(line@ == padding(indent as nat) + v@[at as int]@);
                assert(texts(lines@) =~= texts(before).push(line@));
                assert(texts(lines@) =~= indented(texts(v@), indent as nat).take(at + 1));
            }
            at = at + 1;
        }
        proof {
            assert(indented(texts(v@), indent as nat).take(at as int) =~= indented(
                texts(v@),
                indent as nat,
            ));
        }
        lines
    }
}

} // verus!
