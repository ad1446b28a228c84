//! What one conversion is configured with.

use crate::text::str_eq;
use vstd::prelude::*;

verus! {

/// How much of a document the output holds.
#[derive(Clone, Copy, Debug, PartialEq, Eq, Structural)]
pub enum Render {
    /// A whole document if the input names `<html>`, `<head>` or `<body>`, else the body alone.
    Auto,
    /// A whole document: doctype, head block and body block.
    Full,
    /// The body alone.
    OnlyBody,
}

/// How the id of an element is written.
#[derive(Clone, Copy, Debug, PartialEq, Eq, Structural)]
pub enum IdStyle {
    /// As the attribute `id="…"`.
    Full,
    /// As `#…` behind the tag name.
    Short,
    /// As `#…`, and a `div` that has an id loses its tag name.
    ShortNoDiv,
}

/// How the classes of an element are written.
#[derive(Clone, Copy, Debug, PartialEq, Eq, Structural)]
pub enum ClassStyle {
    /// As the attribute `class="…"`.
    Full,
    /// As one `.…` for each class.
    Short,
    /// As one `.…` for each class, and a `div` that has a class loses its tag name.
    ShortNoDiv,
}

/// The three choices of a conversion; each is independent of the other two.
#[derive(Clone, Copy, Debug, PartialEq, Eq, Structural)]
pub struct Config {
    pub render: Render,
    pub id_style: IdStyle,
    pub class_style: ClassStyle,
}

/// The render mode of a name: `auto`, `full` or `onlyBody`.
pub open spec fn render_named(name: Seq<char>) -> Option<Render> {
    if name == "auto"@ {
        Some(Render::Auto)
    } else if name == "full"@ {
        Some(Render::Full)
    } else if name == "onlyBody"@ {
        Some(Render::OnlyBody)
    } else {
        None
    }
}

/// The id style of a name: `full`, `short` or `shortNoDiv`.
pub open spec fn id_style_named(name: Seq<char>) -> Option<IdStyle> {
    if name == "full"@ {
        Some(IdStyle::Full)
    } else if name == "short"@ {
        Some(IdStyle::Short)
    } else if name == "shortNoDiv"@ {
        Some(IdStyle::ShortNoDiv)
    } else {
        None
    }
}

/// The class style of a name: `full`, `short` or `shortNoDiv`.
pub open spec fn class_style_named(name: Seq<char>) -> Option<ClassStyle> {
    if name == "full"@ {
        Some(ClassStyle::Full)
    } else if name == "short"@ {
        Some(ClassStyle::Short)
    } else if name == "shortNoDiv"@ {
        Some(ClassStyle::ShortNoDiv)
    } else {
        None
    }
}

impl Render {
    /// The render mode that `name` names, if it names one.
    pub fn from_name(name: &str) -> (render: Option<Render>)
        ensures
            render == render_named(name@),
    {
        if str_eq(name, "auto") {
            Some(Render::Auto)
        } else if str_eq(name, "full") {
            Some(Render::Full)
        } else if str_eq(name, "onlyBody") {
            Some(Render::OnlyBody)
        } else {
            None
        }
    }
}

impl IdStyle {
    /// The id style that `name` names, if it names one.
    pub fn from_name(name: &str) -> (style: Option<IdStyle>)
        ensures
            style == id_style_named(name@),
    {
        if str_eq(name, "full") {
            Some(IdStyle::Full)
        } else if str_eq(name, "short") {
            Some(IdStyle::Short)
        } else if str_eq(name, "shortNoDiv") {
            Some(IdStyle::ShortNoDiv)
        } else {
            None
        }
    }

    /// The id style that `name` names; `IdStyle::Full` where it names none.
    pub fn from_name_or_default(name: &str) -> (style: IdStyle)
        ensures
            style == match id_style_named(name@) {
                Some(named) => named,
                None => IdStyle::Full,
            },
    {
        match IdStyle::from_name(name) {
            Some(named) => named,
            None => IdStyle::Full,
        }
    }
}

impl ClassStyle {
    /// The class style that `name` names, if it names one.
    pub fn from_name(name: &str) -> (style: Option<ClassStyle>)
        ensures
            style == class_style_named(name@),
    {
        if str_eq(name, "full") {
            Some(ClassStyle::Full)
        } else if str_eq(name, "short") {
            Some(ClassStyle::Short)
        } else if str_eq(name, "shortNoDiv") {
            Some(ClassStyle::ShortNoDiv)
        } else {
            None
        }
    }

    /// The class style that `name` names; `ClassStyle::Full` where it names none.
    pub fn from_name_or_default(name: &str) -> (style: ClassStyle)
        ensures
            style == match class_style_named(name@) {
                Some(named) => named,
                None => ClassStyle::Full,
            },
    {
        match ClassStyle::from_name(name) {
            Some(named) => named,
            None => ClassStyle::Full,
        }
    }
}

} // verus!
