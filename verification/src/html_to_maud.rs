//! The conversion from HTML text to the text of Maud's `html!` notation.

pub use crate::config::{ClassStyle, Config, IdStyle, Render};
use crate::doc::{rendered, Doc, DocView, Parent};
use crate::dom::{well_formed, Dom, Tree};
pub use crate::parse::ParseError;
use crate::parse::{failure, parse, parsed};
use crate::walk::{walk, walked};
use vstd::prelude::*;

verus! {

/// The text that the markup `tree` is converted to, `html` being the text it was parsed from:
/// the lines that the walk over the tree collects, rendered as `config` says.
pub open spec fn conversion(tree: Tree, html: Seq<char>, config: Config) -> Seq<char> {
    rendered(
        walked(
            DocView { input: html, head: Seq::empty(), body: Seq::empty() },
            tree,
            config,
            0,
            Parent::Other,
        ),
        config.render,
    )
}

/// What a text is converted to: the conversion of what the parser makes of it, or `None`
/// where the text is not turned into an arena.
pub open spec fn converted(html: Seq<char>, config: Config) -> Option<Seq<char>> {
    match failure(html) {
        None => Some(conversion(parsed(html)->Ok_0, html, config)),
        Some(_) => None,
    }
}

/// Converts markup that is parsed already. `html` is the text it was parsed from, which
/// `Render::Auto` looks at.
pub fn convert(dom: &Dom, html: &str, config: &Config) -> (text: String)
    requires
        well_formed(dom@),
    ensures
        text@ == conversion(dom.tree(), html@, *config),
{
    let mut doc = Doc::new(html);
    walk(config, 0, dom, 0, &mut doc, &Parent::Other);
    doc.render(config)
}

/// Converts HTML text. The text is parsed as a whole document, so markup without `html`,
/// `head` or `body` gets them as the parser supplies them.
///
/// The conversion succeeds on every text that is short enough for the parser, that the parser
/// reads, and of which it makes a document that an arena can hold; the error says what failed,
/// and `ParseError::Read` carries the diagnostic of the parser.
pub fn html_to_maud(html: &str, config: &Config) -> (result: Result<String, ParseError>)
    ensures
        match result {
            Ok(text) => failure(html@) is None && converted(html@, *config) == Some(text@),
            Err(error) => failure(html@) == Some(error@) && converted(html@, *config) is None,
        },
{
    match parse(html) {
        Ok(dom) => Ok(convert(&dom, html, config)),
        Err(error) => Err(error),
    }
}

} // verus!
