//! Converts HTML markup into the source text of Maud's `html!` notation: each element becomes
//! its tag name with id, classes and attributes, followed by a block of its children.
//!
//! - [`html_to_maud`] holds the conversion of a text, and of markup that is parsed already.
//! - [`parse`] turns a text into markup, with html5ever as the parser.
//! - [`dom`] holds the markup as an arena of nodes, and as the tree that contracts speak of.
//! - [`walk`] collects the lines of the output from the markup.
//! - [`element`] writes the head token of one element in the configured styles.
//! - [`doc`] keeps the collected lines and makes the output text of them.
//! - [`config`] holds the three choices of a conversion.
//! - [`text`] holds the vocabulary for text that all contracts share.
//! - [`laws`] states and proves what holds of every conversion.
//! - [`line_feeds`] proves when the lines of the output are the lines of its text.
//! - [`home_page`] is the editor page around the conversion, as a state machine.

pub mod config;
pub mod doc;
pub mod dom;
pub mod element;
pub mod home_page;
pub mod html_to_maud;
pub mod laws;
pub mod line_feeds;
pub mod parse;
pub mod text;
pub mod walk;
