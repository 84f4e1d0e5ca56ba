//! A small EBNF-like grammar notation for documenting a language's lexical and
//! syntactic productions, with a parser, whole-grammar validation and two
//! renderers: inline markdown and railroad diagrams.
//!
//! A block of text in the notation is read by [`parser::parse_grammar`] into
//! a [`store::Grammar`]; what the notation means is laid down in [`syntax`].
//! The whole grammar is checked by [`validate::check_undefined_nt`] and
//! [`validate::check_unexpected_roots`]; what the second one reports is
//! told in [`roots`]. [`load::load_grammar`] does all of that for the blocks
//! of a corpus. The productions that a page names are rendered by
//! [`render_markdown::render_markdown`] and
//! [`render_railroad::render_railroad`], and [`page`] puts a page together;
//! [`book`] holds what else a book gets. Warnings and errors are collected
//! in a [`diagnostics::Diagnostics`].

pub mod book;
pub mod context;
pub mod diagnostics;
pub mod diagram;
pub mod expression;
pub mod load;
pub mod page;
pub mod parser;
pub mod position;
pub mod ranges;
pub mod reader;
pub mod render_markdown;
pub mod render_railroad;
pub mod roots;
pub mod store;
pub mod syntax;
pub mod text;
pub mod validate;
