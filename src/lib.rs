//! Declaration and complexity profile of one parsed source file.
//!
//! The syntax tree of [`syntax`] is what a parser hands in; [`analyzer`]
//! walks it once and fills the [`report::ParseResult`].

pub mod analyzer;
pub mod laws;
pub mod report;
pub mod syntax;
pub mod text;
