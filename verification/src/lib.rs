//! Extraction of protobuf message and enum descriptions from a bundled
//! JavaScript module that was generated by protobuf-es.
//!
//! The module is parsed once, by `oxc_parser`, into the small syntax tree of
//! [`ast`] ([`js_parse`]); everything after that is verified code:
//! - [`util`]: property keys, string values, declarations and alias chains;
//! - [`extract`]: classes, field lists, enum tables, packet tables and the
//!   dependencies of a field list;
//! - [`runtime_syntax`]: the protobuf syntax of a message class;
//! - [`aliases`]: deciding whether an alias chain ends;
//! - [`bundle`]: the extraction as a whole, [`bundle::extract_bundle`];
//! - [`tables`], [`text`], [`seqs`]: keyed tables, strings, sequences;
//! - [`types`]: the result types; [`ir`]: a flat bundle description.
pub mod aliases;
pub mod ast;
pub mod bundle;
pub mod extract;
pub mod ir;
pub mod js_parse;
pub mod runtime_syntax;
pub mod seqs;
pub mod tables;
pub mod text;
pub mod types;
pub mod util;
