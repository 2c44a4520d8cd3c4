//! Inspects a JavaScript/TypeScript package and produces a structured summary
//! of its public surface: exported functions, classes, types and constants,
//! and, on demand, the full call signature of one named symbol reached via an
//! import-style path (`package:Symbol`).
//!
//! The crate is organised around three verified components:
//! a lexical parameter parser that splits and classifies parameter lists while
//! tracking nested bracket, generic and quote depth; a source parser that
//! turns a syntax tree or a declaration file into a normalized module record;
//! and an import-chain resolver that walks import and re-export chains across
//! modules until a definition is found or the chain is exhausted.
//! File reading, network access and rendering live outside the library and
//! interact with it through plain values.

pub mod config;
pub mod errors;
pub mod module_info;
pub mod parser;
pub mod strutil;
pub mod utils;
