//! The parsing components: the lexical parameter parser, the
//! declaration-file parser, the syntax-tree walker and the import-chain
//! resolver.

pub mod ast_parser;
pub mod import_resolver;
pub mod signature;
pub mod parameter_parser;
pub mod typescript;
