//! Compile-time rewriting of translation lookups.
//!
//! The library models a module's syntax tree as a closed set of node kinds,
//! resolves translation keys against cached JSON resource documents, and
//! rewrites translate calls into literal strings or self-contained
//! expressions, so the rewritten module no longer needs the translation
//! library at run time.

pub mod ast;
pub mod cache;
pub mod config;
pub mod markup;
pub mod resolve;
pub mod rewrite;
pub mod template;
pub mod util;

pub use cache::{Cache, CacheError};
pub use config::Config;
pub use util::json_path_from_key;
