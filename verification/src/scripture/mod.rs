//! Scripture domain: deterministic book registry, normalized parsing and
//! typed references.

pub mod books;
pub mod normalizer;
pub mod reference;
pub mod parser;
pub mod resolver;
pub mod verses;
