//! Lexical path values: decomposition and composition of POSIX-style paths,
//! and the configuration of a buffered file opener.

pub mod concrete;
pub mod kind;
pub mod laws;
pub mod model;
pub mod open;
pub mod path;
pub mod text;
pub mod uri;
