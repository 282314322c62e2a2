//! A path-safe content server core: request paths are checked and resolved,
//! content types are inferred, and shared HTML fragments are substituted into
//! every HTML page. All filesystem work is left to the caller, which performs
//! the actions this crate asks for and reports back what it found.

pub mod text;
pub mod path;
pub mod mime;
pub mod fragments;
pub mod markup;
pub mod responder;
pub mod disk;
pub mod folders;
pub mod snapshot;
pub mod routes;
