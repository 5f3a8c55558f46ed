//! Derives a stable, human-readable identifier for every element of a JSX
//! tree from where it was written (directories, file, enclosing components,
//! position among siblings) and attaches it as an attribute.

pub mod options;
pub mod path;
pub mod ident;
pub mod tree;
pub mod json;
pub mod visitor;
pub mod laws;
