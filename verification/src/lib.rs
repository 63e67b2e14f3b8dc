//! Infers the third-party packages a Python project depends on from plain
//! values: the entries of its source tree, the mapping resource, its
//! metadata files and the registry's replies.

pub mod json;
pub mod names;
pub mod pattern;
pub mod resolver;
pub mod scanner;
pub mod text;
pub mod version;
pub mod writer;
