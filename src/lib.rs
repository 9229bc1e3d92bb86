//! Bounded, filtered snapshot of a source tree: the decisions of the walk, the
//! classification of files, the rendering of the tree document and the names and
//! bodies of the per-file artifacts.
pub mod classify;
pub mod driver;
pub mod ignore_policy;
pub mod snapshot;
pub mod text;
pub mod tree;
