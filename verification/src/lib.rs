//! Reverse index from syntax nodes to the definitions lowered from them.
//!
//! Lowering walks from a parent syntax node down to its children and hands out
//! identifiers. This crate goes the other way: for a container (a module, a
//! trait, an impl, an enum, a struct-like variant or a body) and a file, it
//! collects which node of that file stands for which child identifier.
//!
//! - [`syntax`], [`ids`], [`attrs`], [`item_scope`] and [`db`] hold the
//!   snapshot that a traversal reads: plain data, filled in beforehand.
//! - [`dyn_map`] is the index that a traversal builds.
//! - [`records`] says what a container contributes to an index, and
//!   [`child_by_source`] has the traversals themselves, one per kind of
//!   container.
//! - [`laws`] states what holds of every traversal.

pub mod attrs;
pub mod child_by_source;
pub mod db;
pub mod dyn_map;
pub mod ids;
pub mod item_scope;
pub mod laws;
pub mod records;
pub mod syntax;
