//! A hot-reloadable gallery of named feature-vector collections with
//! nearest-match querying.
//!
//! The library models the lifecycle of an identity gallery: loading it from a
//! directory tree, keeping readers consistent while a reload is in progress,
//! debouncing filesystem change signals, and answering best-match queries with
//! deterministic tie-breaking. Image decoding, embedding extraction and
//! similarity scoring are external collaborators; their results enter the
//! library as plain values (integer fixed-point scores and coordinates).

pub mod errors;
pub mod geometry;
pub mod manager;
pub mod matcher;
pub mod store;
pub mod text;
pub mod types;
pub mod watcher;

use vstd::prelude::*;

verus! {

} // verus!
