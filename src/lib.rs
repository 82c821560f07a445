//! Batch renaming of the entries of a directory tree.
//!
//! The library holds the logic of a run: how an entry's name is split into
//! stem and extension, the rules that rewrite a stem, the normalisation of the
//! selection flags, and the decisions taken for each entry that the walk
//! yields. Walking the tree and renaming on disk are left to the caller.
use vstd::prelude::*;

pub mod name;
pub mod text;
pub mod transform;
pub mod rule;
pub mod run;
