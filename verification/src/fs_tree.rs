//! A directory tree as a plain value. Discovery runs on this model; the
//! caller fills it from whatever storage holds the extracted archive.

use vstd::prelude::*;

verus! {

/// One directory: its own name, the names of the plain files directly in it,
/// and its subdirectories, each list in enumeration order.
#[derive(Debug, PartialEq, Eq)]
pub struct DirTree {
    pub name: String,
    pub files: Vec<String>,
    pub subdirs: Vec<DirTree>,
}

} // verus!
