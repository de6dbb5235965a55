//! The requests that the tree engine takes and the one that it sends on.

use vstd::prelude::*;

verus! {

/// One name in a category, and whether it is a category itself.
#[derive(Debug, PartialEq, Eq)]
pub struct PassEntry {
    pub name: String,
    pub is_dir: bool,
}

/// A request on one path of the tree.
#[derive(Debug, PartialEq, Eq)]
pub struct ActionRequest {
    pub path: String,
    pub content: Option<String>,
    pub original_path: Option<String>,
    pub reveal: Option<bool>,
}

/// A request to the custodian, as the engine sends it.
#[derive(Debug, PartialEq, Eq)]
pub struct BunkerTask {
    pub payload: String,
    pub mode: String,
}

} // verus!
