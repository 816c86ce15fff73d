//! The configuration of an indexing run.

use vstd::prelude::*;

verus! {

/// What an indexing run is given: the patterns that select files and the
/// place where the index is kept.
#[derive(Debug)]
pub struct IndexConfig {
    /// Patterns of which a path has to match one.
    pub includes: Vec<String>,
    /// Patterns of which a path may match none.
    pub exclude: Vec<String>,
    /// Where the index is stored.
    pub storage_path: String,
}

/// An `IndexConfig` as plain text.
pub struct IndexConfigView {
    pub includes: Seq<Seq<char>>,
    pub exclude: Seq<Seq<char>>,
    pub storage_path: Seq<char>,
}

impl View for IndexConfig {
    type V = IndexConfigView;

    open spec fn view(&self) -> IndexConfigView {
        IndexConfigView {
            includes: self.includes.deep_view(),
            exclude: self.exclude.deep_view(),
            storage_path: self.storage_path@,
        }
    }
}

} // verus!
