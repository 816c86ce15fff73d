//! What can end an indexing run without a result.

use vstd::prelude::*;
use vstd::string::StringExecFns;

verus! {

/// Why a run ended without a result. Trouble with a single file is no error:
/// such a file is passed over.
#[derive(Debug, Clone, PartialEq, Eq)]
pub enum IndexError {
    /// The configuration could not be read.
    InvalidConfig(String),
    /// The storage directory or the index in it could not be set up.
    Setup(String),
    /// The index writer refused a document.
    Write(String),
    /// The commit failed: nothing of the run counts as stored.
    Commit(String),
    /// An event arrived that the run was not waiting for.
    OutOfTurn,
    /// More files or chunks than the counters can hold.
    TooManyDocuments,
}

/// An `IndexError` as plain values.
pub enum IndexErrorView {
    InvalidConfig(Seq<char>),
    Setup(Seq<char>),
    Write(Seq<char>),
    Commit(Seq<char>),
    OutOfTurn,
    TooManyDocuments,
}

impl View for IndexError {
    type V = IndexErrorView;

    open spec fn view(&self) -> IndexErrorView {
        match self {
            IndexError::InvalidConfig(d) => IndexErrorView::InvalidConfig(d@),
            IndexError::Setup(d) => IndexErrorView::Setup(d@),
            IndexError::Write(d) => IndexErrorView::Write(d@),
            IndexError::Commit(d) => IndexErrorView::Commit(d@),
            IndexError::OutOfTurn => IndexErrorView::OutOfTurn,
            IndexError::TooManyDocuments => IndexErrorView::TooManyDocuments,
        }
    }
}

/// The text that reports an error: what failed, then the detail.
pub open spec fn message_of(error: IndexErrorView) -> Seq<char> {
    match error {
        IndexErrorView::InvalidConfig(d) => "Invalid config JSON: "@ + d,
        IndexErrorView::Setup(d) => "Failed to create indexer: "@ + d,
        IndexErrorView::Write(d) => "Indexing failed: "@ + d,
        IndexErrorView::Commit(d) => "Indexing failed: "@ + d,
        IndexErrorView::OutOfTurn => "Indexing failed: "@ + "event out of turn"@,
        IndexErrorView::TooManyDocuments => "Indexing failed: "@ + "too many documents"@,
    }
}

impl IndexError {
    /// The text that reports this error.
    pub fn message(&self) -> (text: String)
        ensures
            text@ == message_of(self@),
    {
        match self {
            IndexError::InvalidConfig(d) => String::from_str("Invalid config JSON: ").concat(
                d.as_str(),
            ),
            IndexError::Setup(d) => String::from_str("Failed to create indexer: ").concat(
                d.as_str(),
            ),
            IndexError::Write(d) => String::from_str("Indexing failed: ").concat(d.as_str()),
            IndexError::Commit(d) => String::from_str("Indexing failed: ").concat(d.as_str()),
            IndexError::OutOfTurn => String::from_str("Indexing failed: ").concat(
                "event out of turn",
            ),
            IndexError::TooManyDocuments => String::from_str("Indexing failed: ").concat(
                "too many documents",
            ),
        }
    }
}

} // verus!
