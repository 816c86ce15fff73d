//! The indexing run as a state machine. The library decides; whoever drives it
//! does the work on disk and reports what came of it.
//!
//! A run opens the index, then takes the entries of the directory tree one by
//! one. Each entry is put to the filter; a file that passes is read, cut into
//! chunks and handed back as documents for the index writer. When the tree is
//! exhausted the run asks for one commit, and only a commit that succeeded
//! yields a result.

use vstd::prelude::*;
use crate::chunker::{chunk, chunks_of};
use crate::config::IndexConfigView;
use crate::document::{file_documents, index_file, DocumentView};
use crate::error::{IndexError, IndexErrorView};
use crate::filter::{
    accepts, extension_of, path_extension, should_include, should_include_with_extension,
};
use crate::hasher::{content_hash, hash, DIGEST_BYTES};
use crate::schema::{document_schema, index_schema, SchemaField, WRITER_MEMORY_BYTES};

pub use crate::config::IndexConfig;
pub use crate::document::DocumentChunk;

verus! {

/// What a finished run reports.
#[derive(Debug, Clone, Copy, PartialEq, Eq, Structural)]
pub struct IndexResult {
    /// Number of files that were read and indexed.
    pub indexed_files: usize,
    /// Number of chunks that were handed to the index.
    pub total_chunks: usize,
    /// Time the run took, in milliseconds.
    pub processing_time_ms: u128,
}

/// Where a run stands.
#[derive(Debug, Clone, Copy, PartialEq, Eq, Structural)]
pub enum Phase {
    /// The index is not open yet.
    Opening,
    /// Entries are being taken.
    Traversing,
    /// The commit was asked for.
    Committing,
    /// The commit succeeded and the result was reported.
    Finished,
    /// The run was given up.
    Failed,
}

/// What the driver reports to the run.
#[derive(Debug, Clone, PartialEq, Eq)]
pub enum IndexEvent {
    /// The storage directory exists and the index in it has a writer.
    Opened,
    /// The index could not be opened.
    OpenFailed(String),
    /// The traversal came upon this path.
    Entry(String),
    /// The file that was to be read holds this text.
    Content { content: String, modified_time: i64 },
    /// The file that was to be read cannot be read as text, or its
    /// modification time cannot be had.
    Unreadable,
    /// The index writer refused a document.
    WriteFailed(String),
    /// The traversal has no more entries.
    EndOfTraversal,
    /// The commit succeeded, this many milliseconds after the run began.
    Committed { elapsed_ms: u128 },
    /// The commit failed.
    CommitFailed(String),
}

/// What the run asks of the driver.
#[derive(Debug, Clone, PartialEq, Eq)]
pub enum IndexAction {
    /// Nothing: go on with the next entry.
    Continue,
    /// Read the file at this path, the entry just reported.
    Read(String),
    /// Add these documents to the index, then go on.
    Add(Vec<DocumentChunk>),
    /// Commit what was added.
    Commit,
    /// The run is done: this is its result.
    Report(IndexResult),
    /// The run is given up.
    Abort(IndexError),
}

/// An `IndexEvent` as plain values.
pub enum EventView {
    Opened,
    OpenFailed(Seq<char>),
    Entry(Seq<char>),
    Content { content: Seq<char>, modified_time: int },
    Unreadable,
    WriteFailed(Seq<char>),
    EndOfTraversal,
    Committed { elapsed_ms: nat },
    CommitFailed(Seq<char>),
}

/// An `IndexAction` as plain values.
pub enum ActionView {
    Continue,
    Read(Seq<char>),
    Add(Seq<DocumentView>),
    Commit,
    Report(IndexResult),
    Abort(IndexErrorView),
}

impl View for IndexEvent {
    type V = EventView;

    open spec fn view(&self) -> EventView {
        match self {
            IndexEvent::Opened => EventView::Opened,
            IndexEvent::OpenFailed(d) => EventView::OpenFailed(d@),
            IndexEvent::Entry(p) => EventView::Entry(p@),
            IndexEvent::Content { content, modified_time } => EventView::Content {
                content: content@,
                modified_time: *modified_time as int,
            },
            IndexEvent::Unreadable => EventView::Unreadable,
            IndexEvent::WriteFailed(d) => EventView::WriteFailed(d@),
            IndexEvent::EndOfTraversal => EventView::EndOfTraversal,
            IndexEvent::Committed { elapsed_ms } => EventView::Committed {
                elapsed_ms: *elapsed_ms as nat,
            },
            IndexEvent::CommitFailed(d) => EventView::CommitFailed(d@),
        }
    }
}

impl View for IndexAction {
    type V = ActionView;

    open spec fn view(&self) -> ActionView {
        match self {
            IndexAction::Continue => ActionView::Continue,
            IndexAction::Read(p) => ActionView::Read(p@),
            IndexAction::Add(docs) => ActionView::Add(docs.deep_view()),
            IndexAction::Commit => ActionView::Commit,
            IndexAction::Report(r) => ActionView::Report(*r),
            IndexAction::Abort(e) => ActionView::Abort(e@),
        }
    }
}

/// The state of a run as plain values.
pub struct IndexerState {
    pub storage_path: Seq<char>,
    pub phase: Phase,
    /// The path of the file that is being read, if one is.
    pub pending: Option<Seq<char>>,
    pub indexed_files: nat,
    pub total_chunks: nat,
}

/// The state in which a run begins.
pub open spec fn initial_state(storage_path: Seq<char>) -> IndexerState {
    IndexerState {
        storage_path,
        phase: Phase::Opening,
        pending: None,
        indexed_files: 0,
        total_chunks: 0,
    }
}

/// The state of a run that was given up.
pub open spec fn given_up(s: IndexerState) -> IndexerState {
    IndexerState { phase: Phase::Failed, pending: None, ..s }
}

/// An event for which the run was not waiting ends it.
pub open spec fn out_of_turn(s: IndexerState) -> (IndexerState, ActionView) {
    (given_up(s), ActionView::Abort(IndexErrorView::OutOfTurn))
}

/// The extension that belongs to an event: that of the path, for an entry.
pub open spec fn entry_extension(e: EventView) -> Option<Seq<char>> {
    match e {
        EventView::Entry(path) => path_extension(path),
        _ => None,
    }
}

/// One step of a run: the state after the event, and what the driver is to
/// do next. `extension` is the extension of the entry's path and is read for
/// an entry only.
pub open spec fn step(
    s: IndexerState,
    config: IndexConfigView,
    e: EventView,
    extension: Option<Seq<char>>,
) -> (IndexerState, ActionView) {
    match s.phase {
        Phase::Opening => match e {
            EventView::Opened => (
                IndexerState { phase: Phase::Traversing, ..s },
                ActionView::Continue,
            ),
            EventView::OpenFailed(detail) => (
                given_up(s),
                ActionView::Abort(IndexErrorView::Setup(detail)),
            ),
            _ => out_of_turn(s),
        },
        Phase::Traversing => match s.pending {
            None => match e {
                EventView::Entry(path) => if accepts(config, path, extension) {
                    (IndexerState { pending: Some(path), ..s }, ActionView::Read(path))
                } else {
                    (s, ActionView::Continue)
                },
                EventView::WriteFailed(detail) => (
                    given_up(s),
                    ActionView::Abort(IndexErrorView::Write(detail)),
                ),
                EventView::EndOfTraversal => (
                    IndexerState { phase: Phase::Committing, ..s },
                    ActionView::Commit,
                ),
                _ => out_of_turn(s),
            },
            Some(path) => match e {
                EventView::Content { content, modified_time } => if s.indexed_files + 1
                    > usize::MAX || s.total_chunks + chunks_of(content).len() > usize::MAX {
                    (given_up(s), ActionView::Abort(IndexErrorView::TooManyDocuments))
                } else {
                    (
                        IndexerState {
                            pending: None,
                            indexed_files: s.indexed_files + 1,
                            total_chunks: s.total_chunks + chunks_of(content).len(),
                            ..s
                        },
                        ActionView::Add(file_documents(path, content, modified_time)),
                    )
                },
                EventView::Unreadable => (
                    IndexerState { pending: None, ..s },
                    ActionView::Continue,
                ),
                _ => out_of_turn(s),
            },
        },
        Phase::Committing => match e {
            EventView::Committed { elapsed_ms } => (
                IndexerState { phase: Phase::Finished, ..s },
                ActionView::Report(
                    IndexResult {
                        indexed_files: s.indexed_files as usize,
                        total_chunks: s.total_chunks as usize,
                        processing_time_ms: elapsed_ms as u128,
                    },
                ),
            ),
            EventView::CommitFailed(detail) => (
                given_up(s),
                ActionView::Abort(IndexErrorView::Commit(detail)),
            ),
            _ => out_of_turn(s),
        },
        Phase::Finished => (s, ActionView::Abort(IndexErrorView::OutOfTurn)),
        Phase::Failed => (s, ActionView::Abort(IndexErrorView::OutOfTurn)),
    }
}

/// What the driver needs to open the index.
#[derive(Debug, Clone, PartialEq, Eq)]
pub struct SessionPlan {
    /// Directory of the index; it is created if it does not exist.
    pub storage_path: String,
    /// Layout of the documents.
    pub schema: Vec<SchemaField>,
    /// Memory the writer may use for documents not committed yet, in bytes.
    pub writer_memory: usize,
}

/// One indexing run.
pub struct ContextRagIndexer {
    storage_path: String,
    phase: Phase,
    pending: Option<String>,
    indexed_files: usize,
    total_chunks: usize,
}

impl View for ContextRagIndexer {
    type V = IndexerState;

    closed spec fn view(&self) -> IndexerState {
        IndexerState {
            storage_path: self.storage_path@,
            phase: self.phase,
            pending: self.pending.deep_view(),
            indexed_files: self.indexed_files as nat,
            total_chunks: self.total_chunks as nat,
        }
    }
}

impl ContextRagIndexer {
    /// Begins a run on the index at `storage_path`. Nothing is opened yet: the
    /// driver opens the index as `session_plan` says and reports how it went.
    pub fn new(storage_path: &str) -> (indexer: Self)
        ensures
            indexer@ == initial_state(storage_path@),
    {
        ContextRagIndexer {
            storage_path: storage_path.to_owned(),
            phase: Phase::Opening,
            pending: None,
            indexed_files: 0,
            total_chunks: 0,
        }
    }

    /// What to open: the storage directory, the document layout and the
    /// writer's memory.
    pub fn session_plan(&self) -> (plan: SessionPlan)
        ensures
            plan.storage_path@ == self@.storage_path,
            plan.schema.deep_view() == document_schema(),
            plan.writer_memory == WRITER_MEMORY_BYTES,
    {
        SessionPlan {
            storage_path: self.storage_path.clone(),
            schema: index_schema(),
            writer_memory: WRITER_MEMORY_BYTES,
        }
    }

    /// Where the run stands.
    pub fn phase(&self) -> (phase: Phase)
        ensures
            phase == self@.phase,
    {
        self.phase
    }

    /// Number of files indexed so far.
    pub fn indexed_files(&self) -> (n: usize)
        ensures
            n == self@.indexed_files,
    {
        self.indexed_files
    }

    /// Number of chunks handed out so far.
    pub fn total_chunks(&self) -> (n: usize)
        ensures
            n == self@.total_chunks,
    {
        self.total_chunks
    }

    /// Whether `path` is indexed under `config`.
    pub fn should_include_file(&self, path: &str, config: &IndexConfig) -> (included: bool)
        ensures
            included == accepts(config@, path@, path_extension(path@)),
    {
        should_include(path, config)
    }

    /// Splits `content` into chunks.
    pub fn chunk_content(&self, content: &str) -> (chunks: Vec<String>)
        ensures
            chunks.deep_view() == chunks_of(content@),
            chunks@.len() == chunks_of(content@).len(),
            chunks@.len() >= 1,
    {
        chunk(content)
    }

    /// Computes the fingerprint of `content`.
    pub fn calculate_file_hash(&self, content: &str) -> (fingerprint: String)
        ensures
            fingerprint@ == content_hash(content@),
            fingerprint@.len() == 2 * DIGEST_BYTES,
    {
        hash(content)
    }

    /// Gives the run up.
    fn give_up(&mut self, error: IndexError) -> (action: IndexAction)
        ensures
            final(self)@ == given_up(old(self)@),
            action@ == ActionView::Abort(error@),
    {
        self.phase = Phase::Failed;
        self.pending = None;
        IndexAction::Abort(error)
    }

    /// Takes one event, with the extension of the entry's path given by the
    /// caller, and says what to do next.
    pub fn advance(&mut self, config: &IndexConfig, event: IndexEvent, extension: Option<&str>) -> (action:
        IndexAction)
        ensures
            (final(self)@, action@) == step(old(self)@, config@, event@, extension.deep_view()),
    {
        match self.phase {
            Phase::Opening => match event {
                IndexEvent::Opened => {
                    self.phase = Phase::Traversing;
                    IndexAction::Continue
                },
                IndexEvent::OpenFailed(detail) => self.give_up(IndexError::Setup(detail)),
                _ => self.give_up(IndexError::OutOfTurn),
            },
            Phase::Traversing => {
                let pending = self.pending.take();
                match pending {
                    None => match event {
                        IndexEvent::Entry(path) => {
                            if should_include_with_extension(path.as_str(), extension, config) {
                                self.pending = Some(path.clone());
                                IndexAction::Read(path)
                            } else {
                                IndexAction::Continue
                            }
                        },
                        IndexEvent::WriteFailed(detail) => self.give_up(IndexError::Write(detail)),
                        IndexEvent::EndOfTraversal => {
                            self.phase = Phase::Committing;
                            IndexAction::Commit
                        },
                        _ => self.give_up(IndexError::OutOfTurn),
                    },
                    Some(path) => match event {
                        IndexEvent::Content { content, modified_time } => {
                            let docs = index_file(path.as_str(), content.as_str(), modified_time);
                            if self.indexed_files == usize::MAX || docs.len() > usize::MAX
                                - self.total_chunks {
                                self.give_up(IndexError::TooManyDocuments)
                            } else {
                                self.indexed_files = self.indexed_files + 1;
                                self.total_chunks = self.total_chunks + docs.len();
                                IndexAction::Add(docs)
                            }
                        },
                        IndexEvent::Unreadable => IndexAction::Continue,
                        _ => self.give_up(IndexError::OutOfTurn),
                    },
                }
            },
            Phase::Committing => match event {
                IndexEvent::Committed { elapsed_ms } => {
                    self.phase = Phase::Finished;
                    IndexAction::Report(
                        IndexResult {
                            indexed_files: self.indexed_files,
                            total_chunks: self.total_chunks,
                            processing_time_ms: elapsed_ms,
                        },
                    )
                },
                IndexEvent::CommitFailed(detail) => self.give_up(IndexError::Commit(detail)),
                _ => self.give_up(IndexError::OutOfTurn),
            },
            Phase::Finished => IndexAction::Abort(IndexError::OutOfTurn),
            Phase::Failed => IndexAction::Abort(IndexError::OutOfTurn),
        }
    }

    /// Takes one event and says what to do next. For an entry the extension is
    /// the one that the standard library finds in its path.
    pub fn index_directory(&mut self, config: &IndexConfig, event: IndexEvent) -> (action:
        IndexAction)
        ensures
            (final(self)@, action@) == step(
                old(self)@,
                config@,
                event@,
                entry_extension(event@),
            ),
    {
        let extension = match &event {
            IndexEvent::Entry(path) => extension_of(path.as_str()),
            _ => None,
        };
        match extension {
            Some(e) => self.advance(config, event, Some(e.as_str())),
            None => self.advance(config, event, None),
        }
    }
}

} // verus!
