//! Documents: one per chunk of a file, with the file's provenance.

use vstd::prelude::*;
use crate::chunker::{chunk, chunks_of};
use crate::hasher::{content_hash, hash};

verus! {

/// One chunk of a file, as it is stored in the index.
#[derive(Debug, Clone, PartialEq, Eq)]
pub struct DocumentChunk {
    /// Path of the file the chunk comes from.
    pub file_path: String,
    /// Text of the chunk.
    pub content: String,
    /// Position of the chunk within its file, from zero.
    pub chunk_index: usize,
    /// Fingerprint of the whole file's content.
    pub file_hash: String,
    /// When the file was last modified, in seconds since the Unix epoch.
    pub modified_time: i64,
}

/// A `DocumentChunk` as plain values.
pub struct DocumentView {
    pub file_path: Seq<char>,
    pub content: Seq<char>,
    pub chunk_index: nat,
    pub file_hash: Seq<char>,
    pub modified_time: int,
}

impl View for DocumentChunk {
    type V = DocumentView;

    open spec fn view(&self) -> DocumentView {
        DocumentView {
            file_path: self.file_path@,
            content: self.content@,
            chunk_index: self.chunk_index as nat,
            file_hash: self.file_hash@,
            modified_time: self.modified_time as int,
        }
    }
}

impl DeepView for DocumentChunk {
    type V = DocumentView;

    open spec fn deep_view(&self) -> DocumentView {
        self@
    }
}

/// The documents of a file: one for each chunk of its content, in order, each
/// with the chunk's position and with the path, fingerprint and modification
/// time of the file.
pub open spec fn documents_of(
    path: Seq<char>,
    content: Seq<char>,
    file_hash: Seq<char>,
    modified_time: int,
) -> Seq<DocumentView> {
    Seq::new(
        chunks_of(content).len(),
        |i: int|
            DocumentView {
                file_path: path,
                content: chunks_of(content)[i],
                chunk_index: i as nat,
                file_hash,
                modified_time,
            },
    )
}

/// The documents of a file whose fingerprint is that of its content.
pub open spec fn file_documents(path: Seq<char>, content: Seq<char>, modified_time: int) -> Seq<
    DocumentView,
> {
    documents_of(path, content, content_hash(content), modified_time)
}

/// Builds the documents of a file from its path, content, fingerprint and
/// modification time.
pub fn build_documents(path: &str, content: &str, file_hash: &str, modified_time: i64) -> (docs:
    Vec<DocumentChunk>)
    ensures
        docs.deep_view() == documents_of(path@, content@, file_hash@, modified_time as int),
        docs@.len() == chunks_of(content@).len(),
        docs@.len() >= 1,
{
    let chunks = chunk(content);
    let mut docs: Vec<DocumentChunk> = Vec::new();
    let mut i: usize = 0;
    while i < chunks.len()
        invariant
            i <= chunks.len(),
            chunks.deep_view() == chunks_of(content@),
            docs@.len() == i,
            forall|k: int|
                0 <= k < i ==> (#[trigger] docs@[k])@ == documents_of(
                    path@,
                    content@,
                    file_hash@,
                    modified_time as int,
                )[k],
        decreases chunks.len() - i,
    {
        assert(chunks@[i as int]@ == chunks.deep_view()[i as int]);
        docs.push(
            DocumentChunk {
                file_path: path.to_owned(),
                content: chunks[i].clone(),
                chunk_index: i,
                file_hash: file_hash.to_owned(),
                modified_time,
            },
        );
        i += 1;
    }
    assert(docs.deep_view() =~= documents_of(path@, content@, file_hash@, modified_time as int));
    docs
}

/// Builds the documents of a file, computing the fingerprint of its content.
pub fn index_file(path: &str, content: &str, modified_time: i64) -> (docs: Vec<DocumentChunk>)
    ensures
        docs.deep_view() == file_documents(path@, content@, modified_time as int),
        docs@.len() == chunks_of(content@).len(),
        docs@.len() >= 1,
{
    let file_hash = hash(content);
    build_documents(path, content, file_hash.as_str(), modified_time)
}

/// Within a file the positions of the documents run from zero without a gap,
/// and every document carries the file's own path, fingerprint and
/// modification time: neither is computed for a chunk alone.
pub proof fn lemma_documents_share_provenance(
    path: Seq<char>,
    content: Seq<char>,
    modified_time: int,
    k: int,
)
    requires
        0 <= k < file_documents(path, content, modified_time).len(),
    ensures
        file_documents(path, content, modified_time).len() == chunks_of(content).len(),
        file_documents(path, content, modified_time)[k].chunk_index == k,
        file_documents(path, content, modified_time)[k].content == chunks_of(content)[k],
        file_documents(path, content, modified_time)[k].file_path == path,
        file_documents(path, content, modified_time)[k].file_hash == content_hash(content),
        file_documents(path, content, modified_time)[k].modified_time == modified_time,
{
}

} // verus!
