//! The fixed layout of an indexed document.

use vstd::prelude::*;

verus! {

/// How the index treats the values of a field.
#[derive(Debug, Clone, Copy, PartialEq, Eq, Structural)]
pub enum FieldKind {
    /// Text that is split into words for searching.
    Text,
    /// Text that is matched as a whole.
    Keyword,
    /// An unsigned integer.
    Unsigned,
    /// A signed integer.
    Signed,
}

/// One named field of the document layout.
#[derive(Debug, Clone, PartialEq, Eq)]
pub struct SchemaField {
    pub name: String,
    pub kind: FieldKind,
    /// Whether the field can be searched.
    pub indexed: bool,
    /// Whether the field's value can be read back from the index.
    pub stored: bool,
}

/// A `SchemaField` as plain values.
pub struct SchemaFieldView {
    pub name: Seq<char>,
    pub kind: FieldKind,
    pub indexed: bool,
    pub stored: bool,
}

impl View for SchemaField {
    type V = SchemaFieldView;

    open spec fn view(&self) -> SchemaFieldView {
        SchemaFieldView {
            name: self.name@,
            kind: self.kind,
            indexed: self.indexed,
            stored: self.stored,
        }
    }
}

impl DeepView for SchemaField {
    type V = SchemaFieldView;

    open spec fn deep_view(&self) -> SchemaFieldView {
        self@
    }
}

/// Memory, in bytes, that the index writer may use for documents that are not
/// committed yet.
pub const WRITER_MEMORY_BYTES: usize = 50_000_000;

/// The five fields of a document, in order: the file's path, the chunk's text
/// (searchable but not stored), the chunk's position, the file's fingerprint
/// and the file's modification time.
pub open spec fn document_schema() -> Seq<SchemaFieldView> {
    seq![
        SchemaFieldView { name: "file_path"@, kind: FieldKind::Text, indexed: true, stored: true },
        SchemaFieldView { name: "content"@, kind: FieldKind::Text, indexed: true, stored: false },
        SchemaFieldView {
            name: "chunk_index"@,
            kind: FieldKind::Unsigned,
            indexed: true,
            stored: true,
        },
        SchemaFieldView { name: "file_hash"@, kind: FieldKind::Keyword, indexed: true, stored: true },
        SchemaFieldView {
            name: "modified_time"@,
            kind: FieldKind::Signed,
            indexed: true,
            stored: true,
        },
    ]
}

/// Builds the document layout.
pub fn index_schema() -> (fields: Vec<SchemaField>)
    ensures
        fields.deep_view() == document_schema(),
{
    let mut fields: Vec<SchemaField> = Vec::new();
    fields.push(
        SchemaField {
            name: "file_path".to_owned(),
            kind: FieldKind::Text,
            indexed: true,
            stored: true,
        },
    );
    fields.push(
        SchemaField { name: "content".to_owned(), kind: FieldKind::Text, indexed: true, stored: false },
    );
    fields.push(
        SchemaField {
            name: "chunk_index".to_owned(),
            kind: FieldKind::Unsigned,
            indexed: true,
            stored: true,
        },
    );
    fields.push(
        SchemaField {
            name: "file_hash".to_owned(),
            kind: FieldKind::Keyword,
            indexed: true,
            stored: true,
        },
    );
    fields.push(
        SchemaField {
            name: "modified_time".to_owned(),
            kind: FieldKind::Signed,
            indexed: true,
            stored: true,
        },
    );
    assert(fields.deep_view() =~= document_schema());
    fields
}

} // verus!
