use context_rag::document::{build_documents, index_file, DocumentChunk};
use context_rag::hasher::hash;
use context_rag::schema::{index_schema, FieldKind, WRITER_MEMORY_BYTES};

#[test]
fn one_document_per_chunk() {
    let a: String = std::iter::repeat('a').take(700).collect();
    let b: String = std::iter::repeat('b').take(700).collect();
    let content = format!("{}\n{}\n", a, b);
    let docs = build_documents("./notes.md", &content, "f00d", 1_700_000_000);
    assert_eq!(
        docs,
        vec![
            DocumentChunk {
                file_path: "./notes.md".to_string(),
                content: a,
                chunk_index: 0,
                file_hash: "f00d".to_string(),
                modified_time: 1_700_000_000,
            },
            DocumentChunk {
                file_path: "./notes.md".to_string(),
                content: b,
                chunk_index: 1,
                file_hash: "f00d".to_string(),
                modified_time: 1_700_000_000,
            },
        ]
    );
}

#[test]
fn documents_carry_the_hash_of_the_whole_file() {
    let mut content = String::new();
    let mut i: usize = 0;
    while i < 300 {
        content.push_str(&format!("row {} of the table\n", i));
        i += 1;
    }
    let docs = index_file("./table.txt", &content, -5);
    assert!(docs.len() > 2);
    let expected = hash(&content);
    let mut k: usize = 0;
    while k < docs.len() {
        assert_eq!(docs[k].chunk_index, k);
        assert_eq!(docs[k].file_hash, expected);
        assert_eq!(docs[k].file_path, "./table.txt");
        assert_eq!(docs[k].modified_time, -5);
        assert_ne!(hash(&docs[k].content), expected);
        k += 1;
    }
}

#[test]
fn an_empty_file_gives_one_empty_document() {
    let docs = index_file("./empty", "", 0);
    assert_eq!(docs.len(), 1);
    assert_eq!(docs[0].content, "");
    assert_eq!(docs[0].chunk_index, 0);
    assert_eq!(
        docs[0].file_hash,
        "e3b0c44298fc1c149afbf4c8996fb92427ae41e4649b934ca495991b7852b855"
    );
}

#[test]
fn the_schema_has_five_fields() {
    let fields = index_schema();
    let seen: Vec<(&str, FieldKind, bool, bool)> =
        fields.iter().map(|f| (f.name.as_str(), f.kind, f.indexed, f.stored)).collect();
    assert_eq!(
        seen,
        vec![
            ("file_path", FieldKind::Text, true, true),
            ("content", FieldKind::Text, true, false),
            ("chunk_index", FieldKind::Unsigned, true, true),
            ("file_hash", FieldKind::Keyword, true, true),
            ("modified_time", FieldKind::Signed, true, true),
        ]
    );
    assert_eq!(WRITER_MEMORY_BYTES, 50_000_000);
}
