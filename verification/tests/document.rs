use alloy::app_state::AppState;
use alloy::config::Config;
use alloy::document::{Document, FileContent, WriteOutcome, shown_for};
use alloy::errors::CoreError;

fn open(path: &str, bytes: &[u8]) -> Result<Document, CoreError> {
    Document::open(path, FileContent::Bytes(bytes.to_vec()))
}

#[test]
fn empty_document_has_expected_defaults() {
    let doc = Document::new();

    assert_eq!(doc.content(), "".to_string());
    assert_eq!(doc.display_name(), "[Unnamed Document]".to_string());
    assert!(!doc.modified);
    assert!(doc.path.is_none());
    assert_eq!(doc.line_count(), 1);
}

#[test]
fn from_path_reads_utf8_content() {
    let doc = open("/tmp/dir/test.md", b"# Hello\n\nWorld\n").expect("should load");

    assert_eq!(doc.content(), "# Hello\n\nWorld\n".to_string());
    assert!(!doc.modified);
    assert_eq!(doc.display_name(), "test.md".to_string());
    assert_eq!(doc.line_count(), 3);
}

#[test]
fn from_path_rejects_non_utf8() {
    match open("/tmp/dir/bad.md", b"\xff\xfe invalid utf8") {
        Err(err) => assert!(matches!(err, CoreError::DocumentEncoding { .. })),
        Ok(_) => panic!("should fail"),
    }
}

#[test]
fn from_path_missing_file_returns_io_error() {
    let path = "/nonexistent/path/file.md";
    match Document::open(path, FileContent::Failed("No such file".to_string())) {
        Err(err) => assert!(matches!(err, CoreError::DocumentIo { .. })),
        Ok(_) => panic!("should fail"),
    }
}

#[test]
fn display_name_for_path_document() {
    let doc = open("/tmp/dir/notes.md", b"hello").unwrap();
    assert_eq!(doc.display_name(), "notes.md".to_string());
}

#[test]
fn char_counts_unicode_scalars() {
    let doc = open("/tmp/dir/unicode.md", "café".as_bytes()).unwrap();
    assert_eq!(doc.char_count(), 4);
    assert_eq!(doc.byte_count(), 5);
}

#[test]
fn lines_end_at_every_line_break() {
    for (text, lines) in [
        ("a\r\nb", 2),
        ("a\rb\n", 2),
        ("a\u{2028}b\u{85}c", 3),
        ("\r\n", 1),
        ("\n\n", 2),
        ("\n\r", 3),
        ("a\u{b}b\u{c}", 3),
    ] {
        assert_eq!(open("x", text.as_bytes()).unwrap().line_count(), lines, "{text:?}");
    }
}

#[test]
fn saved_content_is_read_back() {
    let mut doc = Document::default();
    doc.modified = true;
    doc.save_as("new é", "/a/b.md", WriteOutcome::Written).unwrap();
    assert!(!doc.is_modified());
    assert_eq!(doc.file_path().as_deref(), Some("/a/b.md"));
    let again = open("/a/b.md", doc.content().as_bytes()).unwrap();
    assert_eq!(again.content(), "new é");
    doc.save("more", WriteOutcome::Written).unwrap();
    assert_eq!(doc.content(), "more");
}

#[test]
fn a_failed_save_keeps_the_document_modified() {
    let mut doc = open("/a/b.md", b"old").unwrap();
    doc.modified = true;

    let err = doc.save("new", WriteOutcome::CreateFailed("denied".to_string())).unwrap_err();
    assert!(matches!(&err, CoreError::DocumentIo { path, source }
        if path == "/a/b.md" && source == "denied"));
    assert_eq!(doc.content(), "old");
    assert!(doc.is_modified());

    doc.save("new", WriteOutcome::WriteFailed("full".to_string())).unwrap_err();
    assert_eq!(doc.content(), "old");
    assert!(doc.is_modified());
}

#[test]
fn a_document_without_a_path_is_not_saved() {
    let mut doc = Document::new();
    let err = doc.save("x", WriteOutcome::Written).unwrap_err();
    assert!(matches!(err, CoreError::DocumentNoPath));
    assert_eq!(doc.content(), "");
    doc.set_path("x.md");
    assert_eq!(doc.display_name(), "x.md");
}

#[test]
fn error_messages() {
    let p = || "p.toml".to_string();
    let s = || "why".to_string();
    for (e, text) in [
        (
            CoreError::ConfigParse { path: p(), source: s() },
            "Config error: Failed to parse config at p.toml: why",
        ),
        (
            CoreError::ConfigSerialize(s()),
            "Config error: Failed to serialize default config: why",
        ),
        (
            CoreError::ConfigIo { path: p(), source: s() },
            "Config error: Config I/O error at p.toml: why",
        ),
    ] {
        assert_eq!(e.message(), text);
    }
    for e in [
        CoreError::ConfigDirUnresolvable,
        CoreError::DocumentIo { path: p(), source: s() },
        CoreError::DocumentEncoding { path: p() },
        CoreError::DocumentNoPath,
    ] {
        assert!(!e.message().is_empty());
    }
}

#[test]
fn the_status_name_marks_unsaved_changes() {
    let doc = open("/a/b.md", b"x").unwrap();
    let mut state = AppState::new(Config::default(), doc);
    assert!(!state.should_quit);
    assert_eq!(state.status_filename(), "b.md");
    state.document.modified = true;
    assert_eq!(state.status_filename(), "b.md [+]");
}

#[test]
fn names_are_shown_or_stood_in_for() {
    assert_eq!(shown_for(Some("a.md".to_string())), "a.md");
    assert_eq!(shown_for(None), Document::new().display_name());
}

#[test]
fn documents_can_be_copied() {
    let mut doc = open("/a/b.md", "one\ntwo".as_bytes()).unwrap();
    let copy = doc.clone();
    doc.save("three", WriteOutcome::Written).unwrap();
    assert_eq!(copy.content(), "one\ntwo");
    assert_eq!(copy.path.as_deref(), Some("/a/b.md"));
    assert_eq!(doc.content(), "three");
}
