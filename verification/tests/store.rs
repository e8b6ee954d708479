use lsproxy::documents::{DiskContent, WorkspaceDocumentsHandler};
use lsproxy::errors::LspProxyError;
use lsproxy::{Position, TextRange};

fn range(sl: u32, sc: u32, el: u32, ec: u32) -> TextRange {
    TextRange::new(Position::new(sl, sc), Position::new(el, ec))
}

#[test]
fn test_read_text_document() {
    let mut handler = WorkspaceDocumentsHandler::new("/ws", vec!["*.txt".to_string()], vec![]);
    let path = "test.txt".to_string();
    let disk = DiskContent::Found("Hello, world!\nThis is a test.".to_string());

    let content = handler.read_text_document(&path, None, &disk).unwrap();
    assert_eq!(content, "Hello, world!\nThis is a test.");

    let r = range(0, 7, 0, 12);
    let extracted = handler.read_text_document(&path, Some(&r), &disk).unwrap();
    assert_eq!(extracted, "world");
}

#[test]
fn test_read_text_document_out_of_bounds() {
    let mut handler = WorkspaceDocumentsHandler::new("/ws", vec!["*.txt".to_string()], vec![]);
    let path = "test_out_of_bounds.txt".to_string();
    let disk = DiskContent::Found("Line 1\nLine 2".to_string());

    let r = range(5, 0, 6, 10);
    let extracted = handler.read_text_document(&path, Some(&r), &disk).unwrap();
    assert_eq!(extracted, "");
}

#[test]
fn test_read_text_document_invalid_characters() {
    let mut handler = WorkspaceDocumentsHandler::new("/ws", vec!["*.txt".to_string()], vec![]);
    let path = "test_invalid_chars.txt".to_string();
    let disk = DiskContent::Found("Short line".to_string());

    let r = range(0, 100, 0, 200);
    let extracted = handler.read_text_document(&path, Some(&r), &disk).unwrap();
    assert_eq!(extracted, "");
}

#[test]
fn test_read_text_document_empty_file() {
    let mut handler = WorkspaceDocumentsHandler::new("/ws", vec!["*.txt".to_string()], vec![]);
    let path = "empty.txt".to_string();
    let disk = DiskContent::Found(String::new());

    let content = handler.read_text_document(&path, None, &disk).unwrap();
    assert_eq!(content, "");

    let r = range(0, 0, 0, 10);
    let extracted = handler.read_text_document(&path, Some(&r), &disk).unwrap();
    assert_eq!(extracted, "");
}

#[test]
fn test_list_files() {
    let mut handler = WorkspaceDocumentsHandler::new(
        "/ws",
        vec!["*.rs".to_string()],
        vec!["file2.txt".to_string()],
    );

    let found = vec!["file1.rs".to_string(), "file2.txt".to_string()];
    let files = handler.list_files(&found);
    assert_eq!(files.len(), 1);
    assert!(files.contains(&"file1.rs".to_string()));

    // file3.rs appears on disk and the watcher reports it: the cache is
    // cleared and the next listing sees the new file.
    handler.handle_watch_event(&"file3.rs".to_string());
    let found = vec![
        "file1.rs".to_string(),
        "file2.txt".to_string(),
        "file3.rs".to_string(),
    ];
    let files = handler.list_files(&found);
    assert_eq!(files.len(), 2);
    assert!(files.contains(&"file1.rs".to_string()));
    assert!(files.contains(&"file3.rs".to_string()));
}

#[test]
fn test_list_files_no_matching_files() {
    let mut handler = WorkspaceDocumentsHandler::new(
        "/ws",
        vec!["*.txt".to_string()],
        vec!["*.md".to_string()],
    );
    let found = vec!["file1.rs".to_string()];
    let files = handler.list_files(&found);
    assert!(files.is_empty());
}

#[test]
fn test_update_patterns() {
    let mut handler = WorkspaceDocumentsHandler::new("/ws", vec!["*.txt".to_string()], vec![]);
    let found = vec!["file1.rs".to_string(), "file2.txt".to_string()];

    let initial_files = handler.list_files(&found);
    assert_eq!(initial_files.len(), 1);
    assert!(initial_files.contains(&"file2.txt".to_string()));

    handler.update_patterns(vec!["*.rs".to_string()], vec![]);

    let updated_files = handler.list_files(&found);
    assert_eq!(updated_files.len(), 1);
    assert!(updated_files.contains(&"file1.rs".to_string()));
}

#[test]
fn test_update_patterns_empty_include_exclude() {
    let mut handler = WorkspaceDocumentsHandler::new(
        "/ws",
        vec!["*.rs".to_string()],
        vec!["file2.txt".to_string()],
    );
    let found = vec!["file1.rs".to_string(), "file2.txt".to_string()];

    handler.update_patterns(vec![], vec![]);

    // An empty include list matches nothing.
    let files = handler.list_files(&found);
    assert!(files.is_empty());
}

#[test]
fn update_patterns_twice_is_idempotent() {
    let mut once = WorkspaceDocumentsHandler::new("/ws", vec![], vec![]);
    let mut twice = WorkspaceDocumentsHandler::new("/ws", vec![], vec![]);
    let inc = vec!["**/*.py".to_string()];
    let exc = vec!["**/target".to_string()];

    once.update_patterns(inc.clone(), exc.clone());
    twice.update_patterns(inc.clone(), exc.clone());
    twice.update_patterns(inc.clone(), exc.clone());

    let found = vec!["a/b.py".to_string(), "target".to_string()];
    assert_eq!(once.list_files(&found), twice.list_files(&found));
}

#[test]
fn invalidate_then_read_serves_disk_content() {
    let mut handler = WorkspaceDocumentsHandler::new("/ws", vec!["*.txt".to_string()], vec![]);
    let path = "a.txt".to_string();

    let first = DiskContent::Found("old contents".to_string());
    let got = handler.read_text_document(&path, None, &first).unwrap();
    assert_eq!(got, "old contents");

    // Without invalidation the cached value is served.
    let second = DiskContent::Found("new contents".to_string());
    let got = handler.read_text_document(&path, None, &second).unwrap();
    assert_eq!(got, "old contents");

    // After invalidation the current disk content is served, not the
    // stale cached value.
    handler.invalidate_cache(&path);
    let got = handler.read_text_document(&path, None, &second).unwrap();
    assert_eq!(got, "new contents");
}

#[test]
fn disk_is_consulted_only_on_a_content_miss() {
    let mut handler = WorkspaceDocumentsHandler::new("/ws", vec!["*.txt".to_string()], vec![]);
    let path = "a.txt".to_string();
    assert!(handler.needs_disk_read(&path));

    // Listing tracks the path without content: a read still needs disk.
    handler.list_files(&vec!["a.txt".to_string()]);
    assert!(handler.needs_disk_read(&path));

    let disk = DiskContent::Found("text".to_string());
    handler.read_text_document(&path, None, &disk).unwrap();
    assert!(!handler.needs_disk_read(&path));

    handler.invalidate_cache(&path);
    assert!(handler.needs_disk_read(&path));
}

#[test]
fn read_missing_file_reports_not_found() {
    let mut handler = WorkspaceDocumentsHandler::new("/ws", vec![], vec![]);
    let path = "gone.txt".to_string();
    let err = handler
        .read_text_document(&path, None, &DiskContent::Absent)
        .unwrap_err();
    assert_eq!(err, LspProxyError::NotFound);
    assert_eq!(err.kind_name(), "not found");
}

#[test]
fn read_unreadable_file_reports_io_error() {
    let mut handler = WorkspaceDocumentsHandler::new("/ws", vec![], vec![]);
    let path = "locked.txt".to_string();
    let err = handler
        .read_text_document(&path, None, &DiskContent::Unreadable)
        .unwrap_err();
    assert_eq!(err, LspProxyError::IoError);
}

#[test]
fn invalid_glob_pattern_matches_nothing() {
    // "[" is not a valid glob; a store including only it tracks nothing.
    let mut handler = WorkspaceDocumentsHandler::new("/ws", vec!["[".to_string()], vec![]);
    let found = vec!["file1.rs".to_string(), "[".to_string()];
    assert!(handler.list_files(&found).is_empty());
}

#[test]
fn globs_cross_directories_and_excludes_win() {
    let mut handler = WorkspaceDocumentsHandler::new(
        "/ws",
        vec!["**/*.py".to_string()],
        vec!["**/test_*.py".to_string()],
    );
    let found = vec![
        "src/main.py".to_string(),
        "src/deep/test_main.py".to_string(),
        "readme.md".to_string(),
    ];
    let files = handler.list_files(&found);
    assert_eq!(files, vec!["src/main.py".to_string()]);
}
