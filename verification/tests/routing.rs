use lsproxy::codec::{
    classify_message, encode_frame, header_content_length, parse_digits, HeaderScanner,
    MessageKind,
};
use lsproxy::errors::LspProxyError;
use lsproxy::documents::WorkspaceDocumentsHandler;
use lsproxy::languages::{default_exclude_patterns, python_file_patterns};
use lsproxy::manager::{
    extension_of, file_uri, language_for_path, nearest_marked_ancestor, parent_dir,
    should_fall_back_to_matcher, str_eq, to_absolute, to_relative, Language, Manager,
};
use lsproxy::{FilePosition, FileRange, Position, Symbol};

#[test]
fn languages_by_extension() {
    assert_eq!(language_for_path("main.py"), Some(Language::Python));
    assert_eq!(language_for_path("src/app.tsx"), Some(Language::TypeScript));
    assert_eq!(language_for_path("src/app.jsx"), Some(Language::TypeScript));
    assert_eq!(language_for_path("lib.rs"), Some(Language::Rust));
    assert_eq!(language_for_path("a/b/c.cc"), Some(Language::Cpp));
    assert_eq!(language_for_path("main.go"), Some(Language::Golang));
    assert_eq!(language_for_path("Main.java"), Some(Language::Java));
    assert_eq!(language_for_path("archive.zip"), None);
    assert_eq!(language_for_path("Makefile"), None);
}

#[test]
fn extension_is_what_follows_the_last_dot() {
    assert_eq!(extension_of("a.tar.gz").as_deref(), Some("gz"));
    assert_eq!(extension_of("noext"), None);
    assert_eq!(extension_of("trailing."), Some(String::new()));
}

#[test]
fn language_names() {
    assert_eq!(Language::Python.name(), "python");
    assert_eq!(Language::TypeScript.name(), "typescript");
    assert_eq!(Language::Rust.name(), "rust");
    assert_eq!(Language::Cpp.name(), "cpp");
    assert_eq!(Language::Golang.name(), "golang");
    assert_eq!(Language::Java.name(), "java");
}

#[test]
fn paths_and_uris() {
    assert_eq!(to_absolute("/ws", "src/main.py"), "/ws/src/main.py");
    assert_eq!(file_uri("/ws/src/main.py"), "file:///ws/src/main.py");
    assert_eq!(
        to_relative("/ws", "/ws/src/main.py").as_deref(),
        Some("src/main.py")
    );
    assert_eq!(to_relative("/ws", "/elsewhere/main.py"), None);
    assert_eq!(to_relative("/ws", "/ws"), None);
    assert!(str_eq("abc", "abc"));
    assert!(!str_eq("abc", "abd"));
    assert!(!str_eq("abc", "ab"));
}

#[test]
fn registry_holds_one_client_per_language() {
    let documents = WorkspaceDocumentsHandler::new(
        "/ws",
        python_file_patterns(),
        default_exclude_patterns(),
    );
    let mut manager = Manager::new("/ws", documents);
    assert_eq!(manager.backend_index(Language::Python), None);

    let first = manager.ensure_backend(Language::Python);
    let again = manager.ensure_backend(Language::Python);
    assert_eq!(first, again);
    assert_eq!(manager.backends.len(), 1);
    assert_eq!(manager.backends[0].0, Language::Python);

    let ts = manager.ensure_backend(Language::TypeScript);
    assert_ne!(ts, first);
    assert_eq!(manager.backends.len(), 2);
    assert_eq!(manager.backend_index(Language::Python), Some(first));
}

#[test]
fn root_detection_walks_upward() {
    assert_eq!(parent_dir("a/b/c.py").as_deref(), Some("a/b"));
    assert_eq!(parent_dir("a/b").as_deref(), Some("a"));
    assert_eq!(parent_dir("main.py"), None);

    // Nearest ancestor first: a/b has no marker, a has one.
    assert_eq!(nearest_marked_ancestor(&vec![false, true, false]), Some(1));
    assert_eq!(nearest_marked_ancestor(&vec![false, false]), None);
    assert_eq!(nearest_marked_ancestor(&vec![]), None);
}

#[test]
fn matcher_fallback_on_empty_or_absent_backend() {
    assert!(should_fall_back_to_matcher(&None));
    assert!(should_fall_back_to_matcher(&Some(vec![])));
    let sym = Symbol {
        name: "graph".to_string(),
        kind: "variable".to_string(),
        identifier_position: FilePosition {
            path: "main.py".to_string(),
            position: Position::new(5, 0),
        },
        range: FileRange {
            path: "main.py".to_string(),
            start: Position::new(5, 0),
            end: Position::new(5, 20),
        },
    };
    assert!(!should_fall_back_to_matcher(&Some(vec![sym])));
}

#[test]
fn default_patterns_are_the_stock_lists() {
    assert_eq!(python_file_patterns(), vec!["**/*.py".to_string()]);
    assert_eq!(
        default_exclude_patterns(),
        vec![
            "**/node_modules".to_string(),
            "**/__pycache__".to_string(),
            "**/.*".to_string(),
            "**/dist".to_string(),
            "**/target".to_string(),
            "**/build".to_string(),
            ".git".to_string(),
        ]
    );
}

#[test]
fn frames_carry_the_exact_length_header() {
    assert_eq!(
        encode_frame("{\"jsonrpc\":\"2.0\"}"),
        "Content-Length: 17\r\n\r\n{\"jsonrpc\":\"2.0\"}"
    );
    assert_eq!(encode_frame(""), "Content-Length: 0\r\n\r\n");
}

#[test]
fn digit_strings_parse_back() {
    assert_eq!(parse_digits("0"), Some(0));
    assert_eq!(parse_digits("123"), Some(123));
    assert_eq!(parse_digits("18446744073709551615"), Some(u64::MAX));
    assert_eq!(parse_digits("18446744073709551616"), None);
    assert_eq!(parse_digits(""), None);
    assert_eq!(parse_digits("12a"), None);
    assert_eq!(parse_digits("-3"), None);
}

#[test]
fn content_length_header_parses_and_rejects() {
    assert_eq!(header_content_length("Content-Length: 42"), Ok(42));
    assert_eq!(header_content_length("Content-Length: 0"), Ok(0));
    assert_eq!(
        header_content_length("Content-Type: application/vscode-jsonrpc"),
        Err(LspProxyError::ProtocolError)
    );
    assert_eq!(
        header_content_length("Content-Length: abc"),
        Err(LspProxyError::ProtocolError)
    );
    assert_eq!(
        header_content_length("Content-Length: "),
        Err(LspProxyError::ProtocolError)
    );
    assert_eq!(
        LspProxyError::ProtocolError.kind_name(),
        "protocol error"
    );
}

#[test]
fn header_block_scans_to_the_body_length() {
    let mut scanner = HeaderScanner::new();
    assert_eq!(scanner.feed_line("Content-Length: 93"), Ok(None));
    assert_eq!(
        scanner.feed_line("Content-Type: application/vscode-jsonrpc; charset=utf-8"),
        Ok(None)
    );
    assert_eq!(scanner.feed_line(""), Ok(Some(93)));

    // A block that ends without any Content-Length is malformed.
    let mut empty = HeaderScanner::new();
    assert_eq!(empty.feed_line("Content-Type: x"), Ok(None));
    assert_eq!(empty.feed_line(""), Err(LspProxyError::ProtocolError));

    // So is a Content-Length whose value is not a decimal.
    let mut bad = HeaderScanner::new();
    assert_eq!(
        bad.feed_line("Content-Length: twelve"),
        Err(LspProxyError::ProtocolError)
    );
}

#[test]
fn unknown_extension_is_not_supported() {
    let documents = WorkspaceDocumentsHandler::new("/ws", vec![], vec![]);
    let mut manager = Manager::new("/ws", documents);
    assert_eq!(
        manager.backend_for_path("notes.txt"),
        Err(LspProxyError::NotSupported)
    );
    assert_eq!(LspProxyError::NotSupported.kind_name(), "not supported");

    let idx = manager.backend_for_path("src/main.rs").unwrap();
    assert_eq!(manager.backends[idx].0, Language::Rust);
    assert_eq!(manager.backend_for_path("lib.rs"), Ok(idx));
}

#[test]
fn message_kinds_follow_the_fields() {
    assert_eq!(classify_message(true, true, false, false), MessageKind::Request);
    assert_eq!(
        classify_message(true, false, false, false),
        MessageKind::Notification
    );
    assert_eq!(
        classify_message(false, true, true, false),
        MessageKind::Response
    );
    assert_eq!(
        classify_message(false, true, false, true),
        MessageKind::Response
    );
    assert_eq!(classify_message(false, true, false, false), MessageKind::Invalid);
    assert_eq!(classify_message(false, false, false, false), MessageKind::Invalid);
}
