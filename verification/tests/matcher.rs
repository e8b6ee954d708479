use lsproxy::ast_grep::{collect_matches, sort_matches, AstGrepClient, AstGrepMatch};
use lsproxy::errors::LspProxyError;
use lsproxy::{ast_grep::symbols_for_matches, Position, TextRange};

fn range(sl: u32, sc: u32, el: u32, ec: u32) -> TextRange {
    TextRange::new(Position::new(sl, sc), Position::new(el, ec))
}

fn m(name: &str, kind: &str, line: u32, character: u32, ctx: TextRange) -> AstGrepMatch {
    AstGrepMatch {
        text: name.to_string(),
        range: range(line, character, line, character + name.len() as u32),
        name: name.to_string(),
        kind: kind.to_string(),
        context_range: ctx,
    }
}

#[test]
fn test_python_file_symbols() {
    // main.py, lines 5-6:
    //     graph = build_graph()
    //     result, cost = run(graph)
    let reported = vec![
        m("cost", "variable", 6, 8, range(6, 0, 6, 12)),
        m("graph", "variable", 5, 0, range(5, 0, 5, 20)),
        m("result", "variable", 6, 0, range(6, 0, 6, 12)),
    ];
    let matches = collect_matches(true, Some(reported), &String::new()).unwrap();
    let symbols = symbols_for_matches(&matches, &"main.py".to_string());

    assert_eq!(symbols.len(), 3);

    assert_eq!(symbols[0].name, "graph");
    assert_eq!(symbols[0].kind, "variable");
    assert_eq!(symbols[0].identifier_position.path, "main.py");
    assert_eq!(symbols[0].identifier_position.position, Position::new(5, 0));
    assert_eq!(symbols[0].range.path, "main.py");
    assert_eq!(symbols[0].range.start, Position::new(5, 0));
    assert_eq!(symbols[0].range.end, Position::new(5, 20));

    assert_eq!(symbols[1].name, "result");
    assert_eq!(symbols[1].identifier_position.position, Position::new(6, 0));
    assert_eq!(symbols[1].range.start, Position::new(6, 0));
    assert_eq!(symbols[1].range.end, Position::new(6, 12));

    assert_eq!(symbols[2].name, "cost");
    assert_eq!(symbols[2].identifier_position.position, Position::new(6, 8));
    assert_eq!(symbols[2].range.start, Position::new(6, 0));
    assert_eq!(symbols[2].range.end, Position::new(6, 12));
}

#[test]
fn matches_come_back_sorted_by_line_then_character() {
    let items = vec![
        m("d", "variable", 9, 2, range(9, 0, 9, 9)),
        m("a", "method", 1, 7, range(1, 0, 2, 0)),
        m("c", "enum", 9, 0, range(9, 0, 9, 9)),
        m("b", "variable", 4, 0, range(4, 0, 4, 5)),
    ];
    let sorted = sort_matches(items);
    let keys: Vec<(u32, u32)> = sorted
        .iter()
        .map(|s| (s.range.start.line, s.range.start.character))
        .collect();
    assert_eq!(keys, vec![(1, 7), (4, 0), (9, 0), (9, 2)]);
}

#[test]
fn failed_matcher_run_reports_stderr() {
    let err = collect_matches(false, None, &"sg: no such file".to_string()).unwrap_err();
    assert_eq!(
        err,
        LspProxyError::MatcherFailed {
            stderr: "sg: no such file".to_string()
        }
    );
    assert_eq!(err.kind_name(), "matcher failed");
}

#[test]
fn unparsable_matcher_output_is_invalid() {
    let err = collect_matches(true, None, &String::new()).unwrap_err();
    assert_eq!(err, LspProxyError::MatcherOutputInvalid);
}

#[test]
fn create_dynamic_rule_builds_the_three_rules() {
    let rule = AstGrepClient::create_dynamic_rule("run");
    let expected = "\nid: variable\nlanguage: java\nrule:\n  kind: identifier\n  pattern: $NAME\n  inside:\n    kind: variable_declarator\n    pattern: $CONTEXT\n    regex: run\n\n---\n\nid: method\nlanguage: java\nrule:\n  kind: identifier\n  pattern: $NAME\n  inside:\n    kind: method_declaration\n    pattern: $CONTEXT\n    regex: run\n---\n\nid: enum\nlanguage: java\nrule:\n  kind: identifier\n  pattern: $NAME\n  inside:\n    kind: enum_constant\n    pattern: $CONTEXT\n    regex: run\n        ";
    assert_eq!(rule, expected);
}

#[test]
fn client_keeps_its_config_path() {
    let client = AstGrepClient {
        config_path: "/etc/sgconfig.yml".to_string(),
    };
    assert_eq!(client.config_path, "/etc/sgconfig.yml");
}
