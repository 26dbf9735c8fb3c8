use colgrep_cloud::models::CodeUnitUpload;
use colgrep_cloud::search::{effective_max_results, text_search, MatchKind, DEFAULT_MAX_RESULTS, MAX_RESULTS_CAP};

fn unit(path: &str, line: u32, code: &str) -> CodeUnitUpload {
    CodeUnitUpload {
        file_path: path.to_string(),
        line_number: line,
        code: code.to_string(),
        unit_type: "function".to_string(),
        language: Some("rust".to_string()),
    }
}

fn sample() -> Vec<CodeUnitUpload> {
    vec![
        unit("src/parser.rs", 1, "fn tokenize() {}"),
        unit("src/Main.rs", 5, "fn run() { Parse(); }"),
        unit("src/main.rs", 9, "fn parse_args() {}"),
        unit("src/parse_util.rs", 2, "fn helper() {}"),
        unit("lib.rs", 3, "struct Other;"),
    ]
}

#[test]
fn code_matches_rank_before_path_matches() {
    let hits = text_search(&sample(), "PARSE", 10);
    let got: Vec<(String, u32, MatchKind)> =
        hits.iter().map(|h| (h.file_path.clone(), h.line_number, h.kind)).collect();
    assert_eq!(
        got,
        vec![
            ("src/Main.rs".to_string(), 5, MatchKind::Code),
            ("src/main.rs".to_string(), 9, MatchKind::Code),
            ("src/parser.rs".to_string(), 1, MatchKind::Path),
            ("src/parse_util.rs".to_string(), 2, MatchKind::Path),
        ]
    );
    assert_eq!(hits[0].snippet, "fn run() { Parse(); }");
}

#[test]
fn results_are_limited() {
    let hits = text_search(&sample(), "parse", 3);
    assert_eq!(hits.len(), 3);
    assert_eq!(hits[2].kind, MatchKind::Path);
    assert_eq!(hits[2].file_path, "src/parser.rs");
    assert!(text_search(&sample(), "parse", 0).is_empty());
}

#[test]
fn no_match_gives_nothing() {
    assert!(text_search(&sample(), "zebra", 10).is_empty());
    assert!(text_search(&[].to_vec(), "x", 10).is_empty());
}

#[test]
fn empty_query_matches_every_code() {
    let hits = text_search(&sample(), "", 50);
    assert_eq!(hits.len(), 5);
    assert!(hits.iter().all(|h| h.kind == MatchKind::Code));
}

#[test]
fn result_limits() {
    assert_eq!(DEFAULT_MAX_RESULTS, 15);
    assert_eq!(MAX_RESULTS_CAP, 50);
    assert_eq!(effective_max_results(None), 15);
    assert_eq!(effective_max_results(Some(3)), 3);
    assert_eq!(effective_max_results(Some(50)), 50);
    assert_eq!(effective_max_results(Some(1000)), 50);
    assert_eq!(effective_max_results(Some(0)), 0);
}
