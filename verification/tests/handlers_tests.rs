use colgrep_cloud::auth::hash_password;
use colgrep_cloud::handlers::{
    authenticate, bearer_token, codebase_checked, codebase_created, codebase_deleted,
    codebase_fetched, codebase_id, codebases_listed, create_received, embedding_texts,
    index_unavailable, index_uploaded, invalid_json, keep_embeddings, logged_out,
    login_received, login_user_found, not_found, register_email_checked, register_received,
    register_user, search_received, semantic_search_applies, session_resolved, signed_in,
    text_search_reply, upload_received, upload_stats, IndexUnavailable, Payload, Reply,
};
use colgrep_cloud::auth::verify_password;
use colgrep_cloud::models::{
    CodeUnitUpload, CreateCodebaseRequest, LoginRequest, RegisterRequest, SearchRequest,
    UploadIndexRequest,
};
use colgrep_cloud::search::MatchKind;
use colgrep_cloud::storage::CodebaseRow;

fn fail_message(r: &Reply) -> Option<&str> {
    match r {
        Reply::Fail(m) => Some(m.as_str()),
        _ => None,
    }
}

fn json_error(r: &Reply) -> Option<(&str, u16)> {
    match r {
        Reply::JsonError { message, status } => Some((message.as_str(), *status)),
        _ => None,
    }
}

fn text_error(r: &Reply) -> Option<(&str, u16)> {
    match r {
        Reply::TextError { message, status } => Some((message.as_str(), *status)),
        _ => None,
    }
}

fn reg(email: &str, password: &str) -> RegisterRequest {
    RegisterRequest { email: email.to_string(), password: password.to_string() }
}

#[test]
fn bearer_tokens() {
    assert_eq!(bearer_token(Some("Bearer abc")), Some("abc".to_string()));
    assert_eq!(bearer_token(Some("Bearer ")), Some(String::new()));
    assert_eq!(bearer_token(Some("Basic abc")), None);
    assert_eq!(bearer_token(Some("bearer abc")), None);
    assert_eq!(bearer_token(None), None);
}

#[test]
fn registration_validation() {
    let r = register_received(Err("expected value".to_string())).unwrap_err();
    assert_eq!(fail_message(&r), Some("Invalid JSON: expected value"));
    let r = register_received(Ok(reg("", "longenough"))).unwrap_err();
    assert_eq!(json_error(&r), Some(("Email required, password min 8 chars", 400)));
    let r = register_received(Ok(reg("a@b.c", "short"))).unwrap_err();
    assert_eq!(json_error(&r), Some(("Email required, password min 8 chars", 400)));
    // three two-byte characters are six bytes: too short
    assert!(register_received(Ok(reg("a@b.c", "ééé"))).is_err());
    // four of them are eight bytes: long enough
    assert!(register_received(Ok(reg("a@b.c", "éééé"))).is_ok());
    assert_eq!(register_received(Ok(reg("a@b.c", "12345678"))).unwrap(), reg("a@b.c", "12345678"));
}

#[test]
fn taken_email_is_refused() {
    let r = register_email_checked(true).unwrap();
    assert_eq!(json_error(&r), Some(("Email already registered", 409)));
    assert!(register_email_checked(false).is_none());
}

#[test]
fn registered_user_can_log_in() {
    let salt = [5u8; 16];
    let user = register_user(reg("a@b.c", "password1"), &salt, "abc123".to_string());
    assert_eq!(user.id, "abc123");
    assert_eq!(user.email, "a@b.c");
    assert_eq!(user.password_hash, hash_password("password1", &salt));
    assert_eq!(verify_password("password1", &user.password_hash), Ok(true));
    let found = Some(("abc123".to_string(), user.password_hash.clone()));
    assert_eq!(login_user_found("password1", found.clone()).unwrap(), "abc123");
    let r = login_user_found("password2", found).unwrap_err();
    assert_eq!(json_error(&r), Some(("Invalid email or password", 401)));
}

#[test]
fn login_validation_and_lookup() {
    let r = login_received(Err("eof".to_string())).unwrap_err();
    assert_eq!(fail_message(&r), Some("Invalid JSON: eof"));
    let r = login_received(Ok(LoginRequest { email: "a".into(), password: "".into() })).unwrap_err();
    assert_eq!(json_error(&r), Some(("Email and password required", 400)));
    let r = login_received(Ok(LoginRequest { email: "".into(), password: "p".into() })).unwrap_err();
    assert_eq!(json_error(&r), Some(("Email and password required", 400)));
    assert!(login_received(Ok(LoginRequest { email: "a".into(), password: "p".into() })).is_ok());
    let r = login_user_found("p", None).unwrap_err();
    assert_eq!(json_error(&r), Some(("Invalid email or password", 401)));
    let r = login_user_found("p", Some(("u".into(), "%%%".into()))).unwrap_err();
    assert_eq!(fail_message(&r), Some("Invalid stored hash"));
}

#[test]
fn sign_in_and_out_replies() {
    match signed_in("t".into(), "u".into(), "e".into()) {
        Reply::Json(Payload::Auth(a)) => {
            assert_eq!((a.token.as_str(), a.user_id.as_str(), a.email.as_str()), ("t", "u", "e"))
        },
        other => panic!("unexpected {:?}", other),
    }
    assert!(matches!(logged_out(), Reply::Text(ref b) if b == "{}"));
    assert_eq!(fail_message(&invalid_json("x")), Some("Invalid JSON: x"));
}

#[test]
fn codebase_routes_need_a_session() {
    assert_eq!(authenticate(Some("Bearer tok")).unwrap(), "tok");
    let r = authenticate(None).unwrap_err();
    assert_eq!(fail_message(&r), Some("No Authorization header"));
    let r = authenticate(Some("Token tok")).unwrap_err();
    assert_eq!(fail_message(&r), Some("No Authorization header"));
    assert_eq!(session_resolved(Some("u1".into())).unwrap(), "u1");
    assert_eq!(fail_message(&session_resolved(None).unwrap_err()), Some("Invalid token"));
    assert_eq!(codebase_id(Some("c1".into())).unwrap(), "c1");
    assert_eq!(fail_message(&codebase_id(None).unwrap_err()), Some("No id"));
}

fn row(id: &str, files: i64) -> CodebaseRow {
    CodebaseRow {
        id: id.to_string(),
        name: format!("name-{}", id),
        root_path: "/r".to_string(),
        file_count: files,
        code_unit_count: 2 * files,
        last_indexed: None,
        created_at: "2024-05-01".to_string(),
    }
}

#[test]
fn listing_shows_rows_in_order() {
    match codebases_listed(vec![row("a", 1), row("b", 2)]) {
        Reply::Json(Payload::Codebases(v)) => {
            assert_eq!(v.len(), 2);
            assert_eq!(v[0].id, "a");
            assert_eq!(v[1].id, "b");
            assert_eq!(v[1].code_unit_count, 4);
            assert_eq!(v[1].name, "name-b");
        },
        other => panic!("unexpected {:?}", other),
    }
    assert!(matches!(codebases_listed(vec![]), Reply::Json(Payload::Codebases(ref v)) if v.is_empty()));
}

#[test]
fn creating_codebases() {
    let r = create_received(Err("bad".into())).unwrap_err();
    assert_eq!(fail_message(&r), Some("Invalid JSON: bad"));
    let r = create_received(Ok(CreateCodebaseRequest { name: "".into(), root_path: "/x".into() }))
        .unwrap_err();
    assert_eq!(text_error(&r), Some(("Name and root_path required", 400)));
    let r = create_received(Ok(CreateCodebaseRequest { name: "n".into(), root_path: "".into() }))
        .unwrap_err();
    assert_eq!(text_error(&r), Some(("Name and root_path required", 400)));
    let q = create_received(Ok(CreateCodebaseRequest { name: "n".into(), root_path: "/x".into() }))
        .unwrap();
    match codebase_created("id9".into(), q, "2024-01-02T00:00:00.000Z".into()) {
        Reply::Json(Payload::Codebase(c)) => {
            assert_eq!(c.id, "id9");
            assert_eq!(c.name, "n");
            assert_eq!(c.root_path, "/x");
            assert_eq!((c.file_count, c.code_unit_count), (0, 0));
            assert_eq!(c.last_indexed, None);
            assert_eq!(c.created_at, "2024-01-02T00:00:00.000Z");
        },
        other => panic!("unexpected {:?}", other),
    }
}

#[test]
fn fetching_and_deleting() {
    assert_eq!(text_error(&codebase_fetched(None)), Some(("Not found", 404)));
    assert_eq!(text_error(&not_found()), Some(("Not found", 404)));
    match codebase_fetched(Some(row("z", 7))) {
        Reply::Json(Payload::Codebase(c)) => {
            assert_eq!(c.id, "z");
            assert_eq!(c.file_count, 7);
        },
        other => panic!("unexpected {:?}", other),
    }
    assert!(matches!(codebase_deleted(true), Reply::Text(ref b) if b == "{}"));
    assert_eq!(text_error(&codebase_deleted(false)), Some(("Not found", 404)));
    assert!(codebase_checked(true).is_none());
    assert_eq!(text_error(&codebase_checked(false).unwrap()), Some(("Not found", 404)));
}

fn unit(path: &str, code: &str) -> CodeUnitUpload {
    CodeUnitUpload {
        file_path: path.to_string(),
        line_number: 3,
        code: code.to_string(),
        unit_type: "function".to_string(),
        language: None,
    }
}

#[test]
fn uploading() {
    let r = upload_received(Err("oops".into())).unwrap_err();
    assert_eq!(fail_message(&r), Some("Invalid JSON: oops"));
    let units = vec![unit("a.rs", "fn a() {}"), unit("a.rs", "fn b() {}"), unit("b.rs", "x")];
    let body = upload_received(Ok(UploadIndexRequest { code_units: units.clone() })).unwrap();
    assert_eq!(body.code_units.len(), 3);
    assert_eq!(embedding_texts(&units), vec!["fn a() {}", "fn b() {}", "x"]);
    assert!(keep_embeddings(Some(3), 3));
    assert!(!keep_embeddings(Some(2), 3));
    assert!(!keep_embeddings(None, 3));
    let stats = upload_stats(&units);
    assert_eq!((stats.file_count, stats.code_unit_count), (2, 3));
    assert!(matches!(
        index_uploaded(stats),
        Reply::Json(Payload::Uploaded { file_count: 2, code_unit_count: 3 })
    ));
}

#[test]
fn searching() {
    let r = search_received(Err("no query".into())).unwrap_err();
    assert_eq!(fail_message(&r), Some("Invalid JSON: no query"));
    let q = search_received(Ok(SearchRequest { query: "Helper".into(), max_results: None })).unwrap();
    assert_eq!(fail_message(&index_unavailable(IndexUnavailable::Missing)), Some("No index - upload first"));
    assert_eq!(fail_message(&index_unavailable(IndexUnavailable::NoBody)), Some("No body"));
    assert_eq!(fail_message(&index_unavailable(IndexUnavailable::Failed("boom".into()))), Some("boom"));
    assert!(semantic_search_applies(true, true));
    assert!(!semantic_search_applies(true, false));
    assert!(!semantic_search_applies(false, true));
    let units = vec![unit("helpers.rs", "fn main() {}"), unit("x.rs", "fn helper() {}")];
    match text_search_reply(&units, &q) {
        Reply::Json(Payload::Hits(h)) => {
            assert_eq!(h.len(), 2);
            assert_eq!(h[0].file_path, "x.rs");
            assert_eq!(h[0].kind, MatchKind::Code);
            assert_eq!(h[1].file_path, "helpers.rs");
            assert_eq!(h[1].kind, MatchKind::Path);
        },
        other => panic!("unexpected {:?}", other),
    }
    let one = SearchRequest { query: "helper".into(), max_results: Some(1) };
    assert!(matches!(text_search_reply(&units, &one), Reply::Json(Payload::Hits(ref h)) if h.len() == 1));
}
