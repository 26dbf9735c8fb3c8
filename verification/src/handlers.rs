//! The decisions of the API handlers.  Each handler alternates storage or
//! network work with decisions; the work is done by the caller, and each
//! function here takes what the previous piece of work gave and says what
//! comes next: the next piece of work (its inputs), or the reply.

use vstd::prelude::*;
use crate::auth::{hash_password, password_verdict, verify_password, hashed_password, SALT_LEN};
use crate::index::{count_files, distinct_file_count, unit_count};
use crate::models::{
    AuthResponse, CodebaseResponse, CodeUnitUpload, CreateCodebaseRequest, LoginRequest,
    RegisterRequest, SearchRequest, UploadIndexRequest,
};
use crate::search::{effective_max_results, hits_view, result_limit, text_search, text_search_spec, SearchHit};
use crate::storage::{CodebaseRow, low_u32};
use crate::text::{concat_str, has_prefix, strip_prefix};
use vstd::utf8::encode_utf8;

verus! {

/// Shortest password a registration accepts, in bytes.
pub const MIN_PASSWORD_BYTES: usize = 8;

/// The JSON document a reply carries.
#[derive(Debug)]
pub enum Payload {
    Auth(AuthResponse),
    Codebase(CodebaseResponse),
    Codebases(Vec<CodebaseResponse>),
    Uploaded { file_count: usize, code_unit_count: u32 },
    Hits(Vec<SearchHit>),
}

/// What a handler answers.
#[derive(Debug)]
pub enum Reply {
    /// A JSON document with status 200.
    Json(Payload),
    /// `{"error": message}` with the status.
    JsonError { message: String, status: u16 },
    /// A plain error response with the status.
    TextError { message: String, status: u16 },
    /// A plain body with status 200.
    Text(String),
    /// The handler fails with this message.
    Fail(String),
}

/// The reply is a failure with message `m`.
pub open spec fn fails_with(r: Reply, m: Seq<char>) -> bool {
    r matches Reply::Fail(x) && x@ == m
}

/// The reply is `{"error": m}` with status `status`.
pub open spec fn json_error_with(r: Reply, m: Seq<char>, status: u16) -> bool {
    r matches Reply::JsonError { message, status: s } && message@ == m && s == status
}

/// The reply is a plain error `m` with status `status`.
pub open spec fn text_error_with(r: Reply, m: Seq<char>, status: u16) -> bool {
    r matches Reply::TextError { message, status: s } && message@ == m && s == status
}

/// The reply is the plain body `m`.
pub open spec fn text_with(r: Reply, m: Seq<char>) -> bool {
    r matches Reply::Text(x) && x@ == m
}

/// The failure for a body that is not the expected JSON.
pub fn invalid_json(detail: &str) -> (r: Reply)
    ensures
        fails_with(r, "Invalid JSON: "@ + detail@),
{
    Reply::Fail(concat_str("Invalid JSON: ", detail))
}

/// The token of an `Authorization: Bearer <token>` header.
pub fn bearer_token(header: Option<&str>) -> (r: Option<String>)
    ensures
        r matches Some(t) ==> (header matches Some(h) && has_prefix(h@, "Bearer "@) && t@ == h@.skip(
            "Bearer "@.len() as int,
        )),
        r is None ==> (header matches Some(h) ==> !has_prefix(h@, "Bearer "@)),
{
    match header {
        Some(h) => strip_prefix(h, "Bearer "),
        None => None,
    }
}

/// A header made of `Bearer ` and a token gives that token back.
pub proof fn lemma_bearer_round_trip(token: Seq<char>)
    ensures
        has_prefix("Bearer "@ + token, "Bearer "@),
        ("Bearer "@ + token).skip("Bearer "@.len() as int) == token,
{
    let h = "Bearer "@ + token;
    assert(h.subrange(0, "Bearer "@.len() as int) =~= "Bearer "@);
    assert(h.skip("Bearer "@.len() as int) =~= token);
}

// ---------------------------------------------------------------------
// Registration and login.
// ---------------------------------------------------------------------

/// The length in UTF-8 bytes of a string, as `str::len` reports it.
pub open spec fn byte_len(s: Seq<char>) -> usize {
    encode_utf8(s).len() as usize
}

/// A registration needs an email and a password of at least eight bytes.
pub open spec fn registration_acceptable(request: RegisterRequest) -> bool {
    request.email@.len() > 0 && byte_len(request.password@) >= MIN_PASSWORD_BYTES
}

/// A registration is accepted exactly when its email is not empty and its
/// password is at least eight UTF-8 bytes long; nothing else about either
/// counts.  (A string's byte length always fits in `usize`.)
pub proof fn law_registration_acceptable(request: RegisterRequest)
    requires
        encode_utf8(request.password@).len() <= usize::MAX,
    ensures
        registration_acceptable(request) <==> (request.email@.len() > 0 && encode_utf8(
            request.password@,
        ).len() >= 8),
{
}

/// Two registrations whose emails are both empty or both not, and whose
/// passwords have the same byte length, are both accepted or both refused.
pub proof fn law_registration_depends_on_lengths(a: RegisterRequest, b: RegisterRequest)
    requires
        (a.email@.len() == 0) == (b.email@.len() == 0),
        encode_utf8(a.password@).len() == encode_utf8(b.password@).len(),
    ensures
        registration_acceptable(a) == registration_acceptable(b),
{
}

/// A registration body arrived: the request to go on with (look its email
/// up next), or the reply.
pub fn register_received(body: Result<RegisterRequest, String>) -> (r: Result<RegisterRequest, Reply>)
    ensures
        body is Err ==> (r matches Err(x) && fails_with(x, "Invalid JSON: "@ + body->Err_0@)),
        body is Ok && registration_acceptable(body->Ok_0) ==> r == Ok::<RegisterRequest, Reply>(
            body->Ok_0,
        ),
        body is Ok && body->Ok_0.email@.len() > 0 && 8 <= encode_utf8(body->Ok_0.password@).len()
            <= usize::MAX ==> r == Ok::<RegisterRequest, Reply>(body->Ok_0),
        body is Ok && !registration_acceptable(body->Ok_0) ==> (r matches Err(x) && json_error_with(
            x,
            "Email required, password min 8 chars"@,
            400,
        )),
{
    match body {
        Err(e) => Err(invalid_json(e.as_str())),
        Ok(q) => {
            if q.email.as_str().is_empty() || q.password.as_str().len() < MIN_PASSWORD_BYTES {
                Err(
                    Reply::JsonError {
                        message: "Email required, password min 8 chars".to_owned(),
                        status: 400,
                    },
                )
            } else {
                Ok(q)
            }
        },
    }
}

/// The email was looked up: a taken email ends the registration (draw a
/// salt and an id next otherwise).
pub fn register_email_checked(taken: bool) -> (r: Option<Reply>)
    ensures
        taken ==> (r matches Some(x) && json_error_with(x, "Email already registered"@, 409)),
        !taken ==> r is None,
{
    if taken {
        Some(Reply::JsonError { message: "Email already registered".to_owned(), status: 409 })
    } else {
        None
    }
}

/// A user to store.
#[derive(Debug)]
pub struct NewUser {
    pub id: String,
    pub email: String,
    pub password_hash: String,
}

/// The user a registration stores, with the drawn salt and id: the
/// password is kept only as its salted hash, which the password verifies
/// against.
pub fn register_user(request: RegisterRequest, salt: &[u8; SALT_LEN], id: String) -> (r: NewUser)
    ensures
        r.id == id,
        r.email == request.email,
        r.password_hash@ == hashed_password(request.password@, salt@),
        password_verdict(request.password@, r.password_hash@) == Some(true),
{
    let password_hash = hash_password(request.password.as_str(), salt);
    NewUser { id, email: request.email, password_hash }
}

/// A login needs an email and a password.
pub open spec fn login_acceptable(request: LoginRequest) -> bool {
    request.email@.len() > 0 && request.password@.len() > 0
}

/// A login body arrived: the request to go on with (look the user up next),
/// or the reply.
pub fn login_received(body: Result<LoginRequest, String>) -> (r: Result<LoginRequest, Reply>)
    ensures
        body is Err ==> (r matches Err(x) && fails_with(x, "Invalid JSON: "@ + body->Err_0@)),
        body is Ok && login_acceptable(body->Ok_0) ==> r == Ok::<LoginRequest, Reply>(body->Ok_0),
        body is Ok && !login_acceptable(body->Ok_0) ==> (r matches Err(x) && json_error_with(
            x,
            "Email and password required"@,
            400,
        )),
{
    match body {
        Err(e) => Err(invalid_json(e.as_str())),
        Ok(q) => {
            if q.email.as_str().is_empty() || q.password.as_str().is_empty() {
                Err(
                    Reply::JsonError {
                        message: "Email and password required".to_owned(),
                        status: 400,
                    },
                )
            } else {
                Ok(q)
            }
        },
    }
}

/// The user was looked up by email (id and stored hash): the id of the
/// user the password opens (issue a token next), or the reply.  Unknown
/// email and wrong password get the same answer.
pub fn login_user_found(password: &str, user: Option<(String, String)>) -> (r: Result<String, Reply>)
    ensures
        match user {
            None => r matches Err(x) && json_error_with(x, "Invalid email or password"@, 401),
            Some(u) => match password_verdict(password@, u.1@) {
                None => r matches Err(x) && fails_with(x, "Invalid stored hash"@),
                Some(true) => r == Ok::<String, Reply>(u.0),
                Some(false) => r matches Err(x) && json_error_with(
                    x,
                    "Invalid email or password"@,
                    401,
                ),
            },
        },
{
    match user {
        None => Err(
            Reply::JsonError { message: "Invalid email or password".to_owned(), status: 401 },
        ),
        Some((user_id, stored)) => match verify_password(password, stored.as_str()) {
            Err(m) => Err(Reply::Fail(m)),
            Ok(false) => Err(
                Reply::JsonError { message: "Invalid email or password".to_owned(), status: 401 },
            ),
            Ok(true) => Ok(user_id),
        },
    }
}

/// The session was stored: the reply carries the token, the user id and
/// the email.
pub fn signed_in(token: String, user_id: String, email: String) -> (r: Reply)
    ensures
        r matches Reply::Json(Payload::Auth(a)) && a.token == token && a.user_id == user_id
            && a.email == email,
{
    Reply::Json(Payload::Auth(AuthResponse { token, user_id, email }))
}

/// The reply to a logout, whether or not a session was removed.
pub fn logged_out() -> (r: Reply)
    ensures
        text_with(r, "{}"@),
{
    Reply::Text("{}".to_owned())
}

// ---------------------------------------------------------------------
// Codebases.
// ---------------------------------------------------------------------

/// A codebase request arrived with this `Authorization` header: the token
/// to resolve next, or the failure.
pub fn authenticate(header: Option<&str>) -> (r: Result<String, Reply>)
    ensures
        r matches Ok(t) ==> (header matches Some(h) && has_prefix(h@, "Bearer "@) && t@ == h@.skip(
            "Bearer "@.len() as int,
        )),
        r matches Err(x) ==> fails_with(x, "No Authorization header"@) && (header matches Some(
            h,
        ) ==> !has_prefix(h@, "Bearer "@)),
        r is Err <==> !(header matches Some(h) && has_prefix(h@, "Bearer "@)),
{
    match bearer_token(header) {
        Some(t) => Ok(t),
        None => Err(Reply::Fail("No Authorization header".to_owned())),
    }
}

/// The session store answered for the token: the user, or the failure.
pub fn session_resolved(user_id: Option<String>) -> (r: Result<String, Reply>)
    ensures
        user_id matches Some(u) ==> r == Ok::<String, Reply>(u),
        user_id is None ==> (r matches Err(x) && fails_with(x, "Invalid token"@)),
{
    match user_id {
        Some(u) => Ok(u),
        None => Err(Reply::Fail("Invalid token".to_owned())),
    }
}

/// The codebase id of the route: the id, or the failure.
pub fn codebase_id(param: Option<String>) -> (r: Result<String, Reply>)
    ensures
        param matches Some(i) ==> r == Ok::<String, Reply>(i),
        param is None ==> (r matches Err(x) && fails_with(x, "No id"@)),
{
    match param {
        Some(i) => Ok(i),
        None => Err(Reply::Fail("No id".to_owned())),
    }
}

/// The API views of rows, in order.
pub open spec fn responses_match_rows(r: Seq<CodebaseResponse>, rows: Seq<CodebaseRow>) -> bool {
    &&& r.len() == rows.len()
    &&& forall|i: int|
        0 <= i < rows.len() ==> {
            &&& (#[trigger] r[i]).id@ == rows[i].id@
            &&& r[i].name@ == rows[i].name@
            &&& r[i].root_path@ == rows[i].root_path@
            &&& r[i].file_count == low_u32(rows[i].file_count)
            &&& r[i].code_unit_count == low_u32(rows[i].code_unit_count)
            &&& r[i].last_indexed == rows[i].last_indexed
            &&& r[i].created_at@ == rows[i].created_at@
        }
}

/// The user's codebases were listed: the reply shows each row, in order.
pub fn codebases_listed(rows: Vec<CodebaseRow>) -> (r: Reply)
    ensures
        r matches Reply::Json(Payload::Codebases(v)) && responses_match_rows(v@, rows@),
{
    let mut out: Vec<CodebaseResponse> = Vec::new();
    let n = rows.len();
    for i in 0..n
        invariant
            n == rows@.len(),
            responses_match_rows(out@, rows@.take(i as int)),
    {
        let resp = rows[i].to_response();
        out.push(resp);
        assert forall|j: int| 0 <= j < i + 1 implies #[trigger] rows@.take(i + 1)[j] == rows@[j] by {}
    }
    assert(rows@.take(n as int) =~= rows@);
    Reply::Json(Payload::Codebases(out))
}

/// A codebase needs a name and a root path.
pub open spec fn codebase_request_acceptable(request: CreateCodebaseRequest) -> bool {
    request.name@.len() > 0 && request.root_path@.len() > 0
}

/// A codebase request is accepted exactly when neither its name nor its
/// root path is empty; their contents do not count.
pub proof fn law_codebase_request_acceptable(request: CreateCodebaseRequest)
    ensures
        codebase_request_acceptable(request) <==> (request.name@.len() != 0
            && request.root_path@.len() != 0),
{
}

/// Two codebase requests whose names and root paths are empty or not
/// alike are both accepted or both refused.
pub proof fn law_codebase_request_depends_on_emptiness(
    a: CreateCodebaseRequest,
    b: CreateCodebaseRequest,
)
    requires
        (a.name@.len() == 0) == (b.name@.len() == 0),
        (a.root_path@.len() == 0) == (b.root_path@.len() == 0),
    ensures
        codebase_request_acceptable(a) == codebase_request_acceptable(b),
{
}

/// A create-codebase body arrived: the request to go on with (store the
/// codebase under a new id next), or the reply.
pub fn create_received(body: Result<CreateCodebaseRequest, String>) -> (r: Result<
    CreateCodebaseRequest,
    Reply,
>)
    ensures
        body is Err ==> (r matches Err(x) && fails_with(x, "Invalid JSON: "@ + body->Err_0@)),
        body is Ok && codebase_request_acceptable(body->Ok_0) ==> r == Ok::<
            CreateCodebaseRequest,
            Reply,
        >(body->Ok_0),
        body is Ok && body->Ok_0.name@.len() > 0 && body->Ok_0.root_path@.len() > 0 ==> r == Ok::<
            CreateCodebaseRequest,
            Reply,
        >(body->Ok_0),
        body is Ok && !codebase_request_acceptable(body->Ok_0) ==> (r matches Err(x)
            && text_error_with(x, "Name and root_path required"@, 400)),
{
    match body {
        Err(e) => Err(invalid_json(e.as_str())),
        Ok(q) => {
            if q.name.as_str().is_empty() || q.root_path.as_str().is_empty() {
                Err(
                    Reply::TextError {
                        message: "Name and root_path required".to_owned(),
                        status: 400,
                    },
                )
            } else {
                Ok(q)
            }
        },
    }
}

/// The codebase was stored under `id` at the time `created_at`: the reply
/// shows it, not yet indexed.
pub fn codebase_created(id: String, request: CreateCodebaseRequest, created_at: String) -> (r: Reply)
    ensures
        r matches Reply::Json(Payload::Codebase(c)) && c.id == id && c.name == request.name
            && c.root_path == request.root_path && c.file_count == 0 && c.code_unit_count == 0
            && c.last_indexed is None && c.created_at == created_at,
{
    Reply::Json(
        Payload::Codebase(
            CodebaseResponse {
                id,
                name: request.name,
                root_path: request.root_path,
                file_count: 0,
                code_unit_count: 0,
                last_indexed: None,
                created_at,
            },
        ),
    )
}

/// The reply for a codebase that the user does not own or that does not
/// exist.
pub fn not_found() -> (r: Reply)
    ensures
        text_error_with(r, "Not found"@, 404),
{
    Reply::TextError { message: "Not found".to_owned(), status: 404 }
}

/// The user's codebase was looked up: the reply shows it, or says it is
/// not found.
pub fn codebase_fetched(row: Option<CodebaseRow>) -> (r: Reply)
    ensures
        row is None ==> text_error_with(r, "Not found"@, 404),
        row matches Some(w) ==> (r matches Reply::Json(Payload::Codebase(c))
            && responses_match_rows(seq![c], seq![w])),
{
    match row {
        None => not_found(),
        Some(w) => {
            let c = w.to_response();
            Reply::Json(Payload::Codebase(c))
        },
    }
}

/// The delete ran: `{}` where it removed the codebase, else not found.
pub fn codebase_deleted(removed: bool) -> (r: Reply)
    ensures
        removed ==> text_with(r, "{}"@),
        !removed ==> text_error_with(r, "Not found"@, 404),
{
    if removed {
        Reply::Text("{}".to_owned())
    } else {
        not_found()
    }
}

/// Whether the user's codebase exists: go on (`None`), or the reply.
pub fn codebase_checked(found: bool) -> (r: Option<Reply>)
    ensures
        found ==> r is None,
        !found ==> (r matches Some(x) && text_error_with(x, "Not found"@, 404)),
{
    if found {
        None
    } else {
        Some(not_found())
    }
}

/// An upload body arrived: the request to go on with, or the failure.
pub fn upload_received(body: Result<UploadIndexRequest, String>) -> (r: Result<
    UploadIndexRequest,
    Reply,
>)
    ensures
        body is Err ==> (r matches Err(x) && fails_with(x, "Invalid JSON: "@ + body->Err_0@)),
        body is Ok ==> r == Ok::<UploadIndexRequest, Reply>(body->Ok_0),
{
    match body {
        Err(e) => Err(invalid_json(e.as_str())),
        Ok(q) => Ok(q),
    }
}

/// The code of each unit, in order: the texts to embed.
pub fn embedding_texts(units: &Vec<CodeUnitUpload>) -> (r: Vec<String>)
    ensures
        r@.len() == units@.len(),
        forall|i: int| 0 <= i < units@.len() ==> (#[trigger] r@[i])@ == units@[i].code@,
{
    let mut out: Vec<String> = Vec::new();
    let n = units.len();
    for i in 0..n
        invariant
            n == units@.len(),
            out@.len() == i,
            forall|j: int| 0 <= j < i ==> (#[trigger] out@[j])@ == units@[j].code@,
    {
        out.push(units[i].code.clone());
    }
    out
}

/// Embeddings are kept only where there is one for every unit.
pub fn keep_embeddings(embedding_count: Option<usize>, unit_count: usize) -> (r: bool)
    ensures
        r == (embedding_count == Some(unit_count)),
{
    match embedding_count {
        Some(c) => c == unit_count,
        None => false,
    }
}

/// What an upload records about the index.
#[derive(Debug)]
pub struct UploadStats {
    /// Distinct file paths among the units.
    pub file_count: usize,
    /// Units, as the statistics store them (`as u32`).
    pub code_unit_count: u32,
}

/// The statistics of an uploaded index.
pub fn upload_stats(units: &Vec<CodeUnitUpload>) -> (r: UploadStats)
    ensures
        r.file_count == distinct_file_count(units@),
        r.code_unit_count == units@.len() as u32,
        r.file_count <= units@.len(),
{
    proof {
        crate::index::lemma_files_at_most_units(units@);
    }
    UploadStats { file_count: count_files(units), code_unit_count: unit_count(units) }
}

/// The index was stored and the statistics recorded: the reply reports them.
pub fn index_uploaded(stats: UploadStats) -> (r: Reply)
    ensures
        r matches Reply::Json(Payload::Uploaded { file_count, code_unit_count }) && file_count
            == stats.file_count && code_unit_count == stats.code_unit_count,
{
    Reply::Json(
        Payload::Uploaded {
            file_count: stats.file_count,
            code_unit_count: stats.code_unit_count,
        },
    )
}

/// A search body arrived: the request to go on with, or the failure.
pub fn search_received(body: Result<SearchRequest, String>) -> (r: Result<SearchRequest, Reply>)
    ensures
        body is Err ==> (r matches Err(x) && fails_with(x, "Invalid JSON: "@ + body->Err_0@)),
        body is Ok ==> r == Ok::<SearchRequest, Reply>(body->Ok_0),
{
    match body {
        Err(e) => Err(invalid_json(e.as_str())),
        Ok(q) => Ok(q),
    }
}

/// Why the stored index could not be read.
#[derive(Debug)]
pub enum IndexUnavailable {
    /// No object is stored under the key.
    Missing,
    /// The object has no body.
    NoBody,
    /// Reading or parsing failed with this message.
    Failed(String),
}

/// The stored index could not be read: the failure.
pub fn index_unavailable(why: IndexUnavailable) -> (r: Reply)
    ensures
        why is Missing ==> fails_with(r, "No index - upload first"@),
        why is NoBody ==> fails_with(r, "No body"@),
        why matches IndexUnavailable::Failed(m) ==> fails_with(r, m@),
{
    match why {
        IndexUnavailable::Missing => Reply::Fail("No index - upload first".to_owned()),
        IndexUnavailable::NoBody => Reply::Fail("No body".to_owned()),
        IndexUnavailable::Failed(m) => Reply::Fail(m),
    }
}

/// How a loaded index is searched: by meaning where it carries embeddings
/// and an embedding token is configured, else by text.
pub fn semantic_search_applies(has_embeddings: bool, has_token: bool) -> (r: bool)
    ensures
        r == (has_embeddings && has_token),
{
    has_embeddings && has_token
}

/// The text search over a loaded index answers the request: the hits of
/// `text_search` with the request's limit.
pub fn text_search_reply(units: &Vec<CodeUnitUpload>, request: &SearchRequest) -> (r: Reply)
    ensures
        r matches Reply::Json(Payload::Hits(h)) && hits_view(h@) == text_search_spec(
            units@,
            request.query@,
            result_limit(request.max_results),
        ),
{
    let max = effective_max_results(request.max_results);
    Reply::Json(Payload::Hits(text_search(units, request.query.as_str(), max)))
}

} // verus!
