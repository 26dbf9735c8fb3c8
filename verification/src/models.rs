//! Request and response models of the service API.

use vstd::prelude::*;

verus! {

/// Body of a registration request.
#[derive(Debug, Clone, PartialEq, Eq)]
pub struct RegisterRequest {
    pub email: String,
    pub password: String,
}

/// Body of a login request.
#[derive(Debug, Clone, PartialEq, Eq)]
pub struct LoginRequest {
    pub email: String,
    pub password: String,
}

/// Answer to a successful registration or login.
#[derive(Debug, Clone, PartialEq, Eq)]
pub struct AuthResponse {
    pub token: String,
    pub user_id: String,
    pub email: String,
}

/// Body of a request that creates a codebase.
#[derive(Debug, Clone, PartialEq, Eq)]
pub struct CreateCodebaseRequest {
    pub name: String,
    pub root_path: String,
}

/// A codebase as the API shows it.
#[derive(Debug, Clone, PartialEq, Eq)]
pub struct CodebaseResponse {
    pub id: String,
    pub name: String,
    pub root_path: String,
    pub file_count: u32,
    pub code_unit_count: u32,
    pub last_indexed: Option<String>,
    pub created_at: String,
}

/// One indexed unit of code.
#[derive(Debug, Clone, PartialEq, Eq)]
pub struct CodeUnitUpload {
    pub file_path: String,
    pub line_number: u32,
    pub code: String,
    pub unit_type: String,
    pub language: Option<String>,
}

/// Body of an index upload.
#[derive(Debug, Clone, PartialEq, Eq)]
pub struct UploadIndexRequest {
    pub code_units: Vec<CodeUnitUpload>,
}

/// Body of a search request.
#[derive(Debug, Clone, PartialEq, Eq)]
pub struct SearchRequest {
    pub query: String,
    pub max_results: Option<u32>,
}

} // verus!
