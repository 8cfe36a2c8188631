//! Records and requests of the API-key service.
use vstd::prelude::*;

verus! {

/// A registered user.
#[derive(Debug, Clone)]
pub struct User {
    pub id: String,
    pub email: String,
    pub name: String,
    /// Argon2 PHC string; never sent back to clients.
    pub password_hash: String,
    pub tier: String,
    pub created_at: String,
    pub updated_at: String,
}

/// A stored API key record (the key itself is never stored).
#[derive(Debug, Clone)]
pub struct ApiKey {
    pub id: String,
    pub user_id: String,
    pub name: String,
    /// HMAC of the key; never sent back to clients.
    pub key_hash: String,
    pub prefix: String,
    pub last_four: String,
    pub environment: String,
    pub status: String,
    pub lineage_id: String,
    pub created_at: String,
    pub expires_at: Option<String>,
    pub last_used_at: Option<String>,
    pub revoked_at: Option<String>,
}

/// A permission of a key on a service.
#[derive(Debug, Clone)]
pub struct KeyScope {
    pub id: i64,
    pub key_id: String,
    pub service: String,
    pub permission: String,
}

/// A freshly created key: its record and, once, the full secret.
#[derive(Debug)]
pub struct CreatedKey {
    pub key: ApiKey,
    pub secret: String,
}

/// Claims of an issued token.
#[derive(Debug, Clone)]
pub struct Claims {
    /// User id.
    pub sub: String,
    pub email: String,
    /// Expiry, seconds since the epoch.
    pub exp: u64,
}

/// Request to create a key.
#[derive(Debug)]
pub struct CreateKeyRequest {
    pub name: String,
    /// Environment tag of the key; `"live"` when the request leaves it out.
    pub environment: String,
    pub expires_at: Option<String>,
}

/// A key that passed validation.
#[derive(Debug)]
pub struct ValidatedKey {
    pub key_id: String,
    pub user_id: String,
    pub environment: String,
}

/// Request to register a user.
#[derive(Debug)]
pub struct RegisterRequest {
    pub email: String,
    pub name: String,
    pub password: String,
}

/// Answer to registration and login: a token and the user.
#[derive(Debug)]
pub struct AuthResponse {
    pub token: String,
    pub user: User,
}

/// Request to log in.
#[derive(Debug)]
pub struct LoginRequest {
    pub email: String,
    pub password: String,
}

/// Errors the service answers requests with.
#[derive(Debug)]
pub enum AppError {
    BadRequest(String),
    Unauthorized,
    NotFound,
    Conflict(String),
    Internal(String),
}

} // verus!
