//! API-key service logic: key hashing and verification, key generation,
//! password hashing, key validation against stored candidates, request
//! checks and the service configuration.
pub mod auth;
pub mod config;
pub mod handlers;
pub mod models;
