//! What the HTTP handlers decide: request checks, error answers and response bodies.
pub mod auth_google;
pub mod auth_password;
pub mod auth_spotify;
pub mod concerts;
pub mod users;
