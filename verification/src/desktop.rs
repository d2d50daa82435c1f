//! The logic of the desktop app: signing in to Spotify from a local callback and listing
//! concerts of the user's top artists.
pub mod auth;
pub mod spotify;
pub mod ticketmaster;
pub mod types;
