use vstd::prelude::*;

pub mod text;
pub mod cookies;
pub mod error;
pub mod time;
pub mod types;
pub mod ticketmaster;
pub mod spotify;
pub mod auth;
pub mod session;
pub mod handlers;
pub mod db;
pub mod desktop;

verus! {
} // verus!
