//! Which Spotify tokens the concert search starts from.
use vstd::prelude::*;
use vstd::string::*;
use crate::error::AppError;
use crate::ticketmaster::text_or;
use crate::time::{instant_in_range, Timestamp};
use crate::types::User;

verus! {

/// The query of a concert search.
pub struct ConcertsParams {
    pub country: String,
}

/// The Spotify tokens of a user, as the concert search uses them.
pub struct SpotifyTokenState {
    pub refresh_token: String,
    /// The stored access token, empty when none is stored.
    pub access_token: String,
    /// When the access token expires; an hour before now when unknown.
    pub expires_at: Timestamp,
}

/// The Spotify tokens a concert search starts from: the user must have linked Spotify; a
/// missing access token is empty and a missing expiry is an hour before `now`, so that the
/// token is refreshed.
pub fn spotify_token_state(user: &User, now: Timestamp) -> (r: Result<SpotifyTokenState, AppError>)
    requires
        now.wf(),
        user.spotify_token_expires_at matches Some(t) ==> t.wf(),
        user.spotify_refresh_token is Some && user.spotify_token_expires_at is None ==> instant_in_range(
            now.nanos_since_epoch() - 3_600_000_000_000,
        ),
    ensures
        match user.spotify_refresh_token {
            None => r matches Err(AppError::Unauthorized(m)) && m@ == "Spotify account not linked"@,
            Some(rt) => r matches Ok(s) && s.refresh_token == rt && s.access_token@ == text_or(
                user.spotify_access_token,
                Seq::empty(),
            ) && s.expires_at.wf() && match user.spotify_token_expires_at {
                Some(t) => s.expires_at == t,
                None => s.expires_at.nanos_since_epoch() == now.nanos_since_epoch() - 3_600_000_000_000,
            },
        },
{
    let refresh_token = match &user.spotify_refresh_token {
        None => return Err(AppError::Unauthorized(String::from_str("Spotify account not linked"))),
        Some(t) => t.clone(),
    };
    let access_token = match &user.spotify_access_token {
        Some(t) => t.clone(),
        None => String::new(),
    };
    let expires_at = match user.spotify_token_expires_at {
        Some(t) => t,
        None => now.plus(-3600, 0),
    };
    Ok(SpotifyTokenState { refresh_token, access_token, expires_at })
}

} // verus!
