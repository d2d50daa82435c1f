//! The signed-in user's profile.
use vstd::prelude::*;
use crate::auth::{uuid_string, uuid_text};
use crate::error::AppError;
use crate::session::AuthSession;

verus! {

/// The profile of the signed-in user.
pub struct MeResponse {
    pub id: String,
    pub username: Option<String>,
    pub display_name: String,
    pub email: Option<String>,
    pub spotify_linked: bool,
}

/// The profile of the signed-in user; it always succeeds.
pub fn me(session: AuthSession) -> (r: Result<MeResponse, AppError>)
    ensures
        r matches Ok(p) && p.id@ == uuid_text(session.user.id) && p.username
            == session.user.username && p.display_name == session.user.display_name && p.email
            == session.user.email && p.spotify_linked == session.user.spotify_refresh_token is Some,
{
    let user = session.user;
    Ok(MeResponse {
        id: uuid_string(user.id),
        username: user.username,
        display_name: user.display_name,
        email: user.email,
        spotify_linked: user.spotify_refresh_token.is_some(),
    })
}

} // verus!
