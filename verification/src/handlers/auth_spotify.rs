//! Linking a Spotify account to a signed-in user.
use vstd::prelude::*;
use vstd::string::*;
use crate::auth::SpotifyTokens;
use crate::db::{law_token_write_changes_only_its_user, token_write, tokens_after_write};
use crate::error::AppError;
use crate::time::Timestamp;
use crate::session::AuthSession;

verus! {

/// The query of Spotify's redirect back to the server.
pub struct CallbackParams {
    pub code: String,
    pub state: String,
}

/// Whether the user has linked a Spotify account.
pub struct SpotifyStatusResponse {
    pub linked: bool,
}

/// The user who started the Spotify link that a callback's `state` belongs to (`None` when
/// that state is unknown or expired, which refuses the callback).
pub fn linking_user(user_id: Option<u128>) -> (r: Result<u128, AppError>)
    ensures
        match user_id {
            None => r matches Err(AppError::BadRequest(m)) && m@ == "Invalid or expired OAuth state"@,
            Some(id) => r == Ok::<u128, AppError>(id),
        },
{
    match user_id {
        None => Err(AppError::BadRequest(String::from_str("Invalid or expired OAuth state"))),
        Some(id) => Ok(id),
    }
}

/// Whether the signed-in user has linked Spotify: a refresh token is stored.
pub fn spotify_status(session: AuthSession) -> (r: SpotifyStatusResponse)
    ensures
        r.linked == session.user.spotify_refresh_token is Some,
{
    SpotifyStatusResponse { linked: session.user.spotify_refresh_token.is_some() }
}

/// Spotify link round trip: linking stores the CSRF state `c` for the signed-in user `u`
/// (in the pending states, by state); the callback with state `c` finds `u` there, which
/// [`linking_user`] accepts, consumes the state, and writes the tokens of the code exchange
/// for `u`. Then the pending states are those before, without `c`; `u`'s access token and
/// expiry are the new ones, its refresh token is replaced only when the exchange gave one,
/// and no other user's tokens change.
pub proof fn law_spotify_link_round_trip(
    states: Map<Seq<char>, u128>,
    c: Seq<char>,
    u: u128,
    table: Map<u128, (Option<Seq<char>>, Option<Seq<char>>, Option<Timestamp>)>,
    tokens: SpotifyTokens,
)
    ensures
        ({
            let pending = states.insert(c, u);
            let owner = pending[c];
            let after = tokens_after_write(
                table,
                token_write(owner, tokens.access_token, tokens.refresh_token, tokens.expires_at),
            );
            &&& pending.dom().contains(c)
            &&& owner == u
            &&& pending.remove(c) == states.remove(c)
            &&& after.dom() == table.dom()
            &&& forall|other: u128| other != u && #[trigger] table.dom().contains(other) ==> after[other] == table[other]
            &&& table.dom().contains(u) ==> after[u] == (
                Some(tokens.access_token@),
                match tokens.refresh_token {
                    Some(rt) => Some(rt@),
                    None => table[u].1,
                },
                Some(tokens.expires_at),
            )
        }),
{
    let pending = states.insert(c, u);
    assert(pending.remove(c) =~= states.remove(c));
    law_token_write_changes_only_its_user(table, u, tokens.access_token, tokens.refresh_token, tokens.expires_at);
}

} // verus!
