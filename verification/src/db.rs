//! What the writes to the `users` table change.
use vstd::prelude::*;
use crate::time::Timestamp;

verus! {

/// A write of a user's Spotify tokens.
pub enum SpotifyTokenUpdate {
    /// Store a new access token, its expiry and a new refresh token.
    WithRefreshToken { user_id: u128, access_token: String, refresh_token: String, expires_at: Timestamp },
    /// Store a new access token and its expiry, keeping the stored refresh token.
    AccessTokenOnly { user_id: u128, access_token: String, expires_at: Timestamp },
}

/// The refresh token stored after a write, given the one stored before.
pub open spec fn refresh_token_after(stored: Option<Seq<char>>, u: SpotifyTokenUpdate) -> Option<Seq<char>> {
    match u {
        SpotifyTokenUpdate::WithRefreshToken { refresh_token, .. } => Some(refresh_token@),
        SpotifyTokenUpdate::AccessTokenOnly { .. } => stored,
    }
}

/// The write that stores the given tokens for a user: with the refresh token when there is
/// one, else without.
pub open spec fn token_write(user_id: u128, access_token: String, refresh_token: Option<String>, expires_at: Timestamp) -> SpotifyTokenUpdate {
    match refresh_token {
        Some(rt) => SpotifyTokenUpdate::WithRefreshToken { user_id, access_token, refresh_token: rt, expires_at },
        None => SpotifyTokenUpdate::AccessTokenOnly { user_id, access_token, expires_at },
    }
}

/// The user whose row a write changes.
pub open spec fn write_user(u: SpotifyTokenUpdate) -> u128 {
    match u {
        SpotifyTokenUpdate::WithRefreshToken { user_id, .. } => user_id,
        SpotifyTokenUpdate::AccessTokenOnly { user_id, .. } => user_id,
    }
}

/// The access token a write stores.
pub open spec fn write_access_token(u: SpotifyTokenUpdate) -> Seq<char> {
    match u {
        SpotifyTokenUpdate::WithRefreshToken { access_token, .. } => access_token@,
        SpotifyTokenUpdate::AccessTokenOnly { access_token, .. } => access_token@,
    }
}

/// The expiry a write stores.
pub open spec fn write_expiry(u: SpotifyTokenUpdate) -> Timestamp {
    match u {
        SpotifyTokenUpdate::WithRefreshToken { expires_at, .. } => expires_at,
        SpotifyTokenUpdate::AccessTokenOnly { expires_at, .. } => expires_at,
    }
}

/// The Spotify columns of the `users` table, by user id: access token, refresh token and
/// expiry.
pub open spec fn tokens_after_write(
    table: Map<u128, (Option<Seq<char>>, Option<Seq<char>>, Option<Timestamp>)>,
    u: SpotifyTokenUpdate,
) -> Map<u128, (Option<Seq<char>>, Option<Seq<char>>, Option<Timestamp>)> {
    let id = write_user(u);
    if table.dom().contains(id) {
        table.insert(
            id,
            (Some(write_access_token(u)), refresh_token_after(table[id].1, u), Some(write_expiry(u))),
        )
    } else {
        table
    }
}

/// The write that stores new Spotify tokens for a user: the refresh token is only
/// overwritten when a new one is provided (Spotify only re-issues refresh tokens
/// occasionally).
pub fn spotify_token_update(user_id: u128, access_token: String, refresh_token: Option<String>, expires_at: Timestamp) -> (r: SpotifyTokenUpdate)
    ensures
        r == token_write(user_id, access_token, refresh_token, expires_at),
{
    match refresh_token {
        Some(refresh_token) => SpotifyTokenUpdate::WithRefreshToken { user_id, access_token, refresh_token, expires_at },
        None => SpotifyTokenUpdate::AccessTokenOnly { user_id, access_token, expires_at },
    }
}

/// A stored refresh token survives a token write that brings none, and is replaced by the
/// one a write brings.
pub proof fn law_refresh_token_kept_unless_replaced(
    stored: Option<Seq<char>>,
    user_id: u128,
    access_token: String,
    refresh_token: Option<String>,
    expires_at: Timestamp,
    u: SpotifyTokenUpdate,
)
    requires
        u == token_write(user_id, access_token, refresh_token, expires_at),
    ensures
        refresh_token_after(stored, u) == match refresh_token {
            Some(rt) => Some(rt@),
            None => stored,
        },
{
}

/// A token write changes the row of its user alone: that user's access token and expiry
/// become the written ones, the refresh token is replaced only when one is written, and every
/// other row stays as it was (a write for an unknown user changes nothing).
pub proof fn law_token_write_changes_only_its_user(
    table: Map<u128, (Option<Seq<char>>, Option<Seq<char>>, Option<Timestamp>)>,
    user_id: u128,
    access_token: String,
    refresh_token: Option<String>,
    expires_at: Timestamp,
)
    ensures
        ({
            let after = tokens_after_write(table, token_write(user_id, access_token, refresh_token, expires_at));
            &&& after.dom() == table.dom()
            &&& forall|other: u128| other != user_id && #[trigger] table.dom().contains(other) ==> after[other] == table[other]
            &&& table.dom().contains(user_id) ==> after[user_id] == (
                Some(access_token@),
                match refresh_token {
                    Some(rt) => Some(rt@),
                    None => table[user_id].1,
                },
                Some(expires_at),
            )
        }),
{
    let after = tokens_after_write(table, token_write(user_id, access_token, refresh_token, expires_at));
    if table.dom().contains(user_id) {
        assert(after.dom() =~= table.dom());
    }
}

} // verus!
