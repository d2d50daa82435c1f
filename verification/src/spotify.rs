//! Reading the user's top artists from a Spotify response, and keeping the Spotify access
//! token fresh.
use vstd::prelude::*;
use vstd::string::*;
use crate::auth::{pair_texts, string_pair};
use crate::text::concat_str;
use crate::ticketmaster::text_or;
use crate::time::{instant_in_range, Timestamp};
use crate::types::Artist;

verus! {

/// An entry of the `items` array of a top-artists response.
pub struct SpotifyArtistItem {
    /// `id`, when it is a string.
    pub id: Option<String>,
    /// `name`, when it is a string.
    pub name: Option<String>,
}

/// The artists that `items` lists, in order; a missing id or name is empty.
pub open spec fn artists_match_items(artists: Seq<Artist>, items: Seq<SpotifyArtistItem>) -> bool {
    &&& artists.len() == items.len()
    &&& forall|i: int|
        0 <= i < items.len() ==> (#[trigger] artists[i]).id@ == text_or(items[i].id, Seq::empty())
            && artists[i].name@ == text_or(items[i].name, Seq::empty())
}

/// The text of `o`, or empty.
pub(crate) fn text_or_empty(o: &Option<String>) -> (r: String)
    ensures
        r@ == text_or(*o, Seq::empty()),
{
    match o {
        Some(s) => s.clone(),
        None => String::new(),
    }
}

/// The user's top artists from the `items` of a Spotify response (`None` when the response
/// has no `items` array); `response_text` is the response, for the error message.
pub fn top_artists_from_items(items: Option<&Vec<SpotifyArtistItem>>, response_text: &str) -> (r:
    Result<Vec<Artist>, String>)
    ensures
        match items {
            None => r matches Err(e) && e@ == "No items in Spotify response: "@ + response_text@,
            Some(v) => r matches Ok(a) && artists_match_items(a@, v@),
        },
        items matches Some(v) ==> r matches Ok(a) && a@.len() == v@.len() && forall|i: int|
            0 <= i < v@.len() ==> (#[trigger] a@[i]).id@ == text_or(v@[i].id, Seq::empty())
                && a@[i].name@ == text_or(v@[i].name, Seq::empty()),
{
    match items {
        None => Err(concat_str("No items in Spotify response: ", response_text)),
        Some(v) => {
            let mut artists: Vec<Artist> = Vec::new();
            let mut i: usize = 0;
            while i < v.len()
                invariant
                    i <= v.len(),
                    artists_match_items(artists@, v@.take(i as int)),
                decreases v.len() - i,
            {
                let item = &v[i];
                artists.push(Artist { id: text_or_empty(&item.id), name: text_or_empty(&item.name) });
                i = i + 1;
            }
            assert(v@.take(v.len() as int) =~= v@);
            Ok(artists)
        },
    }
}

/// Whether an access token that expires at `expires_at` is still good at `now`: it expires
/// more than 60 seconds later.
pub open spec fn token_is_fresh(expires_at: Timestamp, now: Timestamp) -> bool {
    expires_at.nanos_since_epoch() - now.nanos_since_epoch() > 60_000_000_000
}

/// A token is fresh exactly when it expires more than 60 seconds after now: one that has
/// expired, or expires within the minute, is never fresh, and one fresh now was fresh at
/// every earlier instant.
pub proof fn law_token_freshness(expires_at: Timestamp, now: Timestamp, later: Timestamp)
    ensures
        token_is_fresh(expires_at, now) <==> expires_at.nanos_since_epoch() > now.nanos_since_epoch()
            + 60_000_000_000,
        expires_at.nanos_since_epoch() <= now.nanos_since_epoch() + 60_000_000_000 ==> !token_is_fresh(
            expires_at,
            now,
        ),
        now.nanos_since_epoch() <= later.nanos_since_epoch() && token_is_fresh(expires_at, later)
            ==> token_is_fresh(expires_at, now),
{
}

/// The access token to use without asking Spotify: the current one, unless it expires
/// within 60 seconds of `now`, in which case it must be refreshed (`None`).
pub fn usable_access_token(current_access_token: &str, expires_at: Timestamp, now: Timestamp) -> (r:
    Option<String>)
    requires
        expires_at.wf(),
        now.wf(),
    ensures
        r is Some <==> token_is_fresh(expires_at, now),
        r is Some <==> expires_at.nanos_since_epoch() > now.nanos_since_epoch() + 60_000_000_000,
        r matches Some(t) ==> t@ == current_access_token@,
{
    if expires_at.nanos_since(now) > 60_000_000_000 {
        Some(String::from_str(current_access_token))
    } else {
        None
    }
}

/// The fields of a token-refresh response that the server reads.
pub struct RefreshResponse {
    /// `access_token`, when it is a string.
    pub access_token: Option<String>,
    /// `expires_in`, when it is an unsigned integer.
    pub expires_in: Option<u64>,
    /// `refresh_token`, when it is a string.
    pub refresh_token: Option<String>,
}

/// The tokens to store after a refresh.
pub struct RefreshedTokens {
    pub access_token: String,
    /// A new refresh token, when Spotify issued one.
    pub refresh_token: Option<String>,
    pub expires_at: Timestamp,
}

/// `expires_in as i64`: the unsigned value read as a two's-complement signed one.
pub open spec fn as_signed(e: u64) -> int {
    if e <= i64::MAX {
        e as int
    } else {
        e as int - 0x1_0000_0000_0000_0000
    }
}

/// The seconds until a refreshed token expires: `expires_in`, or an hour when absent.
pub open spec fn refresh_lifetime(resp: RefreshResponse) -> int {
    match resp.expires_in {
        Some(e) => as_signed(e),
        None => 3600,
    }
}

/// The seconds until a refreshed token expires, from the response's `expires_in`:
/// `expires_in as i64`, or an hour when absent.
pub fn refresh_lifetime_secs(expires_in: Option<u64>) -> (r: i64)
    ensures
        r == match expires_in {
            Some(e) => as_signed(e),
            None => 3600,
        },
{
    let e: u64 = match expires_in {
        Some(e) => e,
        None => 3600,
    };
    if e <= 0x7FFF_FFFF_FFFF_FFFF {
        e as i64
    } else {
        -((u64::MAX - e) as i64) - 1
    }
}

/// The tokens that a refresh response gives at `now`: its access token, its refresh token if
/// any, and an expiry `expires_in` seconds (an hour when absent) after `now`.
pub fn refreshed_tokens(resp: RefreshResponse, now: Timestamp) -> (r: Result<RefreshedTokens, String>)
    requires
        now.wf(),
        resp.access_token is Some ==> instant_in_range(
            now.nanos_since_epoch() + refresh_lifetime(resp) * 1_000_000_000,
        ),
    ensures
        match resp.access_token {
            None => r matches Err(e) && e@ == "No access_token in refresh response"@,
            Some(a) => r matches Ok(t) && t.access_token@ == a@ && t.refresh_token == resp.refresh_token
                && t.expires_at.wf() && t.expires_at.nanos_since_epoch() == now.nanos_since_epoch()
                + refresh_lifetime(resp) * 1_000_000_000,
        },
{
    let ghost lifetime = refresh_lifetime(resp);
    match resp.access_token {
        None => Err(String::from_str("No access_token in refresh response")),
        Some(access_token) => {
            let secs: i64 = refresh_lifetime_secs(resp.expires_in);
            assert(secs == lifetime);
            let expires_at = now.plus(secs, 0);
            Ok(RefreshedTokens { access_token, refresh_token: resp.refresh_token, expires_at })
        },
    }
}


/// The client credentials that a token refresh needs, from `S_ID` and `S_SECRET` (absent
/// when unset); the first one missing gives the error.
pub fn refresh_credentials(client_id: Option<String>, client_secret: Option<String>) -> (r: Result<
    (String, String),
    String,
>)
    ensures
        match (client_id, client_secret) {
            (None, _) => r matches Err(e) && e@ == "Missing Spotify client ID"@,
            (Some(_), None) => r matches Err(e) && e@ == "Missing Spotify client secret"@,
            (Some(i), Some(s)) => r == Ok::<(String, String), String>((i, s)),
        },
{
    let client_id = match client_id {
        None => return Err(String::from_str("Missing Spotify client ID")),
        Some(v) => v,
    };
    let client_secret = match client_secret {
        None => return Err(String::from_str("Missing Spotify client secret")),
        Some(v) => v,
    };
    Ok((client_id, client_secret))
}

/// The form that refreshes a Spotify access token.
pub fn spotify_refresh_form(refresh_token: &str, client_id: &str, client_secret: &str) -> (r: Vec<
    (String, String),
>)
    ensures
        pair_texts(r@) == seq![
            ("grant_type"@, "refresh_token"@),
            ("refresh_token"@, refresh_token@),
            ("client_id"@, client_id@),
            ("client_secret"@, client_secret@),
        ],
{
    let mut form: Vec<(String, String)> = Vec::new();
    form.push(string_pair("grant_type", "refresh_token"));
    form.push(string_pair("refresh_token", refresh_token));
    form.push(string_pair("client_id", client_id));
    form.push(string_pair("client_secret", client_secret));
    assert(pair_texts(form@) =~= seq![
        ("grant_type"@, "refresh_token"@),
        ("refresh_token"@, refresh_token@),
        ("client_id"@, client_id@),
        ("client_secret"@, client_secret@),
    ]);
    form
}

} // verus!
