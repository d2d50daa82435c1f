//! Spotify sign-in for the desktop app: client settings and the check of the browser's
//! redirect to the local callback.
use vstd::prelude::*;
use vstd::string::*;
use crate::auth::{oauth_config_from, SpotifyOAuthConfig};
use crate::text::{chars_eq, chars_of, concat_str, split_whitespace, string_of, vec_views, words};

verus! {

/// The Spotify client settings from `S_ID`, `S_SECRET` and `S_REDIRECT_URI` (absent when
/// unset), with the desktop app's error messages.
pub fn desktop_oauth_config(client_id: Option<String>, client_secret: Option<String>, redirect_uri:
    Option<String>) -> (r: Result<SpotifyOAuthConfig, String>)
    ensures
        match (client_id, client_secret, redirect_uri) {
            (None, _, _) => r matches Err(e) && e@ == "Missing SPOTIFY_CLIENT_ID"@,
            (Some(_), None, _) => r matches Err(e) && e@ == "Missing SPOTIFY_CLIENT_SECRET"@,
            (Some(_), Some(_), None) => r matches Err(e) && e@ == "Missing SPOTIFY_REDIRECT_URI"@,
            (Some(i), Some(s), Some(u)) => r matches Ok(c) && c.client_id == i && c.client_secret
                == s && c.redirect_uri == u,
        },
{
    oauth_config_from(
        client_id,
        client_secret,
        redirect_uri,
        "Missing SPOTIFY_CLIENT_ID",
        "Missing SPOTIFY_CLIENT_SECRET",
        "Missing SPOTIFY_REDIRECT_URI",
    )
}

/// What `Url::parse` then `query_pairs` of the `url` crate give for a string: the decoded
/// name/value pairs of its query, in order, or the parse error's message.
pub uninterp spec fn url_query_pairs_of(url: Seq<char>) -> Result<Seq<(Seq<char>, Seq<char>)>, Seq<char>>;

/// The text of a vector of string pairs.
pub open spec fn string_pairs_view(ps: Seq<(String, String)>) -> Seq<(Seq<char>, Seq<char>)> {
    ps.map_values(|p: (String, String)| (p.0@, p.1@))
}

/// `Url::parse` then `query_pairs` of the `url` crate: the decoded query pairs of a URL.
/// Claimed: the result is named by [`url_query_pairs_of`]; the error is the parse error's
/// message.
#[verifier::external_body]
fn url_query_pairs(url: &str) -> (r: Result<Vec<(String, String)>, String>)
    ensures
        match url_query_pairs_of(url@) {
            Ok(ps) => r matches Ok(v) && string_pairs_view(v@) == ps,
            Err(m) => r matches Err(e) && e@ == m,
        },
{
    match url::Url::parse(url) {
        Ok(u) => Ok(u.query_pairs().map(|(k, v)| (k.into_owned(), v.into_owned())).collect()),
        Err(e) => Err(e.to_string()),
    }
}

/// The value of the first pair named `name`.
pub open spec fn first_value(ps: Seq<(Seq<char>, Seq<char>)>, name: Seq<char>) -> Option<Seq<char>>
    decreases ps.len(),
{
    if ps.len() == 0 {
        None
    } else if ps[0].0 == name {
        Some(ps[0].1)
    } else {
        first_value(ps.drop_first(), name)
    }
}

/// The value of the first pair named `name`.
fn find_pair(ps: &Vec<(String, String)>, name: &str) -> (r: Option<String>)
    ensures
        match first_value(string_pairs_view(ps@), name@) {
            None => r is None,
            Some(v) => r matches Some(s) && s@ == v,
        },
{
    let target = chars_of(name);
    let ghost all = string_pairs_view(ps@);
    let mut i: usize = 0;
    assert(all.skip(0) =~= all);
    while i < ps.len()
        invariant
            target@ == name@,
            all == string_pairs_view(ps@),
            i <= ps.len(),
            first_value(all.skip(i as int), name@) == first_value(all, name@),
        decreases ps.len() - i,
    {
        let k = chars_of(ps[i].0.as_str());
        assert(all.skip(i as int)[0] == (ps@[i as int].0@, ps@[i as int].1@));
        if chars_eq(&k, &target) {
            return Some(ps[i].1.clone());
        }
        assert(all.skip(i as int).drop_first() =~= all.skip(i + 1));
        i = i + 1;
    }
    None
}

/// What the desktop app makes of the first line of the browser's request to its callback,
/// for the CSRF token it sent: the request target is the second word of the line; read as a
/// path of `http://localhost`, its query must carry `code` and `state`, and `state` must
/// equal the token. Gives the authorization code, or the error.
pub open spec fn callback_outcome(request_line: Seq<char>, csrf: Seq<char>) -> Result<Seq<char>, Seq<char>> {
    let ws = words(request_line);
    if ws.len() < 2 {
        Err("Could not parse redirect URL"@)
    } else {
        match url_query_pairs_of("http://localhost"@ + ws[1]) {
            Err(e) => Err("Failed to parse URL: "@ + e),
            Ok(ps) => query_outcome(ps, csrf),
        }
    }
}

/// What the callback's decoded query pairs give for the CSRF token of the sign-in: the first
/// `code` and the first `state` must be there, and `state` must equal the token.
pub open spec fn query_outcome(ps: Seq<(Seq<char>, Seq<char>)>, csrf: Seq<char>) -> Result<Seq<char>, Seq<char>> {
    match first_value(ps, "code"@) {
        None => Err("No auth code in callback"@),
        Some(code) => match first_value(ps, "state"@) {
            None => Err("No state in callback"@),
            Some(state) => if state == csrf {
                Ok(code)
            } else {
                Err("CSRF token mismatch"@)
            },
        },
    }
}

/// The authorization code of the callback's decoded query pairs, checked against the CSRF
/// token of the sign-in: see [`query_outcome`].
pub fn code_from_query(pairs: &Vec<(String, String)>, csrf: &str) -> (r: Result<String, String>)
    ensures
        match query_outcome(string_pairs_view(pairs@), csrf@) {
            Ok(c) => r matches Ok(s) && s@ == c,
            Err(m) => r matches Err(e) && e@ == m,
        },
{
    let code = match find_pair(pairs, "code") {
        None => return Err(String::from_str("No auth code in callback")),
        Some(c) => c,
    };
    let state = match find_pair(pairs, "state") {
        None => return Err(String::from_str("No state in callback")),
        Some(s) => s,
    };
    let sc = chars_of(state.as_str());
    let cc = chars_of(csrf);
    if !chars_eq(&sc, &cc) {
        return Err(String::from_str("CSRF token mismatch"));
    }
    Ok(code)
}

/// The authorization code that the browser's redirect carries, checked against the CSRF
/// token of the sign-in: see [`callback_outcome`].
pub fn callback_code(request_line: &str, csrf: &str) -> (r: Result<String, String>)
    ensures
        match callback_outcome(request_line@, csrf@) {
            Ok(c) => r matches Ok(s) && s@ == c,
            Err(m) => r matches Err(e) && e@ == m,
        },
{
    let line = chars_of(request_line);
    let ws = split_whitespace(&line);
    if ws.len() < 2 {
        return Err(String::from_str("Could not parse redirect URL"));
    }
    let path = string_of(&ws[1]);
    assert(path@ == words(request_line@)[1]);
    let url = concat_str("http://localhost", path.as_str());
    match url_query_pairs(url.as_str()) {
        Err(e) => Err(concat_str("Failed to parse URL: ", e.as_str())),
        Ok(ps) => code_from_query(&ps, csrf),
    }
}

} // verus!
