//! Sign-in with Google and linking of Spotify accounts over OAuth: client settings,
//! authorization URLs, and what the token and profile responses give.
use vstd::prelude::*;
use vstd::string::*;
use vstd::utf8::encode_utf8;
use crate::text::is_space;
use crate::ticketmaster::text_or;
use crate::time::{instant_in_range, Timestamp};

verus! {

// ---------------------------------------------------------------------------------------
// UUIDs
// ---------------------------------------------------------------------------------------

/// A lowercase hexadecimal digit.
pub open spec fn hex_lower(d: int) -> char {
    if d < 10 {
        ((48 + d) as u8) as char
    } else {
        ((87 + d) as u8) as char
    }
}

/// The `k`-th of the 32 hexadecimal digits of a 128-bit value, most significant first.
pub open spec fn uuid_nibble(id: u128, k: int) -> int {
    (id as int / vstd::arithmetic::power2::pow2((4 * (31 - k)) as nat) as int) % 16
}

/// How many of the hyphens of a UUID's text come before position `p`.
pub open spec fn hyphens_before(p: int) -> int {
    if p < 8 {
        0
    } else if p < 13 {
        1
    } else if p < 18 {
        2
    } else if p < 23 {
        3
    } else {
        4
    }
}

/// The hyphenated lowercase form of a UUID: 8, 4, 4, 4 and 12 hex digits joined by `-`.
pub open spec fn uuid_text(id: u128) -> Seq<char> {
    Seq::new(
        36,
        |p: int|
            if p == 8 || p == 13 || p == 18 || p == 23 {
                '-'
            } else {
                hex_lower(uuid_nibble(id, p - hyphens_before(p)))
            },
    )
}

/// A version-4 (random) UUID of the RFC 4122 variant: its 13th hexadecimal digit is `4`,
/// and its 17th is one of `8`, `9`, `a` and `b`.
pub open spec fn is_v4_uuid(id: u128) -> bool {
    &&& uuid_nibble(id, 12) == 4
    &&& 8 <= uuid_nibble(id, 16) <= 11
}

/// `Uuid::new_v4`: a random UUID, as its 128-bit value. Claimed, as its source shows (it
/// masks random bits and sets the version and variant): the value is a version-4 UUID of
/// the RFC 4122 variant. The other bits are left open.
#[verifier::external_body]
fn random_uuid() -> (r: u128)
    ensures
        is_v4_uuid(r),
{
    uuid::Uuid::new_v4().as_u128()
}

/// `Uuid::from_u128(id).to_string()`: claimed, as the crate documents for `Display`, to be
/// the hyphenated lowercase form.
#[verifier::external_body]
pub(crate) fn uuid_string(id: u128) -> (r: String)
    ensures
        r@ == uuid_text(id),
{
    uuid::Uuid::from_u128(id).to_string()
}

/// A UUID's text holds no `;` and no white space.
pub proof fn lemma_uuid_text_plain(id: u128)
    ensures
        !uuid_text(id).contains(';'),
        forall|i: int| 0 <= i < uuid_text(id).len() ==> !is_space(#[trigger] uuid_text(id)[i]),
{
    let t = uuid_text(id);
    assert forall|i: int| 0 <= i < t.len() implies t[i] != ';' && !is_space(#[trigger] t[i]) by {
        if !(i == 8 || i == 13 || i == 18 || i == 23) {
            let k = i - hyphens_before(i);
            let d = uuid_nibble(id, k);
            assert(0 <= d < 16);
            assert(t[i] == hex_lower(d));
        }
    }
}

// ---------------------------------------------------------------------------------------
// application/x-www-form-urlencoded
// ---------------------------------------------------------------------------------------

/// A byte that the form encoding leaves as it is.
pub open spec fn form_byte_unchanged(b: u8) -> bool {
    b == 42 || b == 45 || b == 46 || (48 <= b <= 57) || (65 <= b <= 90) || b == 95 || (97 <= b
        <= 122)
}

/// An uppercase hexadecimal digit.
pub open spec fn hex_upper(d: int) -> char {
    if d < 10 {
        ((48 + d) as u8) as char
    } else {
        ((55 + d) as u8) as char
    }
}

/// How the form encoding writes one byte: itself, `+` for a space, else `%XX`.
pub open spec fn form_encode_byte(b: u8) -> Seq<char> {
    if form_byte_unchanged(b) {
        seq![b as char]
    } else if b == 32 {
        seq!['+']
    } else {
        seq!['%', hex_upper(b as int / 16), hex_upper(b as int % 16)]
    }
}

/// The form encoding of a byte string.
pub open spec fn form_encode_bytes(bs: Seq<u8>) -> Seq<char>
    decreases bs.len(),
{
    if bs.len() == 0 {
        Seq::empty()
    } else {
        form_encode_bytes(bs.drop_last()) + form_encode_byte(bs.last())
    }
}

/// The form encoding of the UTF-8 bytes of a string.
pub open spec fn form_encode(s: Seq<char>) -> Seq<char> {
    form_encode_bytes(encode_utf8(s))
}

/// Name/value pairs encoded as `name=value`, joined by `&`.
pub open spec fn form_urlencoded(pairs: Seq<(Seq<char>, Seq<char>)>) -> Seq<char>
    decreases pairs.len(),
{
    if pairs.len() == 0 {
        Seq::empty()
    } else {
        let p = pairs.last();
        let enc = form_encode(p.0) + seq!['='] + form_encode(p.1);
        if pairs.len() == 1 {
            enc
        } else {
            form_urlencoded(pairs.drop_last()) + seq!['&'] + enc
        }
    }
}

/// The text of name/value pairs of strings.
pub open spec fn pair_texts(pairs: Seq<(String, String)>) -> Seq<(Seq<char>, Seq<char>)> {
    pairs.map_values(|p: (String, String)| (p.0@, p.1@))
}

/// `form_urlencoded::Serializer` with `extend_pairs`: claimed to give the pairs in the
/// `application/x-www-form-urlencoded` encoding, as the crate's source shows it.
#[verifier::external_body]
fn form_urlencode(pairs: &Vec<(String, String)>) -> (r: String)
    ensures
        r@ == form_urlencoded(pair_texts(pairs@)),
{
    url::form_urlencoded::Serializer::new(String::new()).extend_pairs(pairs.iter()).finish()
}

/// A name/value pair of strings.
pub(crate) fn string_pair(name: &str, value: &str) -> (r: (String, String))
    ensures
        r.0@ == name@,
        r.1@ == value@,
{
    (String::from_str(name), String::from_str(value))
}

// ---------------------------------------------------------------------------------------
// Google sign-in
// ---------------------------------------------------------------------------------------

/// The endpoint where users sign in with Google.
pub open spec fn google_auth_endpoint() -> Seq<char> {
    "https://accounts.google.com/o/oauth2/v2/auth"@
}

/// The Google sign-in URL for a client, redirect URI and CSRF token.
pub open spec fn google_auth_url_text(client_id: Seq<char>, redirect_uri: Seq<char>, csrf: Seq<
    char,
>) -> Seq<char> {
    google_auth_endpoint() + seq!['?'] + form_urlencoded(
        seq![
            ("client_id"@, client_id),
            ("redirect_uri"@, redirect_uri),
            ("response_type"@, "code"@),
            ("scope"@, "openid email profile"@),
            ("state"@, csrf),
            ("access_type"@, "offline"@),
        ],
    )
}

/// The Google sign-in URL and the CSRF token it carries, for the settings `G_ID` and
/// `G_REDIRECT_URI` (absent when unset). The token is the text of a fresh random
/// version-4 UUID.
pub fn generate_google_auth_url(client_id: Option<String>, redirect_uri: Option<String>) -> (r:
    Result<(String, String), String>)
    ensures
        match (client_id, redirect_uri) {
            (None, _) => r matches Err(e) && e@ == "Missing Google client ID"@,
            (Some(_), None) => r matches Err(e) && e@ == "Missing Google redirect URI"@,
            (Some(id), Some(uri)) => r matches Ok(p) && (exists|v: u128|
                is_v4_uuid(v) && p.1@ == #[trigger] uuid_text(v))
                && p.0@ == google_auth_url_text(id@, uri@, p.1@),
        },
{
    let client_id = match client_id {
        None => return Err(String::from_str("Missing Google client ID")),
        Some(id) => id,
    };
    let redirect_uri = match redirect_uri {
        None => return Err(String::from_str("Missing Google redirect URI")),
        Some(uri) => uri,
    };
    let v = random_uuid();
    let csrf_token = uuid_string(v);
    let mut pairs: Vec<(String, String)> = Vec::new();
    pairs.push(string_pair("client_id", client_id.as_str()));
    pairs.push(string_pair("redirect_uri", redirect_uri.as_str()));
    pairs.push(string_pair("response_type", "code"));
    pairs.push(string_pair("scope", "openid email profile"));
    pairs.push(string_pair("state", csrf_token.as_str()));
    pairs.push(string_pair("access_type", "offline"));
    assert(pair_texts(pairs@) =~= seq![
        ("client_id"@, client_id@),
        ("redirect_uri"@, redirect_uri@),
        ("response_type"@, "code"@),
        ("scope"@, "openid email profile"@),
        ("state"@, csrf_token@),
        ("access_type"@, "offline"@),
    ]);
    let query = form_urlencode(&pairs);
    let mut url = String::from_str("https://accounts.google.com/o/oauth2/v2/auth?");
    proof {
        reveal_strlit("https://accounts.google.com/o/oauth2/v2/auth?");
        reveal_strlit("https://accounts.google.com/o/oauth2/v2/auth");
    }
    assert("https://accounts.google.com/o/oauth2/v2/auth?"@ =~= google_auth_endpoint() + seq!['?']);
    url.append(query.as_str());
    Ok((url, csrf_token))
}

/// The settings that the Google code exchange needs.
pub struct GoogleClientConfig {
    pub client_id: String,
    pub client_secret: String,
    pub redirect_uri: String,
}

/// The Google client settings from `G_ID`, `G_SECRET` and `G_REDIRECT_URI` (absent when
/// unset); the first one missing gives the error.
pub fn google_client_config(client_id: Option<String>, client_secret: Option<String>, redirect_uri:
    Option<String>) -> (r: Result<GoogleClientConfig, String>)
    ensures
        match (client_id, client_secret, redirect_uri) {
            (None, _, _) => r matches Err(e) && e@ == "Missing Google client ID"@,
            (Some(_), None, _) => r matches Err(e) && e@ == "Missing Google client secret"@,
            (Some(_), Some(_), None) => r matches Err(e) && e@ == "Missing Google redirect URI"@,
            (Some(i), Some(s), Some(u)) => r matches Ok(c) && c.client_id == i && c.client_secret
                == s && c.redirect_uri == u,
        },
{
    let client_id = match client_id {
        None => return Err(String::from_str("Missing Google client ID")),
        Some(v) => v,
    };
    let client_secret = match client_secret {
        None => return Err(String::from_str("Missing Google client secret")),
        Some(v) => v,
    };
    let redirect_uri = match redirect_uri {
        None => return Err(String::from_str("Missing Google redirect URI")),
        Some(v) => v,
    };
    Ok(GoogleClientConfig { client_id, client_secret, redirect_uri })
}

/// The form that exchanges a Google authorization code for tokens.
pub fn google_token_form(code: &str, config: &GoogleClientConfig) -> (r: Vec<(String, String)>)
    ensures
        pair_texts(r@) == seq![
            ("code"@, code@),
            ("client_id"@, config.client_id@),
            ("client_secret"@, config.client_secret@),
            ("redirect_uri"@, config.redirect_uri@),
            ("grant_type"@, "authorization_code"@),
        ],
{
    let mut form: Vec<(String, String)> = Vec::new();
    form.push(string_pair("code", code));
    form.push(string_pair("client_id", config.client_id.as_str()));
    form.push(string_pair("client_secret", config.client_secret.as_str()));
    form.push(string_pair("redirect_uri", config.redirect_uri.as_str()));
    form.push(string_pair("grant_type", "authorization_code"));
    assert(pair_texts(form@) =~= seq![
        ("code"@, code@),
        ("client_id"@, config.client_id@),
        ("client_secret"@, config.client_secret@),
        ("redirect_uri"@, config.redirect_uri@),
        ("grant_type"@, "authorization_code"@),
    ]);
    form
}

/// The access token of a Google token response (`access_token`, when a string).
pub fn google_access_token(access_token: Option<String>) -> (r: Result<String, String>)
    ensures
        match access_token {
            None => r matches Err(e) && e@ == "No access_token in Google response"@,
            Some(t) => r == Ok::<String, String>(t),
        },
{
    match access_token {
        None => Err(String::from_str("No access_token in Google response")),
        Some(t) => Ok(t),
    }
}

/// A Google account, as its profile describes it.
pub struct GoogleUser {
    pub google_id: String,
    pub email: String,
    pub display_name: String,
}

/// The Google account of a profile response, from its `sub`, `email` and `name` (each when
/// a string); the email and name are empty when absent, the `sub` is required.
pub fn google_user_from_userinfo(sub: Option<String>, email: Option<String>, name: Option<String>) -> (r:
    Result<GoogleUser, String>)
    ensures
        match sub {
            None => r matches Err(e) && e@ == "No sub in Google userinfo"@,
            Some(s) => r matches Ok(u) && u.google_id@ == s@ && u.email@ == text_or(email, Seq::empty())
                && u.display_name@ == text_or(name, Seq::empty()),
        },
{
    match sub {
        None => Err(String::from_str("No sub in Google userinfo")),
        Some(google_id) => {
            let email = match email {
                Some(e) => e,
                None => String::new(),
            };
            let display_name = match name {
                Some(n) => n,
                None => String::new(),
            };
            Ok(GoogleUser { google_id, email, display_name })
        },
    }
}

// ---------------------------------------------------------------------------------------
// Spotify
// ---------------------------------------------------------------------------------------

/// The Spotify OAuth client settings.
pub struct SpotifyOAuthConfig {
    pub client_id: String,
    pub client_secret: String,
    pub redirect_uri: String,
}

/// The Spotify client settings from three optional values with their own error messages;
/// the first one missing gives its error.
pub fn oauth_config_from(
    client_id: Option<String>,
    client_secret: Option<String>,
    redirect_uri: Option<String>,
    missing_id: &str,
    missing_secret: &str,
    missing_redirect: &str,
) -> (r: Result<SpotifyOAuthConfig, String>)
    ensures
        match (client_id, client_secret, redirect_uri) {
            (None, _, _) => r matches Err(e) && e@ == missing_id@,
            (Some(_), None, _) => r matches Err(e) && e@ == missing_secret@,
            (Some(_), Some(_), None) => r matches Err(e) && e@ == missing_redirect@,
            (Some(i), Some(s), Some(u)) => r matches Ok(c) && c.client_id == i && c.client_secret
                == s && c.redirect_uri == u,
        },
{
    let client_id = match client_id {
        None => return Err(String::from_str(missing_id)),
        Some(v) => v,
    };
    let client_secret = match client_secret {
        None => return Err(String::from_str(missing_secret)),
        Some(v) => v,
    };
    let redirect_uri = match redirect_uri {
        None => return Err(String::from_str(missing_redirect)),
        Some(v) => v,
    };
    Ok(SpotifyOAuthConfig { client_id, client_secret, redirect_uri })
}

/// The Spotify client settings from `S_ID`, `S_SECRET` and `S_REDIRECT_URI` (absent when
/// unset).
pub fn spotify_oauth_config(client_id: Option<String>, client_secret: Option<String>, redirect_uri:
    Option<String>) -> (r: Result<SpotifyOAuthConfig, String>)
    ensures
        match (client_id, client_secret, redirect_uri) {
            (None, _, _) => r matches Err(e) && e@ == "Missing Spotify client ID"@,
            (Some(_), None, _) => r matches Err(e) && e@ == "Missing Spotify client secret"@,
            (Some(_), Some(_), None) => r matches Err(e) && e@ == "Missing Spotify redirect URI"@,
            (Some(i), Some(s), Some(u)) => r matches Ok(c) && c.client_id == i && c.client_secret
                == s && c.redirect_uri == u,
        },
{
    oauth_config_from(
        client_id,
        client_secret,
        redirect_uri,
        "Missing Spotify client ID",
        "Missing Spotify client secret",
        "Missing Spotify redirect URI",
    )
}

/// The endpoint where users authorize Spotify access.
pub open spec fn spotify_auth_endpoint() -> Seq<char> {
    "https://accounts.spotify.com/authorize"@
}

/// The endpoint that issues Spotify tokens.
pub open spec fn spotify_token_endpoint() -> Seq<char> {
    "https://accounts.spotify.com/api/token"@
}

/// Whether `oauth2`'s `AuthUrl::new`, `TokenUrl::new` and `RedirectUrl::new` accept the
/// three URLs (they parse them with `Url::parse`).
pub uninterp spec fn oauth2_urls_parse(auth_url: Seq<char>, token_url: Seq<char>, redirect_uri: Seq<
    char,
>) -> bool;

/// What `Url::parse` of the `url` crate makes of a URL it accepts, written back out
/// (`Url::as_str`): the URL in its normalised form.
pub uninterp spec fn url_serialization_of(url: Seq<char>) -> Seq<char>;

/// The query pairs of an OAuth authorization request, in the order `oauth2` writes them:
/// `response_type=code`, the client, the CSRF state, the redirect URI, and the scope unless
/// it is empty.
pub open spec fn oauth2_auth_query(client_id: Seq<char>, redirect_uri: Seq<char>, scope: Seq<char>, state: Seq<
    char,
>) -> Seq<(Seq<char>, Seq<char>)> {
    seq![
        ("response_type"@, "code"@),
        ("client_id"@, client_id),
        ("state"@, state),
        ("redirect_uri"@, redirect_uri),
    ] + if scope.len() > 0 {
        seq![("scope"@, scope)]
    } else {
        Seq::empty()
    }
}

/// `AuthUrl::new`, `TokenUrl::new` and `RedirectUrl::new` of `oauth2`: whether all three
/// accept their URL. Claimed: the result is named by [`oauth2_urls_parse`].
#[verifier::external_body]
fn oauth2_urls_valid(auth_url: &str, token_url: &str, redirect_uri: &str) -> (r: bool)
    ensures
        r == oauth2_urls_parse(auth_url@, token_url@, redirect_uri@),
{
    oauth2::AuthUrl::new(auth_url.to_string()).is_ok() && oauth2::TokenUrl::new(token_url.to_string()).is_ok()
        && oauth2::RedirectUrl::new(redirect_uri.to_string()).is_ok()
}

/// `CsrfToken::new_random` of `oauth2`: a random CSRF token. Claimed, as its source shows:
/// 16 random bytes in unpadded URL-safe base64, so 22 characters from `A-Z`, `a-z`, `0-9`,
/// `-` and `_`. Which characters is left open.
#[verifier::external_body]
fn oauth2_random_csrf() -> (r: String)
    ensures
        r@.len() == 22,
        forall|i: int|
            0 <= i < r@.len() ==> ('A' <= #[trigger] r@[i] <= 'Z') || ('a' <= r@[i] <= 'z') || (
            '0' <= r@[i] <= '9') || r@[i] == '-' || r@[i] == '_',
{
    oauth2::CsrfToken::new_random().secret().clone()
}

/// `BasicClient::new(..).set_redirect_uri(..).authorize_url(..).add_scope(..).url()` of
/// `oauth2`, with the CSRF token `state`: the authorization URL. Claimed, as `oauth2`'s
/// `AuthorizationRequest::url` and `url`'s `query_pairs_mut` show: the parsed authorization
/// endpoint (named by [`url_serialization_of`]), `?`, and the request's pairs in the
/// `application/x-www-form-urlencoded` encoding; the client secret and the token URL play
/// no part. Requires the three URLs to parse, as `oauth2` panics otherwise when they are
/// unwrapped, and an endpoint without query or fragment.
#[verifier::external_body]
fn oauth2_authorize_url(
    auth_url: &str,
    token_url: &str,
    config: &SpotifyOAuthConfig,
    scope: &str,
    state: &str,
) -> (r: String)
    requires
        oauth2_urls_parse(auth_url@, token_url@, config.redirect_uri@),
        !auth_url@.contains('?'),
        !auth_url@.contains('#'),
    ensures
        r@ == url_serialization_of(auth_url@) + seq!['?'] + form_urlencoded(
            oauth2_auth_query(config.client_id@, config.redirect_uri@, scope@, state@),
        ),
{
    let client = oauth2::basic::BasicClient::new(
        oauth2::ClientId::new(config.client_id.clone()),
        Some(oauth2::ClientSecret::new(config.client_secret.clone())),
        oauth2::AuthUrl::new(auth_url.to_string()).unwrap(),
        Some(oauth2::TokenUrl::new(token_url.to_string()).unwrap()),
    ).set_redirect_uri(oauth2::RedirectUrl::new(config.redirect_uri.clone()).unwrap());
    let state = oauth2::CsrfToken::new(state.to_string());
    let (url, _) = client.authorize_url(|| state).add_scope(oauth2::Scope::new(scope.to_string())).url();
    url.to_string()
}

/// The Spotify authorization URL for a client, redirect URI and CSRF token, asking for the
/// `user-top-read` scope.
pub open spec fn spotify_authorize_url_text(client_id: Seq<char>, redirect_uri: Seq<char>, csrf: Seq<
    char,
>) -> Seq<char> {
    url_serialization_of(spotify_auth_endpoint()) + seq!['?'] + form_urlencoded(
        oauth2_auth_query(client_id, redirect_uri, "user-top-read"@, csrf),
    )
}

/// Whether `oauth2` accepts the Spotify endpoints and a redirect URI.
pub open spec fn spotify_urls_ok(redirect_uri: Seq<char>) -> bool {
    oauth2_urls_parse(spotify_auth_endpoint(), spotify_token_endpoint(), redirect_uri)
}

/// A random CSRF token as `oauth2` makes them: 22 URL-safe base64 characters.
pub open spec fn is_oauth2_csrf(t: Seq<char>) -> bool {
    &&& t.len() == 22
    &&& forall|i: int|
        0 <= i < t.len() ==> ('A' <= #[trigger] t[i] <= 'Z') || ('a' <= t[i] <= 'z') || ('0'
            <= t[i] <= '9') || t[i] == '-' || t[i] == '_'
}

/// The Spotify authorization URL for a client, asking for the `user-top-read` scope, and the
/// fresh CSRF token it carries.
pub fn spotify_authorize(config: &SpotifyOAuthConfig) -> (r: (String, String))
    requires
        spotify_urls_ok(config.redirect_uri@),
    ensures
        is_oauth2_csrf(r.1@),
        r.0@ == spotify_authorize_url_text(config.client_id@, config.redirect_uri@, r.1@),
{
    let csrf = oauth2_random_csrf();
    proof {
        reveal_strlit("https://accounts.spotify.com/authorize");
        let e = spotify_auth_endpoint();
        assert forall|i: int| 0 <= i < e.len() implies e[i] != '?' && e[i] != '#' by {}
    }
    let url = oauth2_authorize_url(
        "https://accounts.spotify.com/authorize",
        "https://accounts.spotify.com/api/token",
        config,
        "user-top-read",
        csrf.as_str(),
    );
    (url, csrf)
}

/// Like [`spotify_authorize`], for any redirect URI: `None` when `oauth2` does not accept the
/// Spotify endpoints or the redirect URI.
pub fn spotify_authorize_checked(config: &SpotifyOAuthConfig) -> (r: Option<(String, String)>)
    ensures
        r is None <==> !spotify_urls_ok(config.redirect_uri@),
        r matches Some(p) ==> is_oauth2_csrf(p.1@) && p.0@ == spotify_authorize_url_text(config.client_id@, config.redirect_uri@, p.1@),
{
    if oauth2_urls_valid(
        "https://accounts.spotify.com/authorize",
        "https://accounts.spotify.com/api/token",
        config.redirect_uri.as_str(),
    ) {
        Some(spotify_authorize(config))
    } else {
        None
    }
}

/// The Spotify authorization URL (for the `user-top-read` scope) and its CSRF token, for the
/// settings `S_ID`, `S_SECRET` and `S_REDIRECT_URI` (absent when unset).
pub fn generate_spotify_auth_url(client_id: Option<String>, client_secret: Option<String>, redirect_uri:
    Option<String>) -> (r: Result<(String, String), String>)
    requires
        redirect_uri matches Some(u) ==> spotify_urls_ok(u@),
    ensures
        match (client_id, client_secret, redirect_uri) {
            (None, _, _) => r matches Err(e) && e@ == "Missing Spotify client ID"@,
            (Some(_), None, _) => r matches Err(e) && e@ == "Missing Spotify client secret"@,
            (Some(_), Some(_), None) => r matches Err(e) && e@ == "Missing Spotify redirect URI"@,
            (Some(i), Some(_), Some(u)) => r matches Ok(p) && is_oauth2_csrf(p.1@) && p.0@
                == spotify_authorize_url_text(i@, u@, p.1@),
        },
{
    let config = spotify_oauth_config(client_id, client_secret, redirect_uri)?;
    Ok(spotify_authorize(&config))
}

/// Like [`generate_spotify_auth_url`], for any redirect URI: `None` when `oauth2` does not
/// accept the Spotify endpoints or the redirect URI.
pub fn generate_spotify_auth_url_checked(
    client_id: Option<String>,
    client_secret: Option<String>,
    redirect_uri: Option<String>,
) -> (r: Option<Result<(String, String), String>>)
    ensures
        r is None <==> (redirect_uri matches Some(u) && !spotify_urls_ok(u@)),
        r matches Some(res) ==> match (client_id, client_secret, redirect_uri) {
            (None, _, _) => res matches Err(e) && e@ == "Missing Spotify client ID"@,
            (Some(_), None, _) => res matches Err(e) && e@ == "Missing Spotify client secret"@,
            (Some(_), Some(_), None) => res matches Err(e) && e@ == "Missing Spotify redirect URI"@,
            (Some(i), Some(_), Some(u)) => res matches Ok(p) && is_oauth2_csrf(p.1@) && p.0@
                == spotify_authorize_url_text(i@, u@, p.1@),
        },
{
    match &redirect_uri {
        Some(u) => {
            if !oauth2_urls_valid(
                "https://accounts.spotify.com/authorize",
                "https://accounts.spotify.com/api/token",
                u.as_str(),
            ) {
                return None;
            }
        },
        None => {},
    }
    Some(generate_spotify_auth_url(client_id, client_secret, redirect_uri))
}

/// Tokens from a Spotify code exchange.
pub struct SpotifyTokens {
    pub access_token: String,
    /// Only present on initial exchange; not always re-issued on refresh.
    pub refresh_token: Option<String>,
    pub expires_at: Timestamp,
}

/// A `std::time::Duration`, as whole seconds and nanoseconds.
pub struct StdDuration {
    pub secs: u64,
    pub nanos: u32,
}

/// Whether `chrono::Duration::from_std` accepts a duration: at most `i64::MAX` milliseconds.
pub open spec fn fits_time_delta(d: StdDuration) -> bool {
    d.secs < 9_223_372_036_854_775 || (d.secs == 9_223_372_036_854_775 && d.nanos <= 807_000_000)
}

/// The lifetime of exchanged tokens in nanoseconds: `expires_in` when it is given and fits a
/// `chrono::Duration`, else an hour.
pub open spec fn exchange_lifetime_nanos(expires_in: Option<StdDuration>) -> int {
    match expires_in {
        Some(d) => if fits_time_delta(d) {
            d.secs * 1_000_000_000 + d.nanos
        } else {
            3_600_000_000_000
        },
        None => 3_600_000_000_000,
    }
}

/// The lifetime of exchanged tokens as whole seconds and nanoseconds: `expires_in` when it
/// is given and fits a `chrono::Duration`, else an hour.
pub fn exchange_lifetime(expires_in: &Option<StdDuration>) -> (r: (i64, u32))
    requires
        expires_in matches Some(d) ==> d.nanos < 1_000_000_000,
    ensures
        r.1 < 1_000_000_000,
        r.0 * 1_000_000_000 + r.1 == exchange_lifetime_nanos(*expires_in),
{
    match expires_in {
        Some(d) => if d.secs < 9_223_372_036_854_775 || (d.secs == 9_223_372_036_854_775 && d.nanos
            <= 807_000_000) {
            (d.secs as i64, d.nanos)
        } else {
            (3600, 0)
        },
        None => (3600, 0),
    }
}

/// The tokens that a Spotify code exchange gives at `now`: its access and refresh tokens, and
/// an expiry `expires_in` after `now` (an hour when absent or too long for a
/// `chrono::Duration`).
pub fn spotify_tokens(
    access_token: String,
    refresh_token: Option<String>,
    expires_in: Option<StdDuration>,
    now: Timestamp,
) -> (r: SpotifyTokens)
    requires
        now.wf(),
        expires_in matches Some(d) ==> d.nanos < 1_000_000_000,
        instant_in_range(now.nanos_since_epoch() + exchange_lifetime_nanos(expires_in)),
    ensures
        r.access_token == access_token,
        r.refresh_token == refresh_token,
        r.expires_at.wf(),
        r.expires_at.nanos_since_epoch() == now.nanos_since_epoch() + exchange_lifetime_nanos(
            expires_in,
        ),
{
    let (secs, nanos): (i64, u32) = exchange_lifetime(&expires_in);
    let expires_at = now.plus(secs, nanos);
    SpotifyTokens { access_token, refresh_token, expires_at }
}

} // verus!
