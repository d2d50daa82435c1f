use spotlyt::db::{spotify_token_update, SpotifyTokenUpdate};
use spotlyt::error::AppError;
use spotlyt::handlers::auth_google::{check_google_callback, CallbackParams};
use spotlyt::handlers::auth_password::{
    check_login, create_user_error, login_verdict, new_user, user_response, RegisterRequest,
};
use spotlyt::handlers::auth_spotify::{linking_user, spotify_status};
use spotlyt::handlers::concerts::spotify_token_state;
use spotlyt::handlers::users::me;
use spotlyt::session::{session_for, session_token, AuthSession};
use spotlyt::time::Timestamp;
use spotlyt::types::User;

fn ts(secs: i64) -> Timestamp {
    Timestamp::from_unix(secs, 0).unwrap()
}

fn user(id: u128, hash: Option<String>) -> User {
    User {
        id,
        username: Some("ann".to_string()),
        password_hash: hash,
        email: Some("ann@example.com".to_string()),
        display_name: "Ann".to_string(),
        google_id: None,
        spotify_refresh_token: None,
        spotify_access_token: None,
        spotify_token_expires_at: None,
        created_at: ts(0),
        updated_at: ts(0),
    }
}

fn message(e: AppError) -> (u16, String) {
    e.into_status_and_message()
}

#[test]
fn register_refuses_email_usernames() {
    let req = RegisterRequest {
        username: "a@b.c".to_string(),
        password: "pw".to_string(),
        display_name: "A".to_string(),
        email: None,
    };
    let e = new_user(req).err().unwrap();
    assert_eq!(message(e), (400, "Username cannot be an email address".to_string()));
}

#[test]
fn registered_password_logs_in_and_others_do_not() {
    let req = RegisterRequest {
        username: "ann".to_string(),
        password: "correct horse".to_string(),
        display_name: "Ann".to_string(),
        email: Some("ann@example.com".to_string()),
    };
    let nu = new_user(req).ok().unwrap();
    assert_eq!(nu.username, "ann");
    assert_ne!(nu.password_hash, "correct horse");
    assert!(nu.password_hash.starts_with("$argon2"));
    let u = check_login(Some(user(7, Some(nu.password_hash.clone()))), "correct horse").ok().unwrap();
    assert_eq!(u.id, 7);
    let e = check_login(Some(user(7, Some(nu.password_hash))), "wrong").err().unwrap();
    assert_eq!(message(e), (401, "Invalid username or password".to_string()));
}

#[test]
fn login_refusals() {
    let e = check_login(None, "pw").err().unwrap();
    assert_eq!(message(e), (401, "Invalid username or password".to_string()));
    let e = check_login(Some(user(1, None)), "pw").err().unwrap();
    assert_eq!(message(e), (401, "Account uses a different sign-in method".to_string()));
    let e = check_login(Some(user(1, Some("not a hash".to_string()))), "pw").err().unwrap();
    assert_eq!(message(e).0, 500);
}

#[test]
fn create_user_errors() {
    let e = create_user_error(Some("23505".to_string()), "dup".to_string());
    assert_eq!(message(e), (409, "Username or email already taken".to_string()));
    let e = create_user_error(Some("23502".to_string()), "null".to_string());
    assert_eq!(message(e), (500, "null".to_string()));
    let e = create_user_error(None, "io".to_string());
    assert_eq!(message(e), (500, "io".to_string()));
}

#[test]
fn user_response_and_profile() {
    let mut u = user(42, None);
    u.spotify_refresh_token = Some("rt".to_string());
    let r = user_response(u);
    assert_eq!(r.id, "00000000-0000-0000-0000-00000000002a");
    assert_eq!(r.username, Some("ann".to_string()));
    assert!(r.spotify_linked);
    let p = me(AuthSession { user: user(0x0123456789abcdef_fedcba9876543210, None) }).ok().unwrap();
    assert_eq!(p.id, "01234567-89ab-cdef-fedc-ba9876543210");
    assert_eq!(p.email, Some("ann@example.com".to_string()));
    assert!(!p.spotify_linked);
    assert!(!spotify_status(AuthSession { user: user(1, None) }).linked);
}

#[test]
fn google_callback_checks_csrf_cookie() {
    let params = CallbackParams { code: "c".to_string(), state: "tok".to_string() };
    assert!(check_google_callback(Some(b"google_csrf=tok; session=s"), &params).is_ok());
    assert!(check_google_callback(Some(b"session=s; theme=dark; google_csrf=tok"), &params).is_ok());
    let e = check_google_callback(Some(b"google_csrf=other"), &params).err().unwrap();
    assert_eq!(message(e), (401, "CSRF token mismatch".to_string()));
    let e = check_google_callback(Some(b"session=s"), &params).err().unwrap();
    assert_eq!(message(e), (400, "Missing CSRF cookie".to_string()));
    let e = check_google_callback(None, &params).err().unwrap();
    assert_eq!(message(e), (400, "Missing CSRF cookie".to_string()));
}

#[test]
fn spotify_link_state() {
    assert_eq!(linking_user(Some(5)).ok(), Some(5));
    let e = linking_user(None).err().unwrap();
    assert_eq!(message(e), (400, "Invalid or expired OAuth state".to_string()));
}

#[test]
fn concert_search_token_state() {
    let now = ts(10_000);
    let e = spotify_token_state(&user(1, None), now).err().unwrap();
    assert_eq!(message(e), (401, "Spotify account not linked".to_string()));
    let mut u = user(1, None);
    u.spotify_refresh_token = Some("rt".to_string());
    let s = spotify_token_state(&u, now).ok().unwrap();
    assert_eq!((s.refresh_token.as_str(), s.access_token.as_str()), ("rt", ""));
    assert_eq!(s.expires_at.secs, 6_400);
    u.spotify_access_token = Some("at".to_string());
    u.spotify_token_expires_at = Some(ts(20_000));
    let s = spotify_token_state(&u, now).ok().unwrap();
    assert_eq!((s.access_token.as_str(), s.expires_at.secs), ("at", 20_000));
}

#[test]
fn sessions() {
    assert_eq!(session_token(Some(b"session=abc")).ok(), Some("abc".to_string()));
    let e = session_token(Some(b"other=1")).err().unwrap();
    assert_eq!(message(e), (401, "Not authenticated".to_string()));
    let e = session_token(None).err().unwrap();
    assert_eq!(message(e), (401, "Not authenticated".to_string()));
    let e = session_for(None).err().unwrap();
    assert_eq!(message(e), (401, "Invalid or expired session".to_string()));
    assert_eq!(session_for(Some(user(9, None))).ok().unwrap().user.id, 9);
}

#[test]
fn token_update_keeps_refresh_token_unless_given() {
    match spotify_token_update(3, "a".to_string(), None, ts(1)) {
        SpotifyTokenUpdate::AccessTokenOnly { user_id, access_token, expires_at } => {
            assert_eq!((user_id, access_token.as_str(), expires_at.secs), (3, "a", 1));
        }
        _ => panic!("expected an access-token-only update"),
    }
    match spotify_token_update(3, "a".to_string(), Some("r".to_string()), ts(1)) {
        SpotifyTokenUpdate::WithRefreshToken { refresh_token, .. } => assert_eq!(refresh_token, "r"),
        _ => panic!("expected an update with a refresh token"),
    }
}

#[test]
fn login_verdict_of_each_password_check() {
    assert_eq!(login_verdict(user(3, None), Ok(true)).ok().unwrap().id, 3);
    let e = login_verdict(user(3, None), Ok(false)).err().unwrap();
    assert_eq!(message(e), (401, "Invalid username or password".to_string()));
    let e = login_verdict(user(3, None), Err("bad hash".to_string())).err().unwrap();
    assert_eq!(message(e), (500, "bad hash".to_string()));
}

#[test]
fn google_sign_in_round_trip_passes_the_callback_check() {
    let (url, token) = spotlyt::auth::generate_google_auth_url(
        Some("id".to_string()),
        Some("http://localhost/cb".to_string()),
    )
    .unwrap();
    assert!(url.contains(&format!("state={token}")));
    let set_cookie = spotlyt::cookies::google_csrf_cookie(&token);
    let pair = set_cookie.split(';').next().unwrap().to_string();
    assert_eq!(pair, format!("google_csrf={token}"));
    let params = CallbackParams { code: "c".to_string(), state: token.clone() };
    assert!(check_google_callback(Some(pair.as_bytes()), &params).is_ok());
    let later = format!("session=s; {pair}; theme=dark");
    assert!(check_google_callback(Some(later.as_bytes()), &params).is_ok());
}

#[test]
fn spotify_link_round_trip_writes_for_the_linking_user() {
    let owner = linking_user(Some(42)).ok().unwrap();
    let tokens = spotlyt::auth::spotify_tokens("acc".to_string(), None, None, ts(1_000));
    match spotify_token_update(owner, tokens.access_token, tokens.refresh_token, tokens.expires_at) {
        SpotifyTokenUpdate::AccessTokenOnly { user_id, access_token, expires_at } => {
            assert_eq!((user_id, access_token.as_str(), expires_at.secs), (42, "acc", 4_600));
        }
        _ => panic!("expected an access-token-only update"),
    }
}
