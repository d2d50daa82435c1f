use spotlyt::auth::{
    generate_google_auth_url, generate_spotify_auth_url_checked, google_access_token,
    google_client_config, google_token_form, google_user_from_userinfo, spotify_authorize_checked,
    spotify_oauth_config,
};

fn v(x: &str) -> Option<String> {
    Some(x.to_string())
}

fn is_uuid_text(t: &str) -> bool {
    t.len() == 36
        && t.char_indices().all(|(i, c)| {
            if i == 8 || i == 13 || i == 18 || i == 23 {
                c == '-'
            } else {
                c.is_ascii_digit() || ('a'..='f').contains(&c)
            }
        })
}

#[test]
fn google_auth_url_errors() {
    assert_eq!(generate_google_auth_url(None, v("u")), Err("Missing Google client ID".to_string()));
    assert_eq!(generate_google_auth_url(v("i"), None), Err("Missing Google redirect URI".to_string()));
}

#[test]
fn google_auth_url_carries_settings_and_state() {
    let (url, csrf) = generate_google_auth_url(v("my id"), v("http://localhost:8080/auth/google/callback")).unwrap();
    assert!(is_uuid_text(&csrf));
    assert_eq!(&csrf[14..15], "4");
    assert!(["8", "9", "a", "b"].contains(&&csrf[19..20]));
    assert_eq!(
        url,
        format!(
            "https://accounts.google.com/o/oauth2/v2/auth?client_id=my+id&redirect_uri=http%3A%2F%2Flocalhost%3A8080%2Fauth%2Fgoogle%2Fcallback&response_type=code&scope=openid+email+profile&state={csrf}&access_type=offline"
        )
    );
    let (_, other) = generate_google_auth_url(v("my id"), v("x")).unwrap();
    assert_ne!(csrf, other);
}

#[test]
fn google_client_config_errors() {
    assert_eq!(google_client_config(None, v("s"), v("u")).err(), v("Missing Google client ID"));
    assert_eq!(google_client_config(v("i"), None, v("u")).err(), v("Missing Google client secret"));
    assert_eq!(google_client_config(v("i"), v("s"), None).err(), v("Missing Google redirect URI"));
    let c = google_client_config(v("i"), v("s"), v("u")).ok().unwrap();
    let form = google_token_form("the code", &c);
    let form: Vec<(&str, &str)> = form.iter().map(|(a, b)| (a.as_str(), b.as_str())).collect();
    assert_eq!(
        form,
        vec![
            ("code", "the code"),
            ("client_id", "i"),
            ("client_secret", "s"),
            ("redirect_uri", "u"),
            ("grant_type", "authorization_code"),
        ]
    );
}

#[test]
fn google_token_and_user() {
    assert_eq!(google_access_token(None), Err("No access_token in Google response".to_string()));
    assert_eq!(google_access_token(v("t")), Ok("t".to_string()));
    assert_eq!(
        google_user_from_userinfo(None, v("e"), v("n")).err(),
        v("No sub in Google userinfo")
    );
    let u = google_user_from_userinfo(v("123"), None, v("Ann")).ok().unwrap();
    assert_eq!((u.google_id.as_str(), u.email.as_str(), u.display_name.as_str()), ("123", "", "Ann"));
}

#[test]
fn spotify_config_errors() {
    assert_eq!(spotify_oauth_config(None, v("s"), v("u")).err(), v("Missing Spotify client ID"));
    assert_eq!(spotify_oauth_config(v("i"), None, v("u")).err(), v("Missing Spotify client secret"));
    assert_eq!(spotify_oauth_config(v("i"), v("s"), None).err(), v("Missing Spotify redirect URI"));
    assert_eq!(
        generate_spotify_auth_url_checked(None, None, None).unwrap().err(),
        v("Missing Spotify client ID")
    );
}

#[test]
fn spotify_auth_url_carries_settings_and_state() {
    let (url, csrf) = generate_spotify_auth_url_checked(
        v("cid"),
        v("secret"),
        v("http://127.0.0.1:8080/auth/spotify/callback"),
    )
    .unwrap()
    .unwrap();
    assert_eq!(csrf.len(), 22);
    assert!(csrf.chars().all(|c| c.is_ascii_alphanumeric() || c == '-' || c == '_'));
    assert_eq!(
        url,
        format!(
            "https://accounts.spotify.com/authorize?response_type=code&client_id=cid&state={csrf}&redirect_uri=http%3A%2F%2F127.0.0.1%3A8080%2Fauth%2Fspotify%2Fcallback&scope=user-top-read"
        )
    );
    assert!(!url.contains("secret"));
}

#[test]
fn spotify_auth_url_refuses_bad_redirect() {
    assert!(generate_spotify_auth_url_checked(v("cid"), v("s"), v("not a url")).is_none());
    let c = spotify_oauth_config(v("cid"), v("s"), v("relative/path")).ok().unwrap();
    assert!(spotify_authorize_checked(&c).is_none());
}
