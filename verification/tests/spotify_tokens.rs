use spotlyt::auth::{exchange_lifetime, spotify_tokens, StdDuration};
use spotlyt::spotify::{
    refresh_credentials, refresh_lifetime_secs, refreshed_tokens, spotify_refresh_form, top_artists_from_items,
    usable_access_token, RefreshResponse, SpotifyArtistItem,
};
use spotlyt::time::Timestamp;

fn ts(secs: i64, nanos: u32) -> Timestamp {
    Timestamp::from_unix(secs, nanos).unwrap()
}

#[test]
fn top_artists_read_items() {
    let items = vec![
        SpotifyArtistItem { id: Some("a1".to_string()), name: Some("Muse".to_string()) },
        SpotifyArtistItem { id: Some("a2".to_string()), name: None },
    ];
    let artists = top_artists_from_items(Some(&items), "{}").ok().unwrap();
    assert_eq!(artists.len(), 2);
    assert_eq!((artists[0].id.as_str(), artists[0].name.as_str()), ("a1", "Muse"));
    assert_eq!((artists[1].id.as_str(), artists[1].name.as_str()), ("a2", ""));
}

#[test]
fn top_artists_without_items_is_an_error() {
    let r = top_artists_from_items(None, "{\"error\":1}");
    assert_eq!(r.err(), Some("No items in Spotify response: {\"error\":1}".to_string()));
}

#[test]
fn access_token_is_used_until_a_minute_before_expiry() {
    let now = ts(1_000, 0);
    assert_eq!(usable_access_token("tok", ts(1_061, 0), now), Some("tok".to_string()));
    assert_eq!(usable_access_token("tok", ts(1_060, 1), now), Some("tok".to_string()));
    assert_eq!(usable_access_token("tok", ts(1_060, 0), now), None);
    assert_eq!(usable_access_token("tok", ts(900, 0), now), None);
}

#[test]
fn refresh_response_gives_tokens() {
    let now = ts(5_000, 250);
    let r = refreshed_tokens(
        RefreshResponse { access_token: Some("new".to_string()), expires_in: Some(120), refresh_token: None },
        now,
    )
    .ok()
    .unwrap();
    assert_eq!(r.access_token, "new");
    assert_eq!(r.refresh_token, None);
    assert_eq!((r.expires_at.secs, r.expires_at.nanos), (5_120, 250));

    let r = refreshed_tokens(
        RefreshResponse { access_token: Some("new".to_string()), expires_in: None, refresh_token: Some("rt".to_string()) },
        now,
    )
    .ok()
    .unwrap();
    assert_eq!(r.refresh_token, Some("rt".to_string()));
    assert_eq!(r.expires_at.secs, 8_600);
}

#[test]
fn refresh_response_wraps_huge_lifetimes_like_a_signed_cast() {
    let now = ts(5_000, 0);
    let r = refreshed_tokens(
        RefreshResponse { access_token: Some("new".to_string()), expires_in: Some(u64::MAX), refresh_token: None },
        now,
    )
    .ok()
    .unwrap();
    assert_eq!(r.expires_at.secs, 4_999);
}

#[test]
fn refresh_response_without_access_token_is_an_error() {
    let r = refreshed_tokens(
        RefreshResponse { access_token: None, expires_in: Some(10), refresh_token: None },
        ts(0, 0),
    );
    assert_eq!(r.err(), Some("No access_token in refresh response".to_string()));
}

#[test]
fn refresh_credentials_and_form() {
    let v = |x: &str| Some(x.to_string());
    assert_eq!(refresh_credentials(None, v("s")), Err("Missing Spotify client ID".to_string()));
    assert_eq!(refresh_credentials(v("i"), None), Err("Missing Spotify client secret".to_string()));
    assert_eq!(refresh_credentials(v("i"), v("s")), Ok(("i".to_string(), "s".to_string())));
    let form = spotify_refresh_form("rt", "id", "sec");
    let form: Vec<(&str, &str)> = form.iter().map(|(a, b)| (a.as_str(), b.as_str())).collect();
    assert_eq!(
        form,
        vec![("grant_type", "refresh_token"), ("refresh_token", "rt"), ("client_id", "id"), ("client_secret", "sec")]
    );
}

#[test]
fn exchanged_tokens_expire_after_their_lifetime() {
    let now = ts(1_000, 500_000_000);
    let t = spotify_tokens("a".to_string(), Some("r".to_string()), Some(StdDuration { secs: 120, nanos: 600_000_000 }), now);
    assert_eq!((t.access_token.as_str(), t.refresh_token.as_deref()), ("a", Some("r")));
    assert_eq!((t.expires_at.secs, t.expires_at.nanos), (1_121, 100_000_000));
    let t = spotify_tokens("a".to_string(), None, None, now);
    assert_eq!((t.expires_at.secs, t.expires_at.nanos), (4_600, 500_000_000));
    let t = spotify_tokens("a".to_string(), None, Some(StdDuration { secs: u64::MAX, nanos: 0 }), now);
    assert_eq!(t.expires_at.secs, 4_600);
}

#[test]
fn token_lifetimes() {
    assert_eq!(exchange_lifetime(&None), (3600, 0));
    assert_eq!(exchange_lifetime(&Some(StdDuration { secs: 90, nanos: 5 })), (90, 5));
    assert_eq!(exchange_lifetime(&Some(StdDuration { secs: u64::MAX, nanos: 0 })), (3600, 0));
    assert_eq!(refresh_lifetime_secs(None), 3600);
    assert_eq!(refresh_lifetime_secs(Some(120)), 120);
    assert_eq!(refresh_lifetime_secs(Some(u64::MAX)), -1);
}
