use spotlyt::auth::SpotifyOAuthConfig;
use spotlyt::desktop::auth::{callback_code, code_from_query, desktop_oauth_config};
use spotlyt::desktop::spotify::top_artists_from_items;
use spotlyt::desktop::ticketmaster::ConcertList;
use spotlyt::desktop::types::Artist;
use spotlyt::spotify::SpotifyArtistItem;
use spotlyt::ticketmaster::TicketmasterEvent;

fn s(x: &str) -> Option<String> {
    Some(x.to_string())
}

fn event(name: &str, venue: &str, date: &str, attractions: &[&str]) -> TicketmasterEvent {
    TicketmasterEvent {
        name: s(name),
        venue_name: s(venue),
        city_name: s("Leeds"),
        local_date: s(date),
        images: None,
        attraction_names: Some(attractions.iter().map(|a| s(a)).collect()),
    }
}

#[test]
fn desktop_concerts_are_deduplicated_by_artist_venue_date() {
    let mut list = ConcertList::new();
    let a = Artist { id: "1".to_string(), name: "Muse".to_string() };
    let events = vec![
        event("Night 1", "Arena", "2025-01-01", &["Muse"]),
        event("Night 1 (late)", "Arena", "2025-01-01", &["Muse"]),
        event("Night 2", "Arena", "2025-01-02", &["Muse"]),
    ];
    list.add_artist_events(&a, Some(&events));
    let b = Artist { id: "2".to_string(), name: "Blur".to_string() };
    let events_b = vec![event("Night 1", "Arena", "2025-01-01", &["Muse", "Blur"])];
    list.add_artist_events(&b, Some(&events_b));
    list.add_artist_events(&b, None);
    let concerts = list.into_concerts();
    let got: Vec<(&str, &str, &str)> = concerts
        .iter()
        .map(|c| (c.artist_name.as_str(), c.event_name.as_str(), c.date.as_str()))
        .collect();
    assert_eq!(
        got,
        vec![
            ("Muse", "Night 1", "2025-01-01"),
            ("Muse", "Night 2", "2025-01-02"),
            ("Blur", "Night 1", "2025-01-01"),
        ]
    );
    assert_eq!(concerts[0].city, "Leeds");
}

#[test]
fn desktop_top_artists() {
    assert_eq!(top_artists_from_items(None).err(), Some("No items in response".to_string()));
    let items = vec![
        SpotifyArtistItem { id: s("x1"), name: s("Muse") },
        SpotifyArtistItem { id: None, name: None },
    ];
    let artists = top_artists_from_items(Some(&items)).ok().unwrap();
    assert_eq!(artists.len(), 2);
    assert_eq!((artists[0].id.as_str(), artists[0].name.as_str()), ("x1", "Muse"));
    assert_eq!((artists[1].id.as_str(), artists[1].name.as_str()), ("", ""));
}

fn config_error(r: Result<SpotifyOAuthConfig, String>) -> Option<String> {
    r.err()
}

#[test]
fn desktop_config_errors() {
    let v = |x: &str| Some(x.to_string());
    assert_eq!(config_error(desktop_oauth_config(None, v("s"), v("u"))), v("Missing SPOTIFY_CLIENT_ID"));
    assert_eq!(config_error(desktop_oauth_config(v("i"), None, v("u"))), v("Missing SPOTIFY_CLIENT_SECRET"));
    assert_eq!(config_error(desktop_oauth_config(v("i"), v("s"), None)), v("Missing SPOTIFY_REDIRECT_URI"));
    let c = desktop_oauth_config(v("i"), v("s"), v("u")).ok().unwrap();
    assert_eq!((c.client_id.as_str(), c.client_secret.as_str(), c.redirect_uri.as_str()), ("i", "s", "u"));
}

#[test]
fn callback_code_accepts_matching_state() {
    let line = "GET /callback?code=abc%2Fdef&state=xyz HTTP/1.1\r\n";
    assert_eq!(callback_code(line, "xyz"), Ok("abc/def".to_string()));
}

#[test]
fn callback_code_errors() {
    assert_eq!(
        callback_code("GET /callback?code=abc&state=other HTTP/1.1", "xyz"),
        Err("CSRF token mismatch".to_string())
    );
    assert_eq!(
        callback_code("GET /callback?state=xyz HTTP/1.1", "xyz"),
        Err("No auth code in callback".to_string())
    );
    assert_eq!(
        callback_code("GET /callback?code=abc HTTP/1.1", "xyz"),
        Err("No state in callback".to_string())
    );
    assert_eq!(callback_code("GET", "xyz"), Err("Could not parse redirect URL".to_string()));
    assert_eq!(callback_code("", "xyz"), Err("Could not parse redirect URL".to_string()));
    let r = callback_code("GET :abc HTTP/1.1", "xyz");
    assert_eq!(r, Err("Failed to parse URL: invalid port number".to_string()));
}

fn pair(k: &str, v: &str) -> (String, String) {
    (k.to_string(), v.to_string())
}

#[test]
fn query_pairs_give_the_first_code_once_state_matches() {
    let ps = vec![pair("state", "xyz"), pair("code", "first"), pair("code", "second")];
    assert_eq!(code_from_query(&ps, "xyz"), Ok("first".to_string()));
    let ps = vec![pair("code", "abc"), pair("state", "xyz"), pair("state", "other")];
    assert_eq!(code_from_query(&ps, "xyz"), Ok("abc".to_string()));
    let ps = vec![pair("code", "abc"), pair("state", "other"), pair("state", "xyz")];
    assert_eq!(code_from_query(&ps, "xyz"), Err("CSRF token mismatch".to_string()));
    assert_eq!(code_from_query(&vec![], "xyz"), Err("No auth code in callback".to_string()));
    assert_eq!(
        code_from_query(&vec![pair("code", "abc")], "xyz"),
        Err("No state in callback".to_string())
    );
}
