use spotlyt::ticketmaster::{
    choose_image_url, event_search_query, ticketmaster_api_key, ConcertCollector, EventImage,
    TicketmasterEvent,
};
use spotlyt::types::Artist;

fn s(x: &str) -> Option<String> {
    Some(x.to_string())
}

fn artist(name: &str) -> Artist {
    Artist { id: format!("id-{name}"), name: name.to_string() }
}

fn event(name: &str, venue: &str, date: &str, attractions: &[&str]) -> TicketmasterEvent {
    TicketmasterEvent {
        name: s(name),
        venue_name: s(venue),
        city_name: s("London"),
        local_date: s(date),
        images: None,
        attraction_names: Some(attractions.iter().map(|a| s(a)).collect()),
    }
}

fn img(ratio: &str, width: u64, url: &str) -> EventImage {
    EventImage { ratio: s(ratio), width: Some(width), url: s(url) }
}

#[test]
fn artists_at_the_same_event_are_merged() {
    let mut c = ConcertCollector::new();
    let fest = event("Fest", "Park", "2025-07-01", &["Björk", "Sigur Rós"]);
    c.add_artist_events(&artist("Björk"), Some(&vec![fest]));
    let fest2 = event("Fest", "Park", "2025-07-01", &["Björk", "Sigur Rós"]);
    c.add_artist_events(&artist("Sigur Ros"), Some(&vec![fest2]));
    let concerts = c.into_concerts();
    assert_eq!(concerts.len(), 1);
    assert_eq!(concerts[0].artist_names, vec!["Björk".to_string(), "Sigur Ros".to_string()]);
    assert_eq!(concerts[0].event_name, "Fest");
    assert_eq!(concerts[0].city, "London");
}

#[test]
fn an_artist_is_listed_once_per_concert() {
    let mut c = ConcertCollector::new();
    let e1 = event("Tour", "Arena", "2025-01-01", &["ABBA"]);
    let e2 = event("Tour", "Arena", "2025-01-01", &["ABBA"]);
    c.add_artist_events(&artist("ABBA"), Some(&vec![e1, e2]));
    let concerts = c.into_concerts();
    assert_eq!(concerts.len(), 1);
    assert_eq!(concerts[0].artist_names, vec!["ABBA".to_string()]);
}

#[test]
fn events_that_do_not_list_the_artist_are_skipped() {
    let mut c = ConcertCollector::new();
    let e1 = event("Tribute night", "Pub", "2025-02-02", &["Cover Band"]);
    let e2 = event("Real show", "Hall", "2025-02-03", &["the beatles!"]);
    c.add_artist_events(&artist("The Beatles"), Some(&vec![e1, e2]));
    c.add_artist_events(&artist("Nobody"), None);
    let concerts = c.into_concerts();
    assert_eq!(concerts.len(), 1);
    assert_eq!(concerts[0].event_name, "Real show");
}

#[test]
fn missing_fields_take_defaults() {
    let mut c = ConcertCollector::new();
    let e = TicketmasterEvent {
        name: None,
        venue_name: None,
        city_name: None,
        local_date: None,
        images: None,
        attraction_names: Some(vec![None, s("Muse")]),
    };
    c.add_artist_events(&artist("Muse"), Some(&vec![e]));
    let concerts = c.into_concerts();
    assert_eq!(concerts.len(), 1);
    assert_eq!(concerts[0].event_name, "Unknown Event");
    assert_eq!(concerts[0].venue, "Unknown Venue");
    assert_eq!(concerts[0].city, "Unknown City");
    assert_eq!(concerts[0].date, "Unknown Date");
    assert_eq!(concerts[0].image_url, None);
}

#[test]
fn different_dates_are_different_concerts_in_found_order() {
    let mut c = ConcertCollector::new();
    let e1 = event("Tour", "Arena", "2025-01-02", &["Muse"]);
    let e2 = event("Tour", "Arena", "2025-01-01", &["Muse"]);
    c.add_artist_events(&artist("Muse"), Some(&vec![e1, e2]));
    let concerts = c.into_concerts();
    assert_eq!(concerts.len(), 2);
    assert_eq!(concerts[0].date, "2025-01-02");
    assert_eq!(concerts[1].date, "2025-01-01");
}

#[test]
fn image_choice_prefers_widest_16_9() {
    let imgs = Some(vec![
        img("4_3", 2000, "a"),
        img("16_9", 640, "b"),
        img("16_9", 1024, "c"),
        img("16_9", 1024, "d"),
    ]);
    assert_eq!(choose_image_url(&imgs), Some("c".to_string()));
}

#[test]
fn image_choice_falls_back_to_first_image() {
    let imgs = Some(vec![img("4_3", 100, "a"), img("3_2", 2000, "b")]);
    assert_eq!(choose_image_url(&imgs), Some("a".to_string()));
    assert_eq!(choose_image_url(&Some(vec![])), None);
    assert_eq!(choose_image_url(&None), None);
}

#[test]
fn image_choice_does_not_fall_back_when_widest_has_no_url() {
    let imgs = Some(vec![
        img("4_3", 100, "a"),
        EventImage { ratio: s("16_9"), width: None, url: None },
    ]);
    assert_eq!(choose_image_url(&imgs), None);
}

#[test]
fn event_image_is_kept_in_concert() {
    let mut c = ConcertCollector::new();
    let mut e = event("Show", "Club", "2025-03-03", &["Muse"]);
    e.images = Some(vec![img("16_9", 10, "small"), img("16_9", 20, "big")]);
    c.add_artist_events(&artist("Muse"), Some(&vec![e]));
    assert_eq!(c.into_concerts()[0].image_url, Some("big".to_string()));
}

#[test]
fn search_query_and_api_key() {
    let q = event_search_query("KEY", "Muse", "GB");
    let q: Vec<(&str, &str)> = q.iter().map(|(a, b)| (a.as_str(), b.as_str())).collect();
    assert_eq!(
        q,
        vec![
            ("apikey", "KEY"),
            ("keyword", "Muse"),
            ("countryCode", "GB"),
            ("classificationName", "music"),
            ("size", "5"),
        ]
    );
    assert_eq!(ticketmaster_api_key(None), Err("Missing TicketMaster API Key".to_string()));
    assert_eq!(ticketmaster_api_key(Some("k".to_string())), Ok("k".to_string()));
}
