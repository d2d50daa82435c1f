//! Turning Ticketmaster search results into concerts of the user's artists, merging the
//! artists who play at the same event.
use vstd::prelude::*;
use vstd::string::*;
use crate::auth::{pair_texts, string_pair};
use crate::text::{chars_eq, chars_of, string_of};
use crate::types::{normalise_artist_name, normalised_name, opt_view, Artist, Concert, ConcertView};

verus! {

/// An image of an event, as far as the search result describes it.
pub struct EventImage {
    /// `ratio`, when it is a string.
    pub ratio: Option<String>,
    /// `width`, when it is an unsigned integer.
    pub width: Option<u64>,
    /// `url`, when it is a string.
    pub url: Option<String>,
}

/// An event of a Ticketmaster search result, as far as the concert search reads it.
pub struct TicketmasterEvent {
    /// `name`, when it is a string.
    pub name: Option<String>,
    /// `_embedded.venues[0].name`, when it is a string.
    pub venue_name: Option<String>,
    /// `_embedded.venues[0].city.name`, when it is a string.
    pub city_name: Option<String>,
    /// `dates.start.localDate`, when it is a string.
    pub local_date: Option<String>,
    /// `images`, when it is an array.
    pub images: Option<Vec<EventImage>>,
    /// `_embedded.attractions`, when it is an array: the `name` of each, when a string.
    pub attraction_names: Option<Vec<Option<String>>>,
}

/// The text of an optional string, or `default` when it is absent.
pub open spec fn text_or(o: Option<String>, default: Seq<char>) -> Seq<char> {
    match o {
        Some(s) => s@,
        None => default,
    }
}

/// An image whose ratio is `16_9`.
pub open spec fn is_wide_image(img: EventImage) -> bool {
    opt_view(img.ratio) == Some("16_9"@)
}

/// An image's width, 0 when it has none.
pub open spec fn width_of(img: EventImage) -> u64 {
    match img.width {
        Some(w) => w,
        None => 0,
    }
}

/// Among the first `n` images, the first of the widest `16_9` images, if any.
pub open spec fn widest_wide_image(imgs: Seq<EventImage>, n: int) -> Option<int>
    decreases n,
{
    if n <= 0 {
        None
    } else {
        let best = widest_wide_image(imgs, n - 1);
        if is_wide_image(imgs[n - 1]) && (best is None || width_of(imgs[n - 1]) > width_of(
            imgs[best->0],
        )) {
            Some(n - 1)
        } else {
            best
        }
    }
}

/// The image URL of an event: that of the first of its widest `16_9` images, else that of
/// its first image, else none.
pub open spec fn chosen_image_url(images: Option<Vec<EventImage>>) -> Option<Seq<char>> {
    match images {
        None => None,
        Some(v) => match widest_wide_image(v@, v@.len() as int) {
            Some(i) => opt_view(v@[i].url),
            None => if v@.len() > 0 {
                opt_view(v@[0].url)
            } else {
                None
            },
        },
    }
}

/// The name under which an event is listed.
pub open spec fn event_name_of(e: TicketmasterEvent) -> Seq<char> {
    text_or(e.name, "Unknown Event"@)
}

/// The venue of an event.
pub open spec fn venue_of(e: TicketmasterEvent) -> Seq<char> {
    text_or(e.venue_name, "Unknown Venue"@)
}

/// The city of an event.
pub open spec fn city_of(e: TicketmasterEvent) -> Seq<char> {
    text_or(e.city_name, "Unknown City"@)
}

/// The date of an event.
pub open spec fn date_of(e: TicketmasterEvent) -> Seq<char> {
    text_or(e.local_date, "Unknown Date"@)
}

/// The key under which concerts are merged: event name, venue and date, joined by `-`.
pub open spec fn merge_key(event_name: Seq<char>, venue: Seq<char>, date: Seq<char>) -> Seq<char> {
    event_name + seq!['-'] + venue + seq!['-'] + date
}

/// The merge key of a concert.
pub open spec fn concert_key(c: ConcertView) -> Seq<char> {
    merge_key(c.event_name, c.venue, c.date)
}

/// Whether one of an event's named attractions has the same normal form as `artist_name`.
pub open spec fn lists_artist(e: TicketmasterEvent, artist_name: Seq<char>) -> bool {
    match e.attraction_names {
        None => false,
        Some(v) => exists|i: int|
            0 <= i < v@.len() && (#[trigger] v@[i]) is Some && normalised_name(v@[i]->0@)
                == normalised_name(artist_name),
    }
}

/// The concert that an event makes for one artist.
pub open spec fn event_concert(e: TicketmasterEvent, artist_name: Seq<char>) -> ConcertView {
    ConcertView {
        artist_names: seq![artist_name],
        event_name: event_name_of(e),
        venue: venue_of(e),
        city: city_of(e),
        date: date_of(e),
        image_url: chosen_image_url(e.images),
    }
}

/// The first index of a concert with merge key `k`.
pub open spec fn index_of_key(m: Seq<ConcertView>, k: Seq<char>) -> Option<int>
    decreases m.len(),
{
    if m.len() == 0 {
        None
    } else {
        match index_of_key(m.drop_last(), k) {
            Some(i) => Some(i),
            None => if concert_key(m.last()) == k {
                Some(m.len() - 1)
            } else {
                None
            },
        }
    }
}

/// Adds the concert `c` of artist `artist_name`: when a concert with the same merge key is
/// there, the artist joins its artists (once); otherwise `c` is added at the end.
pub open spec fn merge_concert(m: Seq<ConcertView>, artist_name: Seq<char>, c: ConcertView) -> Seq<
    ConcertView,
> {
    match index_of_key(m, concert_key(c)) {
        Some(i) => if m[i].artist_names.contains(artist_name) {
            m
        } else {
            m.update(i, ConcertView { artist_names: m[i].artist_names.push(artist_name), ..m[i] })
        },
        None => m.push(c),
    }
}

/// The concerts after adding, in order, the events found for an artist that list the artist.
pub open spec fn merge_events(m: Seq<ConcertView>, artist_name: Seq<char>, events: Seq<
    TicketmasterEvent,
>) -> Seq<ConcertView>
    decreases events.len(),
{
    if events.len() == 0 {
        m
    } else {
        let m1 = merge_events(m, artist_name, events.drop_last());
        let e = events.last();
        if lists_artist(e, artist_name) {
            merge_concert(m1, artist_name, event_concert(e, artist_name))
        } else {
            m1
        }
    }
}

/// No two concerts share a merge key, and no concert lists an artist twice.
pub open spec fn concerts_wf(m: Seq<ConcertView>) -> bool {
    &&& forall|i: int, j: int|
        0 <= i < j < m.len() ==> concert_key(#[trigger] m[i]) != concert_key(#[trigger] m[j])
    &&& forall|i: int| 0 <= i < m.len() ==> (#[trigger] m[i]).artist_names.no_duplicates()
}

/// The image chosen among the first `n` images is a `16_9` image, none of the `16_9`
/// images is wider, and each `16_9` image before it is narrower: it is the first of the
/// widest. When none is chosen, there is no `16_9` image among them.
pub proof fn law_widest_wide_image(imgs: Seq<EventImage>, n: int)
    requires
        0 <= n <= imgs.len(),
    ensures
        match widest_wide_image(imgs, n) {
            Some(i) => {
                &&& 0 <= i < n
                &&& is_wide_image(imgs[i])
                &&& forall|j: int|
                    0 <= j < n && is_wide_image(#[trigger] imgs[j]) ==> width_of(imgs[j])
                        <= width_of(imgs[i])
                &&& forall|j: int|
                    0 <= j < i && is_wide_image(#[trigger] imgs[j]) ==> width_of(imgs[j])
                        < width_of(imgs[i])
            },
            None => forall|j: int| 0 <= j < n ==> !is_wide_image(#[trigger] imgs[j]),
        },
    decreases n,
{
    if n > 0 {
        law_widest_wide_image(imgs, n - 1);
    }
}

/// `index_of_key` finds the first concert with the key, and finds none exactly when no
/// concert has it.
proof fn lemma_index_of_key(m: Seq<ConcertView>, k: Seq<char>)
    ensures
        match index_of_key(m, k) {
            Some(i) => 0 <= i < m.len() && concert_key(m[i]) == k && forall|j: int|
                0 <= j < i ==> concert_key(#[trigger] m[j]) != k,
            None => forall|j: int| 0 <= j < m.len() ==> concert_key(#[trigger] m[j]) != k,
        },
    decreases m.len(),
{
    if m.len() > 0 {
        lemma_index_of_key(m.drop_last(), k);
        assert forall|j: int| 0 <= j < m.len() - 1 implies #[trigger] m[j] == m.drop_last()[j] by {}
    }
}

/// Text before a `-` that holds no `-` is found again at the first `-`.
proof fn lemma_split_at_dash(x: Seq<char>, y: Seq<char>, x2: Seq<char>, y2: Seq<char>)
    requires
        !x.contains('-'),
        !x2.contains('-'),
        x + seq!['-'] + y == x2 + seq!['-'] + y2,
    ensures
        x == x2,
        y == y2,
{
    let s = x + seq!['-'] + y;
    let s2 = x2 + seq!['-'] + y2;
    if x.len() < x2.len() {
        assert(s[x.len() as int] == '-');
        assert(s2[x.len() as int] == x2[x.len() as int]);
        assert(x2.contains(x2[x.len() as int]));
    } else if x.len() > x2.len() {
        assert(s2[x2.len() as int] == '-');
        assert(s[x2.len() as int] == x[x2.len() as int]);
        assert(x.contains(x[x2.len() as int]));
    }
    assert(x.len() == x2.len());
    assert(x =~= s.subrange(0, x.len() as int));
    assert(x2 =~= s2.subrange(0, x.len() as int));
    assert(y =~= s.skip(x.len() as int + 1));
    assert(y2 =~= s2.skip(x.len() as int + 1));
}

/// The merge key tells events apart: for event names and venues without `-`, two events
/// have the same key only when their event names, venues and dates are all the same.
pub proof fn law_merge_key_parts(
    event_name: Seq<char>,
    venue: Seq<char>,
    date: Seq<char>,
    event_name2: Seq<char>,
    venue2: Seq<char>,
    date2: Seq<char>,
)
    requires
        !event_name.contains('-'),
        !venue.contains('-'),
        !event_name2.contains('-'),
        !venue2.contains('-'),
    ensures
        merge_key(event_name, venue, date) == merge_key(event_name2, venue2, date2) <==> (event_name
            == event_name2 && venue == venue2 && date == date2),
{
    if merge_key(event_name, venue, date) == merge_key(event_name2, venue2, date2) {
        let r = venue + seq!['-'] + date;
        let r2 = venue2 + seq!['-'] + date2;
        assert(merge_key(event_name, venue, date) =~= event_name + seq!['-'] + r);
        assert(merge_key(event_name2, venue2, date2) =~= event_name2 + seq!['-'] + r2);
        lemma_split_at_dash(event_name, r, event_name2, r2);
        lemma_split_at_dash(venue, date, venue2, date2);
    }
}

/// Merging one concert joins it to a concert of the same event, venue and date, and to no
/// other: when such a concert is there no concert is added; when none is there (and event
/// names and venues hold no `-`), the concert is added as it is, after the others.
pub proof fn law_merge_concert_by_event(m: Seq<ConcertView>, artist_name: Seq<char>, c: ConcertView)
    ensures
        (exists|j: int|
            0 <= j < m.len() && (#[trigger] m[j]).event_name == c.event_name && m[j].venue == c.venue
                && m[j].date == c.date) ==> merge_concert(m, artist_name, c).len() == m.len(),
        ({
            &&& !c.event_name.contains('-')
            &&& !c.venue.contains('-')
            &&& forall|j: int|
                0 <= j < m.len() ==> !(#[trigger] m[j]).event_name.contains('-') && !m[j].venue.contains('-')
            &&& forall|j: int|
                0 <= j < m.len() ==> !((#[trigger] m[j]).event_name == c.event_name && m[j].venue
                    == c.venue && m[j].date == c.date)
        }) ==> merge_concert(m, artist_name, c) == m.push(c),
{
    lemma_index_of_key(m, concert_key(c));
    if exists|j: int|
        0 <= j < m.len() && (#[trigger] m[j]).event_name == c.event_name && m[j].venue == c.venue
            && m[j].date == c.date {
        let j = choose|j: int|
            0 <= j < m.len() && (#[trigger] m[j]).event_name == c.event_name && m[j].venue == c.venue
                && m[j].date == c.date;
        assert(concert_key(m[j]) == concert_key(c));
    }
    if {
        &&& !c.event_name.contains('-')
        &&& !c.venue.contains('-')
        &&& forall|j: int|
            0 <= j < m.len() ==> !(#[trigger] m[j]).event_name.contains('-') && !m[j].venue.contains('-')
        &&& forall|j: int|
            0 <= j < m.len() ==> !((#[trigger] m[j]).event_name == c.event_name && m[j].venue
                == c.venue && m[j].date == c.date)
    } {
        assert forall|j: int| 0 <= j < m.len() implies concert_key(#[trigger] m[j]) != concert_key(c) by {
            law_merge_key_parts(m[j].event_name, m[j].venue, m[j].date, c.event_name, c.venue, c.date);
        }
    }
}

/// Whether `c` is the concert of event `e` for the artists `artists`, field by field: the
/// event's name, its venue's name, its city's name and its date (each "Unknown ..." when
/// absent).
pub open spec fn concert_of_event(c: ConcertView, e: TicketmasterEvent, artists: Seq<Seq<char>>) -> bool {
    &&& c.artist_names == artists
    &&& c.event_name == text_or(e.name, "Unknown Event"@)
    &&& c.venue == text_or(e.venue_name, "Unknown Venue"@)
    &&& c.city == text_or(e.city_name, "Unknown City"@)
    &&& c.date == text_or(e.local_date, "Unknown Date"@)
}

/// Whether `c` is the concert of `artist_name` alone at one of `events` that lists the artist.
pub open spec fn from_listing_event(c: ConcertView, events: Seq<TicketmasterEvent>, artist_name: Seq<char>) -> bool {
    exists|i: int|
        0 <= i < events.len() && lists_artist(events[i], artist_name) && #[trigger] concert_of_event(
            c,
            events[i],
            seq![artist_name],
        )
}

/// The concerts that one artist's events make, from none: each lists that artist alone and
/// is made of the own name, venue, city and date of an event that lists the artist, and there
/// are no more concerts than events.
pub proof fn law_merge_events_from_events(artist_name: Seq<char>, events: Seq<TicketmasterEvent>)
    ensures
        merge_events(Seq::empty(), artist_name, events).len() <= events.len(),
        forall|k: int|
            0 <= k < merge_events(Seq::empty(), artist_name, events).len() ==> from_listing_event(
                #[trigger] merge_events(Seq::empty(), artist_name, events)[k],
                events,
                artist_name,
            ),
    decreases events.len(),
{
    if events.len() > 0 {
        let p = events.drop_last();
        let e = events.last();
        law_merge_events_from_events(artist_name, p);
        let mp = merge_events(Seq::empty(), artist_name, p);
        let m = merge_events(Seq::empty(), artist_name, events);
        assert forall|k: int| 0 <= k < mp.len() implies from_listing_event(#[trigger] mp[k], events, artist_name) by {
            assert(from_listing_event(mp[k], p, artist_name));
            let i = choose|i: int|
                0 <= i < p.len() && lists_artist(p[i], artist_name) && #[trigger] concert_of_event(
                    mp[k],
                    p[i],
                    seq![artist_name],
                );
            assert(events[i] == p[i]);
            assert(concert_of_event(mp[k], events[i], seq![artist_name]));
        }
        if lists_artist(e, artist_name) {
            let c = event_concert(e, artist_name);
            lemma_index_of_key(mp, concert_key(c));
            match index_of_key(mp, concert_key(c)) {
                Some(i) => {
                    assert(mp[i].artist_names == seq![artist_name]);
                    assert(mp[i].artist_names[0] == artist_name);
                    assert(mp[i].artist_names.contains(artist_name));
                    assert(m == mp);
                },
                None => {
                    assert(m == mp.push(c));
                    assert forall|k: int| 0 <= k < m.len() implies from_listing_event(#[trigger] m[k], events, artist_name) by {
                        if k < mp.len() {
                            assert(m[k] == mp[k]);
                        } else {
                            assert(m[k] == c);
                            assert(events[events.len() - 1] == e);
                            assert(concert_of_event(m[k], events[events.len() - 1], seq![artist_name]));
                        }
                    }
                },
            }
        }
    }
}

/// Merging one concert keeps the concerts well formed: merge keys stay distinct and no
/// concert lists an artist twice.
pub proof fn law_merge_concert_keeps_wf(m: Seq<ConcertView>, artist_name: Seq<char>, c: ConcertView)
    requires
        concerts_wf(m),
        c.artist_names == seq![artist_name],
    ensures
        concerts_wf(merge_concert(m, artist_name, c)),
{
    lemma_index_of_key(m, concert_key(c));
    let r = merge_concert(m, artist_name, c);
    match index_of_key(m, concert_key(c)) {
        Some(i) => {
            if !m[i].artist_names.contains(artist_name) {
                let n = m[i].artist_names.push(artist_name);
                assert(n.no_duplicates()) by {
                    assert forall|a: int, b: int| 0 <= a < b < n.len() implies n[a] != n[b] by {
                        if b == n.len() - 1 {
                            assert(n[a] == m[i].artist_names[a]);
                        } else {
                            assert(n[a] == m[i].artist_names[a] && n[b] == m[i].artist_names[b]);
                        }
                    }
                }
                assert forall|a: int, b: int| 0 <= a < b < r.len() implies concert_key(
                    #[trigger] r[a],
                ) != concert_key(#[trigger] r[b]) by {
                    assert(concert_key(r[a]) == concert_key(m[a]));
                    assert(concert_key(r[b]) == concert_key(m[b]));
                }
                assert forall|a: int| 0 <= a < r.len() implies (#[trigger] r[a]).artist_names.no_duplicates() by {
                    if a != i {
                        assert(r[a] == m[a]);
                    }
                }
            }
        },
        None => {
            assert forall|a: int, b: int| 0 <= a < b < r.len() implies concert_key(
                #[trigger] r[a],
            ) != concert_key(#[trigger] r[b]) by {
                if b == m.len() {
                    assert(r[a] == m[a]);
                } else {
                    assert(r[a] == m[a] && r[b] == m[b]);
                }
            }
            assert forall|a: int| 0 <= a < r.len() implies (#[trigger] r[a]).artist_names.no_duplicates() by {
                if a < m.len() {
                    assert(r[a] == m[a]);
                } else {
                    assert(r[a] == c);
                    assert(seq![artist_name].no_duplicates());
                }
            }
        },
    }
}

/// Adding the events of an artist keeps the concerts well formed: no two concerts share an
/// event name, venue and date (as merge key), and no concert lists an artist twice.
pub proof fn law_merge_events_keeps_wf(m: Seq<ConcertView>, artist_name: Seq<char>, events: Seq<TicketmasterEvent>)
    requires
        concerts_wf(m),
    ensures
        concerts_wf(merge_events(m, artist_name, events)),
    decreases events.len(),
{
    if events.len() > 0 {
        law_merge_events_keeps_wf(m, artist_name, events.drop_last());
        let e = events.last();
        if lists_artist(e, artist_name) {
            law_merge_concert_keeps_wf(
                merge_events(m, artist_name, events.drop_last()),
                artist_name,
                event_concert(e, artist_name),
            );
        }
    }
}

/// The Ticketmaster API key, from `TM_ID` (absent when unset).
pub fn ticketmaster_api_key(api_key: Option<String>) -> (r: Result<String, String>)
    ensures
        match api_key {
            None => r matches Err(e) && e@ == "Missing TicketMaster API Key"@,
            Some(k) => r == Ok::<String, String>(k),
        },
{
    match api_key {
        None => Err(String::from_str("Missing TicketMaster API Key")),
        Some(k) => Ok(k),
    }
}

/// The query of the Ticketmaster event search for one artist: music events in a country,
/// five results.
pub fn event_search_query(api_key: &str, artist_name: &str, country_code: &str) -> (r: Vec<(String, String)>)
    ensures
        pair_texts(r@) == seq![
            ("apikey"@, api_key@),
            ("keyword"@, artist_name@),
            ("countryCode"@, country_code@),
            ("classificationName"@, "music"@),
            ("size"@, "5"@),
        ],
{
    let mut q: Vec<(String, String)> = Vec::new();
    q.push(string_pair("apikey", api_key));
    q.push(string_pair("keyword", artist_name));
    q.push(string_pair("countryCode", country_code));
    q.push(string_pair("classificationName", "music"));
    q.push(string_pair("size", "5"));
    assert(pair_texts(q@) =~= seq![
        ("apikey"@, api_key@),
        ("keyword"@, artist_name@),
        ("countryCode"@, country_code@),
        ("classificationName"@, "music"@),
        ("size"@, "5"@),
    ]);
    q
}

/// The image URL an event shows: that of the first of its widest `16_9` images, else that
/// of its first image.
pub fn choose_image_url(images: &Option<Vec<EventImage>>) -> (r: Option<String>)
    ensures
        opt_view(r) == chosen_image_url(*images),
{
    match images {
        None => None,
        Some(v) => {
            let ghost imgs = v@;
            let mut best: Option<usize> = None;
            let mut i: usize = 0;
            while i < v.len()
                invariant
                    imgs == v@,
                    i <= v.len(),
                    match best {
                        Some(b) => widest_wide_image(imgs, i as int) == Some(b as int) && b < i,
                        None => widest_wide_image(imgs, i as int) is None,
                    },
                decreases v.len() - i,
            {
                let img = &v[i];
                let wide = match &img.ratio {
                    Some(r) => {
                        let rc = chars_of(r.as_str());
                        let target = chars_of("16_9");
                        chars_eq(&rc, &target)
                    },
                    None => false,
                };
                proof {
                    reveal_strlit("16_9");
                }
                let w: u64 = match img.width {
                    Some(w) => w,
                    None => 0,
                };
                let better = match best {
                    None => true,
                    Some(b) => {
                        let bw: u64 = match v[b].width {
                            Some(x) => x,
                            None => 0,
                        };
                        w > bw
                    },
                };
                if wide && better {
                    best = Some(i);
                }
                i = i + 1;
            }
            let pick: Option<&EventImage> = match best {
                Some(b) => Some(&v[b]),
                None => if v.len() > 0 {
                    Some(&v[0])
                } else {
                    None
                },
            };
            match pick {
                None => None,
                Some(img) => match &img.url {
                    Some(u) => Some(u.clone()),
                    None => None,
                },
            }
        },
    }
}

/// The text of `o`, or `default` when it is absent.
pub(crate) fn text_or_default(o: &Option<String>, default: &str) -> (r: String)
    ensures
        r@ == text_or(*o, default@),
{
    match o {
        Some(s) => s.clone(),
        None => String::from_str(default),
    }
}

/// Whether one of `names`, normalised, equals `target`.
pub(crate) fn lists_normalised(names: &Option<Vec<Option<String>>>, target: &Vec<char>) -> (r: bool)
    ensures
        r == match *names {
            None => false,
            Some(v) => exists|i: int|
                0 <= i < v@.len() && (#[trigger] v@[i]) is Some && normalised_name(v@[i]->0@)
                    == target@,
        },
{
    match names {
        None => false,
        Some(v) => {
            let mut i: usize = 0;
            while i < v.len()
                invariant
                    *names == Some(*v),
                    i <= v.len(),
                    forall|k: int|
                        0 <= k < i ==> !((#[trigger] v@[k]) is Some && normalised_name(v@[k]->0@)
                            == target@),
                decreases v.len() - i,
            {
                match &v[i] {
                    Some(n) => {
                        let nn = normalise_artist_name(n.as_str());
                        let nc = chars_of(nn.as_str());
                        if chars_eq(&nc, target) {
                            assert(v@[i as int] is Some && normalised_name(v@[i as int]->0@)
                                == target@);
                            assert(exists|j: int|
                                0 <= j < v@.len() && (#[trigger] v@[j]) is Some && normalised_name(
                                    v@[j]->0@,
                                ) == target@);
                            return true;
                        }
                    },
                    None => {},
                }
                i = i + 1;
            }
            false
        },
    }
}

/// The characters of `a`, `-`, `b`, `-`, `c`.
fn key_chars(a: &String, b: &String, c: &String) -> (k: Vec<char>)
    ensures
        k@ == merge_key(a@, b@, c@),
{
    let mut k = chars_of(a.as_str());
    k.push('-');
    let mut vb = chars_of(b.as_str());
    k.append(&mut vb);
    k.push('-');
    let mut vc = chars_of(c.as_str());
    k.append(&mut vc);
    k
}

/// The concerts merged so far, each with its merge key stored beside it.
struct CollectorState {
    concerts: Vec<Concert>,
    keys: Vec<Vec<char>>,
}

impl View for CollectorState {
    type V = Seq<ConcertView>;

    closed spec fn view(&self) -> Seq<ConcertView> {
        self.concerts@.map_values(|c: Concert| c@)
    }
}

impl CollectorState {
    /// Each concert's merge key is stored beside it, and the concerts are well formed.
    spec fn inv(&self) -> bool {
        &&& self.keys@.len() == self.concerts@.len()
        &&& forall|i: int|
            0 <= i < self.keys@.len() ==> (#[trigger] self.keys@[i])@ == concert_key(
                self.concerts@[i]@,
            )
        &&& concerts_wf(self@)
    }

    /// No concerts.
    fn empty() -> (r: CollectorState)
        ensures
            r.inv(),
            r@ == Seq::<ConcertView>::empty(),
    {
        let r = CollectorState { concerts: Vec::new(), keys: Vec::new() };
        assert(r@ =~= Seq::<ConcertView>::empty());
        r
    }

    /// Adds the concert that an event makes for an artist, merging it into the concert with
    /// the same event, venue and date when there is one.
    fn merge(&mut self, artist_name: &String, e: &TicketmasterEvent)
        requires
            old(self).inv(),
        ensures
            final(self).inv(),
            final(self)@ == merge_concert(old(self)@, artist_name@, event_concert(*e, artist_name@)),
    {
        let event_name = text_or_default(&e.name, "Unknown Event");
        let venue = text_or_default(&e.venue_name, "Unknown Venue");
        let city = text_or_default(&e.city_name, "Unknown City");
        let date = text_or_default(&e.local_date, "Unknown Date");
        let image_url = choose_image_url(&e.images);
        let key = key_chars(&event_name, &venue, &date);
        let ghost c = event_concert(*e, artist_name@);
        assert(key@ == concert_key(c));
        let ghost m = self@;
        let mut i: usize = 0;
        while i < self.keys.len()
            invariant
                self.inv(),
                self@ == m,
                m == old(self)@,
                key@ == concert_key(c),
                c == event_concert(*e, artist_name@),
                i <= self.keys.len(),
                forall|j: int| 0 <= j < i ==> concert_key(#[trigger] m[j]) != key@,
            decreases self.keys.len() - i,
        {
            assert(m[i as int] == self.concerts@[i as int]@);
            if chars_eq(&self.keys[i], &key) {
                assert(self.keys@[i as int]@ == key@);
                assert(concert_key(m[i as int]) == key@);
                proof { lemma_index_of_key(m, key@); }
                assert(index_of_key(m, concert_key(c)) == Some(i as int));
                return self.add_artist_at(i, artist_name);
            }
            i = i + 1;
        }
        proof { lemma_index_of_key(m, key@); }
        let mut names: Vec<String> = Vec::new();
        names.push(artist_name.clone());
        let concert = Concert { artist_names: names, event_name, venue, city, date, image_url };
        assert(concert@.artist_names =~= seq![artist_name@]);
        assert(concert@ == c);
        self.concerts.push(concert);
        self.keys.push(key);
        assert(self@ =~= m.push(c));
        assert forall|a: int, b: int| 0 <= a < b < self@.len() implies concert_key(
            #[trigger] self@[a],
        ) != concert_key(#[trigger] self@[b]) by {
            if b == m.len() {
                assert(self@[a] == m[a]);
            } else {
                assert(self@[a] == m[a] && self@[b] == m[b]);
            }
        }
        assert(seq![artist_name@].no_duplicates());
    }

    /// Adds `artist_name` to the artists of the concert at `i`, unless it is listed there.
    fn add_artist_at(&mut self, i: usize, artist_name: &String)
        requires
            old(self).inv(),
            i < old(self)@.len(),
        ensures
            final(self).inv(),
            final(self)@ == (if old(self)@[i as int].artist_names.contains(artist_name@) {
                old(self)@
            } else {
                old(self)@.update(
                    i as int,
                    ConcertView {
                        artist_names: old(self)@[i as int].artist_names.push(artist_name@),
                        ..old(self)@[i as int]
                    },
                )
            }),
    {
        let ghost m = self@;
        let mut k: usize = 0;
        let n = self.concerts[i].artist_names.len();
        while k < n
            invariant
                self@ == m,
                self.inv(),
                i < self.concerts@.len(),
                n == self.concerts@[i as int].artist_names@.len(),
                k <= n,
                forall|j: int| 0 <= j < k ==> m[i as int].artist_names[j] != artist_name@,
            decreases n - k,
        {
            if self.concerts[i].artist_names[k] == *artist_name {
                assert(m[i as int].artist_names[k as int] == artist_name@);
                return;
            }
            k = k + 1;
        }
        assert(!m[i as int].artist_names.contains(artist_name@));
        let mut c = self.concerts.remove(i);
        c.artist_names.push(artist_name.clone());
        self.concerts.insert(i, c);
        assert(c@.artist_names =~= m[i as int].artist_names.push(artist_name@));
        assert(self@ =~= m.update(
            i as int,
            ConcertView { artist_names: m[i as int].artist_names.push(artist_name@), ..m[i as int] },
        ));
        assert(forall|j: int| 0 <= j < self.keys@.len() ==> (#[trigger] self.keys@[j])@ == concert_key(
            self.concerts@[j]@));
    }

    /// Adds the concerts that the events found for `artist` make, in order.
    fn add_events(&mut self, artist: &Artist, es: &Vec<TicketmasterEvent>)
        requires
            old(self).inv(),
        ensures
            final(self).inv(),
            final(self)@ == merge_events(old(self)@, artist.name@, es@),
    {
        let normalised = normalise_artist_name(artist.name.as_str());
        let target = chars_of(normalised.as_str());
        let ghost m0 = self@;
        let mut i: usize = 0;
        while i < es.len()
            invariant
                self.inv(),
                i <= es.len(),
                target@ == normalised_name(artist.name@),
                self@ == merge_events(m0, artist.name@, es@.take(i as int)),
            decreases es.len() - i,
        {
            let e = &es[i];
            assert(es@.take(i + 1).drop_last() =~= es@.take(i as int));
            if lists_normalised(&e.attraction_names, &target) {
                self.merge(&artist.name, e);
            }
            i = i + 1;
        }
        assert(es@.take(es.len() as int) =~= es@);
    }
}

/// The concerts found so far for the user's artists, merged by event, venue and date: no
/// two share an event name, venue and date, and none lists an artist twice.
pub struct ConcertCollector {
    state: CollectorState,
}

impl View for ConcertCollector {
    type V = Seq<ConcertView>;

    closed spec fn view(&self) -> Seq<ConcertView> {
        self.state@
    }
}

impl ConcertCollector {
    /// The collector's invariant: each concert's merge key is stored beside it, and its
    /// concerts are well formed.
    #[verifier::type_invariant]
    spec fn wf(self) -> bool {
        self.state.inv()
    }

    /// A collector with no concerts.
    pub fn new() -> (r: ConcertCollector)
        ensures
            r@ == Seq::<ConcertView>::empty(),
    {
        ConcertCollector { state: CollectorState::empty() }
    }

    /// Adds the concerts that the events found for `artist` make, in order: those whose
    /// named attractions include the artist (compared by normal form). No events (`None`)
    /// adds nothing.
    pub fn add_artist_events(&mut self, artist: &Artist, events: Option<&Vec<TicketmasterEvent>>)
        ensures
            concerts_wf(final(self)@),
            final(self)@ == match events {
                None => old(self)@,
                Some(es) => merge_events(old(self)@, artist.name@, es@),
            },
    {
        proof {
            use_type_invariant(&*self);
        }
        match events {
            None => {},
            Some(es) => {
                let mut st = CollectorState::empty();
                std::mem::swap(&mut st, &mut self.state);
                st.add_events(artist, es);
                self.state = st;
            },
        }
        proof {
            use_type_invariant(&*self);
        }
    }

    /// The concerts collected, in the order in which each was first found.
    pub fn into_concerts(self) -> (r: Vec<Concert>)
        ensures
            r@.map_values(|c: Concert| c@) == self@,
            concerts_wf(self@),
    {
        proof {
            use_type_invariant(&self);
        }
        self.state.concerts
    }
}

} // verus!
