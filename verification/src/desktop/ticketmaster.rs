//! Turning Ticketmaster search results into concerts of the user's artists, one per artist,
//! venue and date.
use vstd::prelude::*;
use crate::text::{chars_eq, chars_of};
use crate::ticketmaster::{
    city_of, date_of, event_name_of, lists_artist, lists_normalised, text_or, text_or_default,
    venue_of, TicketmasterEvent,
};
use crate::types::{normalise_artist_name, normalised_name};
use crate::desktop::types::{Artist, Concert, ConcertView};

verus! {

/// The key under which duplicate concerts are dropped: artist, venue and date, joined by `-`.
pub open spec fn dedup_key(c: ConcertView) -> Seq<char> {
    c.artist_name + seq!['-'] + c.venue + seq!['-'] + c.date
}

/// The concert that an event makes for an artist.
pub open spec fn event_concert(e: TicketmasterEvent, artist_name: Seq<char>) -> ConcertView {
    ConcertView {
        artist_name: artist_name,
        event_name: event_name_of(e),
        venue: venue_of(e),
        city: city_of(e),
        date: date_of(e),
    }
}

/// The concerts that the events found for an artist make, in order: those of the events
/// whose named attractions include the artist.
pub open spec fn artist_concerts(artist_name: Seq<char>, events: Seq<TicketmasterEvent>) -> Seq<
    ConcertView,
>
    decreases events.len(),
{
    if events.len() == 0 {
        Seq::empty()
    } else {
        let prev = artist_concerts(artist_name, events.drop_last());
        if lists_artist(events.last(), artist_name) {
            prev.push(event_concert(events.last(), artist_name))
        } else {
            prev
        }
    }
}

/// Whether `c` is the concert of `artist_name` at event `e`, field by field: the event's
/// name, its venue's name, its city's name and its date (each "Unknown ..." when absent).
pub open spec fn concert_from_event(c: ConcertView, e: TicketmasterEvent, artist_name: Seq<char>) -> bool {
    &&& c.artist_name == artist_name
    &&& c.event_name == text_or(e.name, "Unknown Event"@)
    &&& c.venue == text_or(e.venue_name, "Unknown Venue"@)
    &&& c.city == text_or(e.city_name, "Unknown City"@)
    &&& c.date == text_or(e.local_date, "Unknown Date"@)
}

/// Whether `c` is the concert of `artist_name` at one of `events` that lists the artist.
pub open spec fn from_listing_event(c: ConcertView, events: Seq<TicketmasterEvent>, artist_name: Seq<char>) -> bool {
    exists|i: int|
        0 <= i < events.len() && lists_artist(events[i], artist_name) && #[trigger] concert_from_event(
            c,
            events[i],
            artist_name,
        )
}

/// Whether one of `cs` is the concert of `artist_name` at event `e`.
pub open spec fn has_concert_of(cs: Seq<ConcertView>, e: TicketmasterEvent, artist_name: Seq<char>) -> bool {
    exists|k: int| 0 <= k < cs.len() && #[trigger] concert_from_event(cs[k], e, artist_name)
}

/// The concerts of an artist are those of the events that list the artist: each is made of
/// one such event's own name, venue, city and date, every such event gives one, and there are
/// no more concerts than events.
pub proof fn law_artist_concerts_from_events(artist_name: Seq<char>, events: Seq<TicketmasterEvent>)
    ensures
        artist_concerts(artist_name, events).len() <= events.len(),
        forall|k: int|
            0 <= k < artist_concerts(artist_name, events).len() ==> from_listing_event(
                #[trigger] artist_concerts(artist_name, events)[k],
                events,
                artist_name,
            ),
        forall|i: int|
            0 <= i < events.len() && lists_artist(#[trigger] events[i], artist_name) ==> has_concert_of(
                artist_concerts(artist_name, events),
                events[i],
                artist_name,
            ),
    decreases events.len(),
{
    if events.len() > 0 {
        let p = events.drop_last();
        let e = events.last();
        law_artist_concerts_from_events(artist_name, p);
        let ap = artist_concerts(artist_name, p);
        let a = artist_concerts(artist_name, events);
        assert forall|k: int| 0 <= k < a.len() implies from_listing_event(#[trigger] a[k], events, artist_name) by {
            if k < ap.len() {
                assert(a[k] == ap[k]);
                assert(from_listing_event(ap[k], p, artist_name));
                let i = choose|i: int|
                    0 <= i < p.len() && lists_artist(p[i], artist_name) && #[trigger] concert_from_event(
                        ap[k],
                        p[i],
                        artist_name,
                    );
                assert(events[i] == p[i]);
                assert(concert_from_event(a[k], events[i], artist_name));
            } else {
                assert(a[k] == event_concert(e, artist_name));
                assert(events[events.len() - 1] == e);
                assert(concert_from_event(a[k], events[events.len() - 1], artist_name));
            }
        }
        assert forall|i: int|
            0 <= i < events.len() && lists_artist(#[trigger] events[i], artist_name) implies has_concert_of(
                a,
                events[i],
                artist_name,
            ) by {
            if i < p.len() {
                assert(events[i] == p[i]);
                assert(lists_artist(p[i], artist_name));
                assert(has_concert_of(ap, p[i], artist_name));
                let k = choose|k: int| 0 <= k < ap.len() && #[trigger] concert_from_event(ap[k], p[i], artist_name);
                assert(a[k] == ap[k]);
                assert(concert_from_event(a[k], events[i], artist_name));
            } else {
                assert(events[i] == e);
                let k = a.len() - 1;
                assert(a[k] == event_concert(e, artist_name));
                assert(concert_from_event(a[k], events[i], artist_name));
            }
        }
    }
}

/// Whether a concert with dedup key `k` is among `cs`.
pub open spec fn has_key(cs: Seq<ConcertView>, k: Seq<char>) -> bool {
    exists|j: int| 0 <= j < cs.len() && dedup_key(#[trigger] cs[j]) == k
}

/// `cs` without the concerts whose dedup key an earlier concert already has.
pub open spec fn dedup(cs: Seq<ConcertView>) -> Seq<ConcertView>
    decreases cs.len(),
{
    if cs.len() == 0 {
        cs
    } else {
        let d = dedup(cs.drop_last());
        if has_key(cs.drop_last(), dedup_key(cs.last())) {
            d
        } else {
            d.push(cs.last())
        }
    }
}

/// Deduplicating keeps exactly the keys that occur, and never two concerts with one key.
pub proof fn law_dedup_keys(cs: Seq<ConcertView>)
    ensures
        forall|k: Seq<char>| has_key(dedup(cs), k) == has_key(cs, k),
        forall|i: int, j: int|
            0 <= i < j < dedup(cs).len() ==> dedup_key(#[trigger] dedup(cs)[i]) != dedup_key(
                #[trigger] dedup(cs)[j],
            ),
    decreases cs.len(),
{
    if cs.len() > 0 {
        let p = cs.drop_last();
        law_dedup_keys(p);
        let d = dedup(p);
        let c = cs.last();
        assert forall|k: Seq<char>| has_key(dedup(cs), k) == has_key(cs, k) by {
            assert(has_key(dedup(p), k) == has_key(p, k));
            if has_key(cs, k) {
                let j = choose|j: int| 0 <= j < cs.len() && dedup_key(#[trigger] cs[j]) == k;
                if has_key(p, k) {
                    assert(has_key(d, k));
                    let jj = choose|jj: int| 0 <= jj < d.len() && dedup_key(#[trigger] d[jj]) == k;
                    assert(dedup(cs)[jj] == d[jj]);
                    assert(has_key(dedup(cs), k));
                } else {
                    if j < p.len() {
                        assert(p[j] == cs[j]);
                        assert(false);
                    }
                    assert(j == p.len());
                    assert(dedup(cs) == d.push(c));
                    assert(dedup(cs)[d.len() as int] == c);
                    assert(has_key(dedup(cs), k));
                }
            }
            if has_key(dedup(cs), k) {
                let j = choose|j: int| 0 <= j < dedup(cs).len() && dedup_key(#[trigger] dedup(cs)[j]) == k;
                if j < d.len() {
                    assert(dedup(cs)[j] == d[j]);
                    assert(has_key(d, k));
                    assert(has_key(p, k));
                    let jj = choose|jj: int| 0 <= jj < p.len() && dedup_key(#[trigger] p[jj]) == k;
                    assert(cs[jj] == p[jj]);
                    assert(has_key(cs, k));
                } else {
                    assert(dedup(cs) == d.push(c));
                    assert(dedup(cs)[j] == c);
                    assert(cs[cs.len() - 1] == c);
                    assert(has_key(cs, k));
                }
            }
        }
        if !has_key(p, dedup_key(c)) {
            assert forall|i: int, j: int|
                0 <= i < j < dedup(cs).len() implies dedup_key(#[trigger] dedup(cs)[i]) != dedup_key(
                #[trigger] dedup(cs)[j]) by {
                if j == d.len() {
                    assert(dedup(cs)[i] == d[i]);
                    if dedup_key(d[i]) == dedup_key(c) {
                        assert(has_key(d, dedup_key(c)));
                    }
                } else {
                    assert(dedup(cs)[i] == d[i] && dedup(cs)[j] == d[j]);
                }
            }
        }
    }
}

/// The concerts kept so far, each with its dedup key stored beside it, and every concert
/// found.
struct ListState {
    concerts: Vec<Concert>,
    keys: Vec<Vec<char>>,
    found: Ghost<Seq<ConcertView>>,
}

impl View for ListState {
    type V = Seq<ConcertView>;

    closed spec fn view(&self) -> Seq<ConcertView> {
        self.concerts@.map_values(|c: Concert| c@)
    }
}

impl ListState {
    /// Every concert found, duplicates included, in the order found.
    spec fn found(&self) -> Seq<ConcertView> {
        self.found@
    }

    /// The concerts kept are those found, deduplicated, each with its dedup key stored
    /// beside it.
    spec fn inv(&self) -> bool {
        &&& self.keys@.len() == self.concerts@.len()
        &&& forall|i: int|
            0 <= i < self.keys@.len() ==> (#[trigger] self.keys@[i])@ == dedup_key(
                self.concerts@[i]@,
            )
        &&& self@ == dedup(self.found@)
    }

    /// No concerts.
    fn empty() -> (r: ListState)
        ensures
            r.inv(),
            r.found() == Seq::<ConcertView>::empty(),
            r@ == Seq::<ConcertView>::empty(),
    {
        let r = ListState { concerts: Vec::new(), keys: Vec::new(), found: Ghost(Seq::empty()) };
        assert(r@ =~= Seq::<ConcertView>::empty());
        r
    }

    /// Records one found concert; it is kept unless a concert with its artist, venue and
    /// date was found before.
    fn add(&mut self, c: Concert)
        requires
            old(self).inv(),
        ensures
            final(self).inv(),
            final(self).found() == old(self).found().push(c@),
    {
        let key = {
            let mut k = chars_of(c.artist_name.as_str());
            k.push('-');
            let mut vb = chars_of(c.venue.as_str());
            k.append(&mut vb);
            k.push('-');
            let mut vc = chars_of(c.date.as_str());
            k.append(&mut vc);
            k
        };
        assert(key@ == dedup_key(c@));
        proof {
            law_dedup_keys(self.found@);
        }
        let ghost f = self.found@;
        let mut i: usize = 0;
        while i < self.keys.len()
            invariant
                self.inv(),
                self.found@ == f,
                f == old(self).found@,
                forall|k: Seq<char>| has_key(dedup(f), k) == has_key(f, k),
                key@ == dedup_key(c@),
                i <= self.keys.len(),
                forall|j: int| 0 <= j < i ==> dedup_key(#[trigger] self@[j]) != key@,
            decreases self.keys.len() - i,
        {
            assert(self@[i as int] == self.concerts@[i as int]@);
            if chars_eq(&self.keys[i], &key) {
                assert(dedup_key(self@[i as int]) == key@);
                assert(has_key(dedup(f), key@));
                assert(has_key(f, key@));
                self.found = Ghost(f.push(c@));
                assert(f.push(c@).drop_last() =~= f);
                return;
            }
            i = i + 1;
        }
        assert(!has_key(dedup(f), key@));
        let ghost old_view = self@;
        self.concerts.push(c);
        self.keys.push(key);
        self.found = Ghost(f.push(c@));
        assert(f.push(c@).drop_last() =~= f);
        assert(self@ =~= old_view.push(c@));
    }

    /// Records the concerts that the events found for `artist` make, in order.
    fn add_events(&mut self, artist: &Artist, es: &Vec<TicketmasterEvent>)
        requires
            old(self).inv(),
        ensures
            final(self).inv(),
            final(self).found() == old(self).found() + artist_concerts(artist.name@, es@),
    {
        let normalised = normalise_artist_name(artist.name.as_str());
        let target = chars_of(normalised.as_str());
        let ghost f0 = self.found();
        let mut i: usize = 0;
        while i < es.len()
            invariant
                self.inv(),
                i <= es.len(),
                target@ == normalised_name(artist.name@),
                self.found() == f0 + artist_concerts(artist.name@, es@.take(i as int)),
            decreases es.len() - i,
        {
            let e = &es[i];
            assert(es@.take(i + 1).drop_last() =~= es@.take(i as int));
            assert(es@.take(i + 1).last() == *e);
            if lists_normalised(&e.attraction_names, &target) {
                let c = Concert {
                    artist_name: artist.name.clone(),
                    event_name: text_or_default(&e.name, "Unknown Event"),
                    venue: text_or_default(&e.venue_name, "Unknown Venue"),
                    city: text_or_default(&e.city_name, "Unknown City"),
                    date: text_or_default(&e.local_date, "Unknown Date"),
                };
                assert(c@ == event_concert(*e, artist.name@));
                self.add(c);
                assert(f0 + artist_concerts(artist.name@, es@.take(i + 1)) =~= (f0
                    + artist_concerts(artist.name@, es@.take(i as int))).push(c@));
            }
            i = i + 1;
        }
        assert(es@.take(es.len() as int) =~= es@);
    }
}

/// The concerts found so far, without duplicates of artist, venue and date.
pub struct ConcertList {
    state: ListState,
}

impl View for ConcertList {
    type V = Seq<ConcertView>;

    closed spec fn view(&self) -> Seq<ConcertView> {
        self.state@
    }
}

impl ConcertList {
    /// Every concert found, duplicates included, in the order found.
    pub closed spec fn found(&self) -> Seq<ConcertView> {
        self.state.found()
    }

    /// The list's invariant: its concerts are those found, deduplicated, each with its dedup
    /// key stored beside it.
    #[verifier::type_invariant]
    spec fn wf(self) -> bool {
        self.state.inv()
    }

    /// A list with no concerts.
    pub fn new() -> (r: ConcertList)
        ensures
            r.found() == Seq::<ConcertView>::empty(),
            r@ == Seq::<ConcertView>::empty(),
    {
        ConcertList { state: ListState::empty() }
    }

    /// Records the concerts that the events found for `artist` make, in order: one for each
    /// event whose named attractions include the artist (compared by normal form). No
    /// events (`None`) records nothing. The concerts kept are those found, deduplicated.
    pub fn add_artist_events(&mut self, artist: &Artist, events: Option<&Vec<TicketmasterEvent>>)
        ensures
            final(self)@ == dedup(final(self).found()),
            final(self).found() == match events {
                None => old(self).found(),
                Some(es) => old(self).found() + artist_concerts(artist.name@, es@),
            },
    {
        proof {
            use_type_invariant(&*self);
        }
        match events {
            None => {},
            Some(es) => {
                let mut st = ListState::empty();
                std::mem::swap(&mut st, &mut self.state);
                st.add_events(artist, es);
                self.state = st;
            },
        }
        proof {
            use_type_invariant(&*self);
        }
    }

    /// The concerts kept, in the order in which they were found.
    pub fn into_concerts(self) -> (r: Vec<Concert>)
        ensures
            r@.map_values(|c: Concert| c@) == dedup(self.found()),
    {
        proof {
            use_type_invariant(&self);
        }
        self.state.concerts
    }
}

} // verus!
