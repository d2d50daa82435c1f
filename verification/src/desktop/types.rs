//! The records of the desktop app.
use vstd::prelude::*;

verus! {

/// An artist from the user's Spotify top artists.
pub struct Artist {
    pub id: String,
    pub name: String,
}

/// A concert of one of the user's artists.
pub struct Concert {
    pub artist_name: String,
    pub event_name: String,
    pub venue: String,
    pub city: String,
    pub date: String,
}

/// The contents of a desktop [`Concert`], as character sequences.
pub struct ConcertView {
    pub artist_name: Seq<char>,
    pub event_name: Seq<char>,
    pub venue: Seq<char>,
    pub city: Seq<char>,
    pub date: Seq<char>,
}

impl View for Concert {
    type V = ConcertView;

    open spec fn view(&self) -> ConcertView {
        ConcertView {
            artist_name: self.artist_name@,
            event_name: self.event_name@,
            venue: self.venue@,
            city: self.city@,
            date: self.date@,
        }
    }
}

} // verus!
