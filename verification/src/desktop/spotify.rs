//! Reading the user's top artists from a Spotify response.
use vstd::prelude::*;
use vstd::string::*;
use crate::desktop::types::Artist;
use crate::spotify::{text_or_empty, SpotifyArtistItem};
use crate::ticketmaster::text_or;

verus! {

/// The artists that `items` lists, in order; a missing id or name is empty.
pub open spec fn artists_match_items(artists: Seq<Artist>, items: Seq<SpotifyArtistItem>) -> bool {
    &&& artists.len() == items.len()
    &&& forall|i: int|
        0 <= i < items.len() ==> (#[trigger] artists[i]).id@ == text_or(items[i].id, Seq::empty())
            && artists[i].name@ == text_or(items[i].name, Seq::empty())
}

/// The user's top artists from the `items` of a Spotify response (`None` when the response
/// has no `items` array).
pub fn top_artists_from_items(items: Option<&Vec<SpotifyArtistItem>>) -> (r: Result<Vec<Artist>, String>)
    ensures
        match items {
            None => r matches Err(e) && e@ == "No items in response"@,
            Some(v) => r matches Ok(a) && artists_match_items(a@, v@),
        },
        items matches Some(v) ==> r matches Ok(a) && a@.len() == v@.len() && forall|i: int|
            0 <= i < v@.len() ==> (#[trigger] a@[i]).id@ == text_or(v@[i].id, Seq::empty())
                && a@[i].name@ == text_or(v@[i].name, Seq::empty()),
{
    match items {
        None => Err(String::from_str("No items in response")),
        Some(v) => {
            let mut artists: Vec<Artist> = Vec::new();
            let mut i: usize = 0;
            while i < v.len()
                invariant
                    i <= v.len(),
                    artists_match_items(artists@, v@.take(i as int)),
                decreases v.len() - i,
            {
                let item = &v[i];
                artists.push(Artist { id: text_or_empty(&item.id), name: text_or_empty(&item.name) });
                i = i + 1;
            }
            assert(v@.take(v.len() as int) =~= v@);
            Ok(artists)
        },
    }
}

} // verus!
