//! The records of the server: artists, concerts and users, and artist-name normalisation.
use vstd::prelude::*;
use crate::text::{lemma_join_chars, lemma_words_chars, lemma_words_of_join, no_space, lemma_words_nonempty, all_ascii, chars_of, is_space, char_is_space, join_words, string_of, words};
use crate::time::Timestamp;

verus! {

/// An artist from the user's Spotify top artists.
pub struct Artist {
    pub id: String,
    pub name: String,
}

/// A concert found on Ticketmaster, with every followed artist who plays at it.
pub struct Concert {
    pub artist_names: Vec<String>,
    pub event_name: String,
    pub venue: String,
    pub city: String,
    pub date: String,
    pub image_url: Option<String>,
}

/// The contents of a [`Concert`], as character sequences.
pub struct ConcertView {
    pub artist_names: Seq<Seq<char>>,
    pub event_name: Seq<char>,
    pub venue: Seq<char>,
    pub city: Seq<char>,
    pub date: Seq<char>,
    pub image_url: Option<Seq<char>>,
}

/// The view of an optional string.
pub open spec fn opt_view(o: Option<String>) -> Option<Seq<char>> {
    match o {
        Some(s) => Some(s@),
        None => None,
    }
}

impl View for Concert {
    type V = ConcertView;

    open spec fn view(&self) -> ConcertView {
        ConcertView {
            artist_names: self.artist_names@.map_values(|s: String| s@),
            event_name: self.event_name@,
            venue: self.venue@,
            city: self.city@,
            date: self.date@,
            image_url: opt_view(self.image_url),
        }
    }
}

/// A user account: the row of the `users` table.
pub struct User {
    /// The account's UUID, as its 128-bit value.
    pub id: u128,
    pub username: Option<String>,
    pub password_hash: Option<String>,
    pub email: Option<String>,
    pub display_name: String,
    pub google_id: Option<String>,
    pub spotify_refresh_token: Option<String>,
    pub spotify_access_token: Option<String>,
    pub spotify_token_expires_at: Option<Timestamp>,
    pub created_at: Timestamp,
    pub updated_at: Timestamp,
}

/// What `unidecode::unidecode` makes of a string: its ASCII transliteration.
pub uninterp spec fn transliteration(s: Seq<char>) -> Seq<char>;

/// `unidecode::unidecode`: transliterates a string into ASCII. Claimed, as the crate
/// documents: the result is the transliteration of the argument, it is ASCII, and an
/// ASCII string is its own transliteration. The transliteration table is not stated.
#[verifier::external_body]
fn transliterate(s: &str) -> (r: String)
    ensures
        r@ == transliteration(s@),
        all_ascii(r@),
        all_ascii(s@) ==> r@ == s@,
{
    unidecode::unidecode(s)
}

/// `char::to_lowercase` on an ASCII character.
pub open spec fn lower_char(c: char) -> char {
    if 'A' <= c && c <= 'Z' {
        ((c as int) + 32) as char
    } else {
        c
    }
}

/// An ASCII letter or digit (`char::is_alphanumeric` on ASCII).
pub open spec fn is_ascii_alnum(c: char) -> bool {
    ('a' <= c && c <= 'z') || ('A' <= c && c <= 'Z') || ('0' <= c && c <= '9')
}

/// The characters that normalisation keeps: letters, digits and white space.
pub open spec fn is_kept(c: char) -> bool {
    is_ascii_alnum(c) || is_space(c)
}

/// `t` lowercased, character by character.
pub open spec fn lowered(t: Seq<char>) -> Seq<char> {
    Seq::new(t.len(), |i: int| lower_char(t[i]))
}

/// The characters of `t` that normalisation keeps, in order.
pub open spec fn kept(t: Seq<char>) -> Seq<char>
    decreases t.len(),
{
    if t.len() == 0 {
        t
    } else if is_kept(t.last()) {
        kept(t.drop_last()).push(t.last())
    } else {
        kept(t.drop_last())
    }
}

/// Normalisation of an ASCII string: lowercased, without the characters that are neither
/// letters, digits nor white space, and with its words joined by single spaces.
pub open spec fn normalised_ascii(t: Seq<char>) -> Seq<char> {
    join_words(words(kept(lowered(t))))
}

/// The normal form of an artist name: the name normalised, after transliteration into
/// ASCII when it is not ASCII already (transliteration leaves ASCII as it is).
pub open spec fn normalised_name(name: Seq<char>) -> Seq<char> {
    if all_ascii(name) {
        normalised_ascii(name)
    } else {
        normalised_ascii(transliteration(name))
    }
}

/// No white space at either end, and never two spaces in a row.
pub open spec fn single_spaced(r: Seq<char>) -> bool {
    &&& r.len() > 0 ==> r[0] != ' ' && r.last() != ' '
    &&& forall|i: int, j: int|
        0 <= i && j == i + 1 && j < r.len() ==> !(#[trigger] r[i] == ' ' && #[trigger] r[j] == ' ')
}

/// What a normal form looks like: lowercase ASCII letters, digits and single spaces between
/// words.
pub open spec fn is_normal_form(r: Seq<char>) -> bool {
    &&& forall|i: int| 0 <= i < r.len() ==> is_normal_char(#[trigger] r[i])
    &&& single_spaced(r)
}

/// Nonempty words without white space, joined by single spaces, are single spaced.
proof fn lemma_join_single_spaced(ws: Seq<Seq<char>>)
    requires
        forall|k: int| 0 <= k < ws.len() ==> (#[trigger] ws[k]).len() > 0 && no_space(ws[k]),
    ensures
        single_spaced(join_words(ws)),
    decreases ws.len(),
{
    assert(is_space(' '));
    if ws.len() == 1 {
        let w = ws[0];
        assert(no_space(w));
        assert(w.last() == w[w.len() - 1]);
    } else if ws.len() > 1 {
        let p = ws.drop_last();
        assert forall|k: int| 0 <= k < p.len() implies (#[trigger] p[k]).len() > 0 && no_space(p[k]) by {
            assert(p[k] == ws[k]);
        }
        lemma_join_single_spaced(p);
        lemma_join_nonempty(p);
        let a = join_words(p);
        let w = ws.last();
        assert(w == ws[ws.len() - 1]);
        let r = join_words(ws);
        assert(r == a + seq![' '] + w);
        assert(r[0] == a[0]);
        assert(r.last() == w[w.len() - 1]);
        assert(a.last() == a[a.len() - 1]);
        assert forall|i: int, j: int|
            0 <= i && j == i + 1 && j < r.len() implies !(#[trigger] r[i] == ' ' && #[trigger] r[j] == ' ') by {
            if j < a.len() {
                assert(r[i] == a[i] && r[j] == a[j]);
            } else if j == a.len() {
                assert(r[i] == a[a.len() - 1]);
            } else if j == a.len() + 1 {
                assert(r[j] == w[0]);
            } else {
                assert(r[j] == w[j - a.len() - 1]);
            }
        }
    }
}

proof fn lemma_join_nonempty(ws: Seq<Seq<char>>)
    requires
        forall|k: int| 0 <= k < ws.len() ==> (#[trigger] ws[k]).len() > 0,
    ensures
        (join_words(ws).len() == 0) == (ws.len() == 0),
    decreases ws.len(),
{
    if ws.len() > 1 {
        lemma_join_nonempty(ws.drop_last());
    }
}

proof fn lemma_join_extend_last(ws: Seq<Seq<char>>, c: char)
    requires
        ws.len() > 0,
    ensures
        join_words(ws.update(ws.len() - 1, ws.last().push(c))) == join_words(ws).push(c),
{
    let u = ws.update(ws.len() - 1, ws.last().push(c));
    if ws.len() > 1 {
        assert(u.drop_last() =~= ws.drop_last());
    }
}

/// A character that normalised names are made of: a lowercase ASCII letter, a digit or a
/// space.
pub open spec fn is_normal_char(c: char) -> bool {
    ('a' <= c && c <= 'z') || ('0' <= c && c <= '9') || c == ' '
}

proof fn lemma_kept_chars(t: Seq<char>)
    ensures
        forall|i: int|
            0 <= i < kept(t).len() ==> is_kept(#[trigger] kept(t)[i]) && exists|j: int|
                0 <= j < t.len() && t[j] == kept(t)[i],
    decreases t.len(),
{
    if t.len() > 0 {
        lemma_kept_chars(t.drop_last());
        assert forall|i: int| 0 <= i < kept(t).len() implies is_kept(#[trigger] kept(t)[i]) && exists|j: int|
            0 <= j < t.len() && t[j] == kept(t)[i] by {
            let p = t.drop_last();
            if i < kept(p).len() {
                assert(kept(t)[i] == kept(p)[i]);
                let j = choose|j: int| 0 <= j < p.len() && p[j] == kept(p)[i];
                assert(t[j] == p[j]);
            } else {
                assert(kept(t)[i] == t.last());
                assert(t[t.len() - 1] == t.last());
            }
        }
    }
}

proof fn lemma_kept_all(t: Seq<char>)
    requires
        forall|i: int| 0 <= i < t.len() ==> is_kept(#[trigger] t[i]),
    ensures
        kept(t) == t,
    decreases t.len(),
{
    if t.len() > 0 {
        lemma_kept_all(t.drop_last());
        assert(is_kept(t[t.len() - 1]));
        assert(t.drop_last().push(t.last()) =~= t);
    }
}

/// A normalised string is made only of lowercase ASCII letters, digits and single spaces
/// between words: every character is a letter, a digit or a space, there is no space at
/// either end, and never two in a row.
pub proof fn law_normalised_alphabet(u: Seq<char>)
    ensures
        forall|i: int| 0 <= i < normalised_ascii(u).len() ==> is_normal_char(#[trigger] normalised_ascii(u)[i]),
        is_normal_form(normalised_ascii(u)),
{
    let l = lowered(u);
    let t = kept(l);
    let ws = words(t);
    lemma_kept_chars(l);
    lemma_words_chars(t);
    assert forall|i: int| 0 <= i < normalised_ascii(u).len() implies is_normal_char(#[trigger] normalised_ascii(u)[i]) by {
        lemma_join_chars(ws, i);
        let c = normalised_ascii(u)[i];
        if c != ' ' {
            let (k, j) = choose|k: int, j: int| 0 <= k < ws.len() && 0 <= j < ws[k].len() && c == #[trigger] ws[k][j];
            assert(no_space(ws[k]));
            assert(!is_space(ws[k][j]));
            let a = choose|a: int| 0 <= a < t.len() && t[a] == #[trigger] ws[k][j];
            assert(is_kept(t[a]));
            let b = choose|b: int| 0 <= b < l.len() && l[b] == t[a];
            assert(l[b] == lower_char(u[b]));
        }
    }
    lemma_words_nonempty(t);
    lemma_join_single_spaced(ws);
}

/// Normalising is idempotent on any string: a normalised string is ASCII and normalises to
/// itself.
pub proof fn law_normalised_ascii_idempotent(u: Seq<char>)
    ensures
        all_ascii(normalised_ascii(u)),
        normalised_ascii(normalised_ascii(u)) == normalised_ascii(u),
{
    let r = normalised_ascii(u);
    let t = kept(lowered(u));
    law_normalised_alphabet(u);
    assert(lowered(r) =~= r) by {
        assert forall|i: int| 0 <= i < r.len() implies lowered(r)[i] == r[i] by {
            assert(is_normal_char(r[i]));
        }
    }
    assert forall|i: int| 0 <= i < r.len() implies is_kept(#[trigger] r[i]) by {
        assert(is_normal_char(r[i]));
        assert(is_space(' '));
    }
    lemma_kept_all(r);
    lemma_words_nonempty(t);
    lemma_words_chars(t);
    lemma_words_of_join(words(t));
    assert forall|i: int| 0 <= i < r.len() implies (#[trigger] r[i]) as int <= 127 by {
        assert(is_normal_char(r[i]));
    }
}

/// Normalises an ASCII string: lowercase, only letters, digits and white space kept, and
/// the words joined by single spaces.
pub fn normalise_transliterated(s: &str) -> (r: String)
    requires
        all_ascii(s@),
    ensures
        r@ == normalised_ascii(s@),
{
    let v = chars_of(s);
    let mut out: Vec<char> = Vec::new();
    let mut in_word = false;
    let ghost mut t: Seq<char> = Seq::empty();
    let mut i: usize = 0;
    while i < v.len()
        invariant
            v@ == s@,
            all_ascii(v@),
            i <= v.len(),
            t == kept(lowered(v@.take(i as int))),
            out@ == join_words(words(t)),
            in_word == (t.len() > 0 && !is_space(t.last())),
            forall|k: int| 0 <= k < t.len() ==> is_kept(#[trigger] t[k]),
        decreases v.len() - i,
    {
        let ghost t0 = t;
        let c0 = v[i];
        assert(c0 as int <= 127);
        let c = if 'A' <= c0 && c0 <= 'Z' { ((c0 as u8) + 32) as char } else { c0 };
        assert(c == lower_char(c0));
        assert(lowered(v@.take(i + 1)).drop_last() =~= lowered(v@.take(i as int)));
        assert(lowered(v@.take(i + 1)).last() == c);
        let alnum = ('a' <= c && c <= 'z') || ('A' <= c && c <= 'Z') || ('0' <= c && c <= '9');
        let space = char_is_space(c);
        if alnum || space {
            proof {
                t = t0.push(c);
                assert(t.drop_last() =~= t0);
                lemma_words_nonempty(t0);
                lemma_join_nonempty(words(t0));
            }
            if space {
                in_word = false;
            } else if !in_word {
                if out.len() > 0 {
                    out.push(' ');
                }
                out.push(c);
                in_word = true;
                proof {
                    let w = words(t0);
                    assert(words(t) == w.push(seq![c]));
                    if w.len() == 0 {
                        assert(out@ =~= join_words(w.push(seq![c])));
                    } else {
                        assert(w.push(seq![c]).drop_last() =~= w);
                        assert(out@ =~= join_words(w.push(seq![c])));
                    }
                }
            } else {
                out.push(c);
                proof {
                    lemma_join_extend_last(words(t0), c);
                }
            }
        }
        i = i + 1;
    }
    assert(v@.take(v.len() as int) =~= v@);
    string_of(&out)
}

/// Normalises an artist name to lowercase, without accents and without punctuation, for
/// comparing artist names between Spotify and Ticketmaster. The result is made of lowercase
/// ASCII letters, digits and single spaces between words, and is its own normal form.
pub fn normalise_artist_name(name: &str) -> (r: String)
    ensures
        r@ == normalised_name(name@),
        all_ascii(name@) ==> r@ == normalised_ascii(name@),
        is_normal_form(r@),
        normalised_name(r@) == r@,
{
    let t = transliterate(name);
    let r = normalise_transliterated(t.as_str());
    proof {
        law_normalised_alphabet(t@);
        law_normalise_idempotent(name@);
    }
    r
}

/// Normalising an artist name twice gives what normalising it once gives, for any name.
pub proof fn law_normalise_idempotent(name: Seq<char>)
    ensures
        is_normal_form(normalised_name(name)),
        normalised_name(normalised_name(name)) == normalised_name(name),
{
    let u = if all_ascii(name) { name } else { transliteration(name) };
    law_normalised_alphabet(u);
    law_normalised_ascii_idempotent(u);
}

} // verus!
