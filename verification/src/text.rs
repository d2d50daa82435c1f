//! Character-level specifications and helpers shared by the parsers of this crate:
//! Unicode white space, trimming, splitting into words, and building strings.
use vstd::prelude::*;
use vstd::string::*;

verus! {

/// `char::is_whitespace`: the characters with the Unicode `White_Space` property.
pub open spec fn is_space(c: char) -> bool {
    let n = c as int;
    ||| 0x09 <= n <= 0x0D
    ||| n == 0x20
    ||| n == 0x85
    ||| n == 0xA0
    ||| n == 0x1680
    ||| 0x2000 <= n <= 0x200A
    ||| n == 0x2028
    ||| n == 0x2029
    ||| n == 0x202F
    ||| n == 0x205F
    ||| n == 0x3000
}

/// Executable form of [`is_space`].
pub fn char_is_space(c: char) -> (b: bool)
    ensures
        b == is_space(c),
{
    let n = c as u32;
    (0x09 <= n && n <= 0x0D) || n == 0x20 || n == 0x85 || n == 0xA0 || n == 0x1680 || (0x2000
        <= n && n <= 0x200A) || n == 0x2028 || n == 0x2029 || n == 0x202F || n == 0x205F || n
        == 0x3000
}

/// Every character of `s` is ASCII.
pub open spec fn all_ascii(s: Seq<char>) -> bool {
    forall|i: int| 0 <= i < s.len() ==> (#[trigger] s[i]) as int <= 127
}

/// Index of the first non-space character of `s` at or after `i` (or `s.len()`).
pub open spec fn skip_spaces_from(s: Seq<char>, i: int) -> int
    decreases s.len() - i,
{
    if i >= s.len() || i < 0 {
        if i < 0 { 0 } else { s.len() as int }
    } else if is_space(s[i]) {
        skip_spaces_from(s, i + 1)
    } else {
        i
    }
}

/// End of `s` with trailing spaces removed, looking back from `j` and not below `lo`.
pub open spec fn trim_end_from(s: Seq<char>, j: int, lo: int) -> int
    decreases j - lo,
{
    if j <= lo {
        lo
    } else if is_space(s[j - 1]) {
        trim_end_from(s, j - 1, lo)
    } else {
        j
    }
}

/// `str::trim`: `s` without its leading and trailing white space.
pub open spec fn trim(s: Seq<char>) -> Seq<char> {
    let lo = skip_spaces_from(s, 0);
    s.subrange(lo, trim_end_from(s, s.len() as int, lo))
}

/// The maximal runs of non-space characters of `t`, in order (`str::split_whitespace`).
pub open spec fn words(t: Seq<char>) -> Seq<Seq<char>>
    decreases t.len(),
{
    if t.len() == 0 {
        Seq::empty()
    } else {
        let w = words(t.drop_last());
        let c = t.last();
        if is_space(c) {
            w
        } else if t.len() == 1 || is_space(t[t.len() - 2]) {
            w.push(seq![c])
        } else {
            w.update(w.len() - 1, w.last().push(c))
        }
    }
}

/// The words of `ws` joined by single spaces.
pub open spec fn join_words(ws: Seq<Seq<char>>) -> Seq<char>
    decreases ws.len(),
{
    if ws.len() == 0 {
        Seq::empty()
    } else if ws.len() == 1 {
        ws[0]
    } else {
        join_words(ws.drop_last()) + seq![' '] + ws.last()
    }
}

pub proof fn lemma_skip_spaces_bounds(s: Seq<char>, i: int)
    requires
        0 <= i <= s.len(),
    ensures
        i <= skip_spaces_from(s, i) <= s.len(),
        forall|k: int| i <= k < skip_spaces_from(s, i) ==> is_space(#[trigger] s[k]),
        skip_spaces_from(s, i) < s.len() ==> !is_space(s[skip_spaces_from(s, i)]),
    decreases s.len() - i,
{
    if i < s.len() && is_space(s[i]) {
        lemma_skip_spaces_bounds(s, i + 1);
    }
}

pub proof fn lemma_trim_end_bounds(s: Seq<char>, j: int, lo: int)
    requires
        0 <= lo <= j <= s.len(),
    ensures
        lo <= trim_end_from(s, j, lo) <= j,
        forall|k: int| trim_end_from(s, j, lo) <= k < j ==> is_space(#[trigger] s[k]),
        trim_end_from(s, j, lo) > lo ==> !is_space(s[trim_end_from(s, j, lo) - 1]),
    decreases j - lo,
{
    if j > lo && is_space(s[j - 1]) {
        lemma_trim_end_bounds(s, j - 1, lo);
    }
}

/// Trimming a sequence that neither starts nor ends with white space leaves it as it is.
pub proof fn lemma_trim_unchanged(s: Seq<char>)
    requires
        s.len() > 0 ==> !is_space(s[0]) && !is_space(s.last()),
    ensures
        trim(s) == s,
{
    if s.len() > 0 {
        assert(skip_spaces_from(s, 0) == 0);
        assert(trim_end_from(s, s.len() as int, 0) == s.len());
    }
    assert(s.subrange(0, s.len() as int) =~= s);
}

pub proof fn lemma_words_nonempty(t: Seq<char>)
    ensures
        forall|k: int| 0 <= k < words(t).len() ==> (#[trigger] words(t)[k]).len() > 0,
        t.len() > 0 && !is_space(t.last()) ==> words(t).len() > 0,
    decreases t.len(),
{
    if t.len() > 0 {
        let p = t.drop_last();
        lemma_words_nonempty(p);
        let w = words(p);
        let c = t.last();
        if !is_space(c) && !(t.len() == 1 || is_space(t[t.len() - 2])) {
            assert(p.last() == t[t.len() - 2]);
            assert(w.len() > 0);
            let u = w.update(w.len() - 1, w.last().push(c));
            assert(words(t) == u);
            assert forall|k: int| 0 <= k < u.len() implies (#[trigger] u[k]).len() > 0 by {
                if k == w.len() - 1 {
                    assert(u[k] == w.last().push(c));
                } else {
                    assert(u[k] == w[k]);
                }
            }
        } else if !is_space(c) {
            assert(words(t) == w.push(seq![c]));
            assert forall|k: int| 0 <= k < words(t).len() implies (#[trigger] words(t)[k]).len() > 0 by {
                if k < w.len() {
                    assert(words(t)[k] == w[k]);
                }
            }
        }
    }
}

/// No character of `w` is white space.
pub open spec fn no_space(w: Seq<char>) -> bool {
    forall|i: int| 0 <= i < w.len() ==> !is_space(#[trigger] w[i])
}

/// A nonempty run of non-space characters is one word.
pub proof fn lemma_words_single(b: Seq<char>)
    requires
        b.len() > 0,
        no_space(b),
    ensures
        words(b) == seq![b],
    decreases b.len(),
{
    if b.len() > 1 {
        let p = b.drop_last();
        assert(no_space(p)) by {
            assert forall|i: int| 0 <= i < p.len() implies !is_space(#[trigger] p[i]) by {
                assert(p[i] == b[i]);
            }
        }
        lemma_words_single(p);
        assert(b[b.len() - 2] == p.last());
        assert(!is_space(b.last()));
        assert(p.push(b.last()) =~= b);
        assert(words(b) =~= seq![p].update(0, p.push(b.last())));
    } else {
        assert(!is_space(b.last()));
        assert(b =~= seq![b.last()]);
        assert(words(b.drop_last()) =~= Seq::<Seq<char>>::empty());
        assert(words(b) =~= Seq::<Seq<char>>::empty().push(seq![b.last()]));
    }
}

/// Appending a space and then a word adds that word.
pub proof fn lemma_words_append_word(a: Seq<char>, b: Seq<char>)
    requires
        b.len() > 0,
        no_space(b),
    ensures
        words(a + seq![' '] + b) == words(a).push(b),
    decreases b.len(),
{
    let s = a + seq![' '] + b;
    assert(is_space(' '));
    if b.len() == 1 {
        assert(s.drop_last() =~= a + seq![' ']);
        assert((a + seq![' ']).drop_last() =~= a);
        assert(words(a + seq![' ']) == words(a));
        assert(s[s.len() - 2] == ' ');
        assert(!is_space(b[0]));
        assert(b =~= seq![b[0]]);
    } else {
        let p = b.drop_last();
        assert(no_space(p)) by {
            assert forall|i: int| 0 <= i < p.len() implies !is_space(#[trigger] p[i]) by {
                assert(p[i] == b[i]);
            }
        }
        lemma_words_append_word(a, p);
        assert(s.drop_last() =~= a + seq![' '] + p);
        assert(s[s.len() - 2] == b[b.len() - 2]);
        assert(!is_space(b[b.len() - 2]));
        assert(!is_space(b.last()));
        assert(p.push(b.last()) =~= b);
        let w = words(a).push(p);
        assert(w.update(w.len() - 1, w.last().push(b.last())) =~= words(a).push(b));
    }
}

/// Splitting words joined by single spaces gives the words back.
pub proof fn lemma_words_of_join(ws: Seq<Seq<char>>)
    requires
        forall|k: int| 0 <= k < ws.len() ==> (#[trigger] ws[k]).len() > 0 && no_space(ws[k]),
    ensures
        words(join_words(ws)) == ws,
    decreases ws.len(),
{
    if ws.len() == 1 {
        lemma_words_single(ws[0]);
        assert(seq![ws[0]] =~= ws);
    } else if ws.len() > 1 {
        let p = ws.drop_last();
        assert forall|k: int| 0 <= k < p.len() implies (#[trigger] p[k]).len() > 0 && no_space(p[k]) by {
            assert(p[k] == ws[k]);
        }
        lemma_words_of_join(p);
        assert(ws.last() == ws[ws.len() - 1]);
        lemma_words_append_word(join_words(p), ws.last());
        assert(p.push(ws.last()) =~= ws);
    } else {
        assert(ws =~= Seq::<Seq<char>>::empty());
    }
}

/// Every character of words joined by spaces is a space or a character of one of them.
pub proof fn lemma_join_chars(ws: Seq<Seq<char>>, i: int)
    requires
        0 <= i < join_words(ws).len(),
    ensures
        join_words(ws)[i] == ' ' || exists|k: int, j: int|
            0 <= k < ws.len() && 0 <= j < ws[k].len() && join_words(ws)[i] == #[trigger] ws[k][j],
    decreases ws.len(),
{
    if ws.len() == 1 {
        assert(join_words(ws)[i] == ws[0][i]);
    } else if ws.len() > 1 {
        let p = ws.drop_last();
        let a = join_words(p);
        if i < a.len() {
            lemma_join_chars(p, i);
            assert(join_words(ws)[i] == a[i]);
            if a[i] != ' ' {
                let (k, j) = choose|k: int, j: int|
                    0 <= k < p.len() && 0 <= j < p[k].len() && a[i] == #[trigger] p[k][j];
                assert(p[k] == ws[k]);
            }
        } else if i > a.len() {
            assert(join_words(ws)[i] == ws.last()[i - a.len() - 1]);
            assert(ws.last() == ws[ws.len() - 1]);
        }
    }
}

/// The characters of the words of `t` are non-space characters of `t`.
pub proof fn lemma_words_chars(t: Seq<char>)
    ensures
        forall|k: int| 0 <= k < words(t).len() ==> no_space(#[trigger] words(t)[k]),
        forall|k: int, j: int|
            0 <= k < words(t).len() && 0 <= j < words(t)[k].len() ==> exists|i: int|
                0 <= i < t.len() && t[i] == #[trigger] words(t)[k][j],
    decreases t.len(),
{
    if t.len() > 0 {
        let p = t.drop_last();
        lemma_words_chars(p);
        lemma_words_nonempty(p);
        let w = words(p);
        let c = t.last();
        assert forall|k: int, j: int|
            0 <= k < words(t).len() && 0 <= j < words(t)[k].len() implies exists|i: int|
                0 <= i < t.len() && t[i] == #[trigger] words(t)[k][j] by {
            if k < w.len() && (j < w[k].len()) && words(t)[k][j] == w[k][j] {
                let i0 = choose|i: int| 0 <= i < p.len() && p[i] == #[trigger] w[k][j];
                assert(t[i0] == p[i0]);
            } else {
                assert(words(t)[k][j] == c);
                assert(t[t.len() - 1] == c);
            }
        }
        assert forall|k: int| 0 <= k < words(t).len() implies no_space(#[trigger] words(t)[k]) by {
            if !is_space(c) && !(t.len() == 1 || is_space(t[t.len() - 2])) {
                if k == w.len() - 1 {
                    let lw = w.last().push(c);
                    assert(words(t)[k] == lw);
                    assert forall|j: int| 0 <= j < lw.len() implies !is_space(#[trigger] lw[j]) by {
                        if j < w.last().len() {
                            assert(lw[j] == w[w.len() - 1][j]);
                        }
                    }
                }
            } else if !is_space(c) && k == w.len() {
                assert(words(t)[k] == seq![c]);
            }
        }
    }
}

/// Appends one character to a string (`String::push`).
#[verifier::external_body]
pub(crate) fn push_char(s: &mut String, c: char)
    ensures
        final(s)@ == old(s)@.push(c),
{
    s.push(c);
}

/// The characters of a string slice, in order.
pub fn chars_of(s: &str) -> (v: Vec<char>)
    ensures
        v@ == s@,
{
    let mut v: Vec<char> = Vec::new();
    for c in it: s.chars()
        invariant
            v@ == it.seq().take(it.index() as int),
            it.seq() == s@,
    {
        v.push(c);
    }
    v
}

/// The string made of `v[lo..hi]`.
pub fn string_of_range(v: &Vec<char>, lo: usize, hi: usize) -> (s: String)
    requires
        lo <= hi <= v.len(),
    ensures
        s@ == v@.subrange(lo as int, hi as int),
{
    let mut s = String::new();
    let mut i = lo;
    while i < hi
        invariant
            lo <= i <= hi <= v.len(),
            s@ == v@.subrange(lo as int, i as int),
        decreases hi - i,
    {
        push_char(&mut s, v[i]);
        assert(v@.subrange(lo as int, i + 1) == v@.subrange(lo as int, i as int).push(v@[i as int]));
        i = i + 1;
    }
    s
}

/// The string made of all of `v`.
pub fn string_of(v: &Vec<char>) -> (s: String)
    ensures
        s@ == v@,
{
    let s = string_of_range(v, 0, v.len());
    assert(v@.subrange(0, v.len() as int) =~= v@);
    s
}

/// `a` followed by `b`, as a new string.
pub fn concat_str(a: &str, b: &str) -> (s: String)
    ensures
        s@ == a@ + b@,
{
    let mut s = String::from_str(a);
    s.append(b);
    s
}

/// Whether two character sequences are equal.
pub fn chars_eq(a: &Vec<char>, b: &Vec<char>) -> (r: bool)
    ensures
        r == (a@ == b@),
{
    if a.len() != b.len() {
        return false;
    }
    let mut i: usize = 0;
    while i < a.len()
        invariant
            a.len() == b.len(),
            i <= a.len(),
            forall|k: int| 0 <= k < i ==> a@[k] == b@[k],
        decreases a.len() - i,
    {
        if a[i] != b[i] {
            return false;
        }
        i = i + 1;
    }
    assert(a@ =~= b@);
    true
}

/// Whether `p` is a prefix of `v[lo..hi]`.
pub fn is_prefix_at(p: &Vec<char>, v: &Vec<char>, lo: usize, hi: usize) -> (r: bool)
    requires
        lo <= hi <= v.len(),
    ensures
        r == p@.is_prefix_of(v@.subrange(lo as int, hi as int)),
{
    if p.len() > hi - lo {
        return false;
    }
    let mut i: usize = 0;
    while i < p.len()
        invariant
            p.len() <= hi - lo,
            lo <= hi <= v.len(),
            i <= p.len(),
            forall|k: int| 0 <= k < i ==> p@[k] == v@[lo + k],
        decreases p.len() - i,
    {
        if p[i] != v[lo + i] {
            assert(p@[i as int] != v@.subrange(lo as int, hi as int)[i as int]);
            return false;
        }
        i = i + 1;
    }
    assert(p@ =~= v@.subrange(lo as int, hi as int).subrange(0, p.len() as int));
    true
}


/// The views of a sequence of character vectors.
pub open spec fn vec_views(ws: Seq<Vec<char>>) -> Seq<Seq<char>> {
    ws.map_values(|w: Vec<char>| w@)
}

/// `str::split_whitespace`: the words of `v`, in order.
pub fn split_whitespace(v: &Vec<char>) -> (r: Vec<Vec<char>>)
    ensures
        vec_views(r@) == words(v@),
{
    let mut ws: Vec<Vec<char>> = Vec::new();
    let mut i: usize = 0;
    while i < v.len()
        invariant
            i <= v.len(),
            vec_views(ws@) == words(v@.take(i as int)),
        decreases v.len() - i,
    {
        let ghost t0 = v@.take(i as int);
        let ghost t = v@.take(i + 1);
        assert(t.drop_last() =~= t0);
        assert(t.last() == v@[i as int]);
        let c = v[i];
        if !char_is_space(c) {
            if i == 0 || char_is_space(v[i - 1]) {
                let mut w: Vec<char> = Vec::new();
                w.push(c);
                let ghost before = ws@;
                ws.push(w);
                assert(vec_views(ws@) =~= vec_views(before).push(seq![c]));
            } else {
                assert(t[t.len() - 2] == v@[i - 1]);
                assert(t0.last() == v@[i - 1]);
                proof {
                    lemma_words_nonempty(t0);
                }
                assert(vec_views(ws@).len() > 0);
                let ghost before = ws@;
                let mut w = ws.pop().unwrap();
                w.push(c);
                ws.push(w);
                assert(vec_views(ws@) =~= vec_views(before).update(
                    vec_views(before).len() - 1,
                    vec_views(before).last().push(c),
                ));
            }
        }
        i = i + 1;
    }
    assert(v@.take(v.len() as int) =~= v@);
    ws
}

} // verus!
