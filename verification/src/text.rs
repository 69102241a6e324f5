//! Character-sequence helpers: the model of every string in this crate is
//! its sequence of `char`s.

use vstd::prelude::*;

verus! {

/// `prefix` is an initial segment of `s`.
pub open spec fn has_prefix(s: Seq<char>, prefix: Seq<char>) -> bool {
    prefix.len() <= s.len() && s.subrange(0, prefix.len() as int) == prefix
}

/// `suffix` is a final segment of `s`.
pub open spec fn has_suffix(s: Seq<char>, suffix: Seq<char>) -> bool {
    suffix.len() <= s.len() && s.subrange(s.len() - suffix.len(), s.len() as int) == suffix
}

/// `needle` occurs in `hay` starting at index `at`.
pub open spec fn occurs_at(hay: Seq<char>, needle: Seq<char>, at: int) -> bool {
    0 <= at && at + needle.len() <= hay.len() && hay.subrange(at, at + needle.len()) == needle
}

/// `needle` occurs somewhere in `hay` as a contiguous run.
pub open spec fn has_infix(hay: Seq<char>, needle: Seq<char>) -> bool {
    exists|at: int| occurs_at(hay, needle, at)
}

/// The characters of a string slice, in order.
pub fn chars_of(s: &str) -> (out: Vec<char>)
    ensures
        out@ == s@,
{
    let mut out: Vec<char> = Vec::new();
    let it = s.chars();
    for c in iter: it
        invariant
            out@ == iter.seq().take(iter.index@),
    {
        out.push(c);
    }
    out
}

/// Whether two character vectors hold the same text.
pub fn same_chars(a: &Vec<char>, b: &Vec<char>) -> (same: bool)
    ensures
        same == (a@ == b@),
{
    if a.len() != b.len() {
        return false;
    }
    let mut i: usize = 0;
    while i < a.len()
        invariant
            a.len() == b.len(),
            i <= a.len(),
            a@.take(i as int) == b@.take(i as int),
        decreases a.len() - i,
    {
        if a[i] != b[i] {
            return false;
        }
        proof {
            assert(a@.take(i + 1) == a@.take(i as int).push(a@[i as int]));
            assert(b@.take(i + 1) == b@.take(i as int).push(b@[i as int]));
        }
        i += 1;
    }
    proof {
        assert(a@.take(a.len() as int) == a@);
        assert(b@.take(b.len() as int) == b@);
    }
    true
}

/// Whether two string slices hold the same text.
pub fn same_text(a: &str, b: &str) -> (same: bool)
    ensures
        same == (a@ == b@),
{
    let left = chars_of(a);
    let right = chars_of(b);
    same_chars(&left, &right)
}

/// Whether `needle` occurs in `hay` at index `at`.
pub fn matches_at(hay: &Vec<char>, needle: &Vec<char>, at: usize) -> (hit: bool)
    requires
        at + needle.len() <= hay.len(),
    ensures
        hit == occurs_at(hay@, needle@, at as int),
{
    let mut k: usize = 0;
    while k < needle.len()
        invariant
            at + needle.len() <= hay.len(),
            k <= needle.len(),
            hay@.subrange(at as int, at + k) == needle@.take(k as int),
        decreases needle.len() - k,
    {
        if hay[at + k] != needle[k] {
            proof {
                let cut = hay@.subrange(at as int, at + needle.len());
                assert(cut[k as int] == hay@[at + k]);
            }
            return false;
        }
        proof {
            assert(hay@.subrange(at as int, at + k + 1) == hay@.subrange(at as int, at + k).push(
                hay@[at + k],
            ));
            assert(needle@.take(k + 1) == needle@.take(k as int).push(needle@[k as int]));
        }
        k += 1;
    }
    proof {
        assert(needle@.take(needle.len() as int) == needle@);
    }
    true
}

/// Whether `hay` starts with `prefix`.
pub fn starts_with(hay: &Vec<char>, prefix: &Vec<char>) -> (hit: bool)
    ensures
        hit == has_prefix(hay@, prefix@),
{
    if prefix.len() > hay.len() {
        return false;
    }
    matches_at(hay, prefix, 0)
}

/// Whether `hay` ends with `suffix`.
pub fn ends_with(hay: &Vec<char>, suffix: &Vec<char>) -> (hit: bool)
    ensures
        hit == has_suffix(hay@, suffix@),
{
    if suffix.len() > hay.len() {
        return false;
    }
    matches_at(hay, suffix, hay.len() - suffix.len())
}

/// Whether `needle` occurs anywhere in `hay`. The empty text occurs in
/// every text.
pub fn contains(hay: &Vec<char>, needle: &Vec<char>) -> (hit: bool)
    ensures
        hit == has_infix(hay@, needle@),
{
    if needle.len() > hay.len() {
        return false;
    }
    if needle.len() == 0 {
        proof {
            assert(hay@.subrange(0, 0) == needle@);
            assert(occurs_at(hay@, needle@, 0));
        }
        return true;
    }
    let last: usize = hay.len() - needle.len();
    let mut at: usize = 0;
    while at <= last
        invariant
            0 < needle.len() <= hay.len(),
            last == hay.len() - needle.len(),
            at <= last + 1,
            forall|j: int| 0 <= j < at ==> !occurs_at(hay@, needle@, j),
        decreases last + 1 - at,
    {
        if matches_at(hay, needle, at) {
            return true;
        }
        at += 1;
    }
    false
}

/// The lower-case form of a text, as `str::to_lowercase` gives it.
pub uninterp spec fn lowercased(s: Seq<char>) -> Seq<char>;

/// Lower-cases a text with `str::to_lowercase`.
///
/// Trusted: the result is the named lower-case form of the argument.
#[verifier::external_body]
pub(crate) fn lowercase(s: &str) -> (lower: String)
    ensures
        lower@ == lowercased(s@),
{
    s.to_lowercase()
}

/// Whether a character is white space, as `char::is_whitespace` tells it.
pub uninterp spec fn is_space(c: char) -> bool;

/// Asks `char::is_whitespace`.
///
/// Trusted: the answer is the named property of the character.
#[verifier::external_body]
pub(crate) fn is_whitespace(c: char) -> (space: bool)
    ensures
        space == is_space(c),
{
    c.is_whitespace()
}

/// The index of the first character in `lo..hi` that is no white space,
/// or `hi` where there is none.
pub open spec fn first_kept(s: Seq<char>, lo: int, hi: int) -> int
    decreases hi - lo,
{
    if lo < hi && is_space(s[lo]) {
        first_kept(s, lo + 1, hi)
    } else {
        lo
    }
}

/// The index just past the last character in `lo..hi` that is no white
/// space, or `lo` where there is none.
pub open spec fn last_kept(s: Seq<char>, lo: int, hi: int) -> int
    decreases hi - lo,
{
    if lo < hi && is_space(s[hi - 1]) {
        last_kept(s, lo, hi - 1)
    } else {
        hi
    }
}

/// A text without its leading and trailing white space.
pub open spec fn trimmed(s: Seq<char>) -> Seq<char> {
    let from = first_kept(s, 0, s.len() as int);
    s.subrange(from, last_kept(s, from, s.len() as int))
}

/// The pieces of a text between occurrences of `sep`: one more piece than
/// there are separators, so the empty text has one empty piece.
pub open spec fn split_on(s: Seq<char>, sep: char) -> Seq<Seq<char>>
    decreases s.len(),
{
    if s.len() == 0 {
        seq![Seq::empty()]
    } else {
        let before = split_on(s.drop_last(), sep);
        if s.last() == sep {
            before.push(Seq::empty())
        } else {
            before.drop_last().push(before.last().push(s.last()))
        }
    }
}

/// Each piece of a split, trimmed.
pub open spec fn split_trimmed(s: Seq<char>, sep: char) -> Seq<Seq<char>> {
    let pieces = split_on(s, sep);
    Seq::new(pieces.len(), |i: int| trimmed(pieces[i]))
}

/// A split always has a piece.
pub proof fn lemma_split_nonempty(s: Seq<char>, sep: char)
    ensures
        split_on(s, sep).len() >= 1,
    decreases s.len(),
{
    if s.len() > 0 {
        lemma_split_nonempty(s.drop_last(), sep);
    }
}

/// The kept part of a window lies inside it, with nothing but white space
/// before it, and starts with a character that is none.
pub proof fn lemma_first_kept(s: Seq<char>, lo: int, hi: int)
    requires
        0 <= lo <= hi <= s.len(),
    ensures
        lo <= first_kept(s, lo, hi) <= hi,
        forall|i: int| lo <= i < first_kept(s, lo, hi) ==> is_space(#[trigger] s[i]),
        first_kept(s, lo, hi) < hi ==> !is_space(s[first_kept(s, lo, hi)]),
    decreases hi - lo,
{
    if lo < hi && is_space(s[lo]) {
        lemma_first_kept(s, lo + 1, hi);
    }
}

/// The kept part of a window lies inside it, with nothing but white space
/// after it, and ends with a character that is none.
pub proof fn lemma_last_kept(s: Seq<char>, lo: int, hi: int)
    requires
        0 <= lo <= hi <= s.len(),
    ensures
        lo <= last_kept(s, lo, hi) <= hi,
        forall|i: int| last_kept(s, lo, hi) <= i < hi ==> is_space(#[trigger] s[i]),
        lo < last_kept(s, lo, hi) ==> !is_space(s[last_kept(s, lo, hi) - 1]),
    decreases hi - lo,
{
    if lo < hi && is_space(s[hi - 1]) {
        lemma_last_kept(s, lo, hi - 1);
    }
}

/// A trimmed text neither starts nor ends with white space, and trimming
/// it again changes nothing.
pub proof fn lemma_trimmed_is_trim(s: Seq<char>)
    ensures
        trimmed(s).len() > 0 ==> !is_space(trimmed(s).first()) && !is_space(trimmed(s).last()),
        trimmed(s).len() <= s.len(),
        trimmed(trimmed(s)) == trimmed(s),
{
    let from = first_kept(s, 0, s.len() as int);
    lemma_first_kept(s, 0, s.len() as int);
    let to = last_kept(s, from, s.len() as int);
    lemma_last_kept(s, from, s.len() as int);
    let t = trimmed(s);
    if t.len() > 0 {
        assert(t.first() == s[from]);
        assert(t.last() == s[to - 1]);
        assert(t.subrange(0, t.len() as int) == t);
    } else {
        assert(t.subrange(0, 0) == t);
    }
}

/// No piece of a split holds the separator, and the pieces number one more
/// than the separators in the text.
pub proof fn lemma_split_pieces(s: Seq<char>, sep: char)
    ensures
        forall|k: int|
            0 <= k < split_on(s, sep).len() ==> !(#[trigger] split_on(s, sep)[k]).contains(sep),
        split_on(s, sep).len() == 1 + s.filter(|c: char| c == sep).len(),
    decreases s.len(),
{
    let is_sep = |c: char| c == sep;
    reveal(Seq::filter);
    if s.len() > 0 {
        let front = s.drop_last();
        lemma_split_pieces(front, sep);
        lemma_split_nonempty(front, sep);
        let before = split_on(front, sep);
        let pieces = split_on(s, sep);
        assert forall|k: int| 0 <= k < pieces.len() implies !(#[trigger] pieces[k]).contains(
            sep,
        ) by {
            if s.last() == sep {
                if k < before.len() {
                    assert(pieces[k] == before[k]);
                }
            } else {
                if k < before.len() - 1 {
                    assert(pieces[k] == before[k]);
                } else {
                    let grown = before.last().push(s.last());
                    assert(pieces[k] == grown);
                    if grown.contains(sep) {
                        let i = choose|i: int| 0 <= i < grown.len() && grown[i] == sep;
                        assert(before.last()[i] == sep);
                        assert(before[before.len() - 1].contains(sep));
                    }
                }
            }
        }
    }
}

/// The bounds of the window `lo..hi` of `chars` once white space is cut
/// from both ends.
pub fn trim_window(chars: &Vec<char>, lo: usize, hi: usize) -> (cut: (usize, usize))
    requires
        lo <= hi <= chars.len(),
    ensures
        lo <= cut.0 <= cut.1 <= hi,
        cut.0 - lo == first_kept(chars@.subrange(lo as int, hi as int), 0, hi - lo),
        cut.1 - lo == last_kept(chars@.subrange(lo as int, hi as int), cut.0 - lo, hi - lo),
        chars@.subrange(cut.0 as int, cut.1 as int) == trimmed(chars@.subrange(lo as int, hi as int)),
{
    let ghost w = chars@.subrange(lo as int, hi as int);
    let mut a: usize = lo;
    while a < hi && is_whitespace(chars[a])
        invariant
            lo <= a <= hi <= chars.len(),
            w == chars@.subrange(lo as int, hi as int),
            first_kept(w, 0, w.len() as int) == first_kept(w, a - lo, w.len() as int),
        decreases hi - a,
    {
        proof {
            assert(w[a - lo] == chars@[a as int]);
        }
        a += 1;
    }
    proof {
        if a < hi {
            assert(w[a - lo] == chars@[a as int]);
        }
    }
    let mut b: usize = hi;
    while a < b && is_whitespace(chars[b - 1])
        invariant
            lo <= a <= b <= hi <= chars.len(),
            w == chars@.subrange(lo as int, hi as int),
            last_kept(w, a - lo, w.len() as int) == last_kept(w, a - lo, b - lo),
        decreases b - a,
    {
        proof {
            assert(w[b - 1 - lo] == chars@[b - 1]);
        }
        b -= 1;
    }
    proof {
        if a < b {
            assert(w[b - 1 - lo] == chars@[b - 1]);
        }
        assert(w.subrange(a - lo, b - lo) == chars@.subrange(a as int, b as int));
    }
    (a, b)
}

/// Splits a text at each `sep` and trims every piece.
pub fn split_and_trim(s: &str, sep: char) -> (pieces: Vec<String>)
    ensures
        pieces.deep_view() == split_trimmed(s@, sep),
{
    let chars = chars_of(s);
    let mut pieces: Vec<String> = Vec::new();
    let mut start: usize = 0;
    let mut i: usize = 0;
    let ghost mut raw: Seq<Seq<char>> = Seq::empty();
    proof {
        assert(chars@.take(0).len() == 0);
        assert(chars@.subrange(0, 0) =~= Seq::<char>::empty());
        assert(raw.push(chars@.subrange(0, 0)) =~= seq![Seq::<char>::empty()]);
    }
    while i < chars.len()
        invariant
            chars@ == s@,
            start <= i <= chars.len(),
            split_on(chars@.take(i as int), sep) == raw.push(chars@.subrange(start as int, i as int)),
            pieces.len() == raw.len(),
            forall|k: int| 0 <= k < raw.len() ==> (#[trigger] pieces[k])@ == trimmed(raw[k]),
        decreases chars.len() - i,
    {
        proof {
            let next = chars@.take(i + 1);
            assert(next.drop_last() == chars@.take(i as int));
            assert(next.last() == chars@[i as int]);
        }
        if chars[i] == sep {
            let cut = trim_window(&chars, start, i);
            let piece = s.substring_char(cut.0, cut.1).to_owned();
            proof {
                raw = raw.push(chars@.subrange(start as int, i as int));
                assert(chars@.subrange(i + 1, i + 1) == Seq::<char>::empty());
            }
            pieces.push(piece);
            start = i + 1;
        } else {
            proof {
                let window = chars@.subrange(start as int, i as int);
                assert(raw.push(window).drop_last() == raw);
                assert(window.push(chars@[i as int]) == chars@.subrange(start as int, i + 1));
            }
        }
        i += 1;
    }
    let cut = trim_window(&chars, start, i);
    let piece = s.substring_char(cut.0, cut.1).to_owned();
    proof {
        assert(chars@.take(i as int) == chars@);
        raw = raw.push(chars@.subrange(start as int, i as int));
    }
    pieces.push(piece);
    proof {
        assert(pieces.deep_view() =~= split_trimmed(s@, sep)) by {
            assert forall|k: int| 0 <= k < pieces.len() implies pieces.deep_view()[k] == trimmed(
                raw[k],
            ) by {
                assert(pieces.deep_view()[k] == pieces[k]@);
            }
        }
    }
    pieces
}

} // verus!
