//! Splitting text into white-space separated words and stripping repeated
//! bytes from its ends.

use vstd::prelude::*;

use crate::text::{copy_range, trim_start_from, trim_start_index, ws_len_at, ws_len_at_exec};

verus! {

/// End of the run of bytes from `i` on that do not begin a white-space character.
pub open spec fn word_end(s: Seq<u8>, i: int) -> int
    decreases s.len() - i,
{
    if 0 <= i < s.len() && ws_len_at(s, i) == 0 {
        word_end(s, i + 1)
    } else {
        i
    }
}

/// The words of `s[i..]`, as `str::split_whitespace` yields them.
pub open spec fn words_from(s: Seq<u8>, i: int) -> Seq<Seq<u8>>
    decreases s.len() - i,
{
    let a = trim_start_from(s, i);
    let e = word_end(s, a);
    if i < 0 || a < i || a >= s.len() || e <= a || e > s.len() {
        Seq::empty()
    } else {
        seq![s.subrange(a, e)] + words_from(s, e)
    }
}

/// The words of `s` (`str::split_whitespace`).
pub open spec fn words(s: Seq<u8>) -> Seq<Seq<u8>> {
    words_from(s, 0)
}

proof fn lemma_word_end_bounds(s: Seq<u8>, i: int)
    requires
        0 <= i <= s.len(),
    ensures
        i <= word_end(s, i) <= s.len(),
        word_end(s, i) < s.len() ==> ws_len_at(s, word_end(s, i)) > 0,
    decreases s.len() - i,
{
    if 0 <= i < s.len() && ws_len_at(s, i) == 0 {
        lemma_word_end_bounds(s, i + 1);
    }
}

proof fn lemma_trim_start_stops(s: Seq<u8>, i: int)
    requires
        0 <= i <= s.len(),
    ensures
        trim_start_from(s, i) < s.len() ==> ws_len_at(s, trim_start_from(s, i)) == 0,
    decreases s.len() - i,
{
    if 0 <= i < s.len() && ws_len_at(s, i) > 0 {
        lemma_trim_start_stops(s, i + ws_len_at(s, i));
    }
}

fn word_end_exec(s: &[u8], i: usize) -> (r: usize)
    requires
        i <= s@.len(),
    ensures
        r as int == word_end(s@, i as int),
        i <= r <= s@.len(),
{
    let mut k = i;
    while k < s.len() && ws_len_at_exec(s, k) == 0
        invariant
            i <= k <= s@.len(),
            word_end(s@, i as int) == word_end(s@, k as int),
        decreases s@.len() - k,
    {
        k = k + 1;
    }
    k
}

/// Splits `s` into words (`str::split_whitespace`).
pub fn split_words(s: &[u8]) -> (r: Vec<Vec<u8>>)
    ensures
        crate::text::vv(r@) == words(s@),
{
    let mut out: Vec<Vec<u8>> = Vec::new();
    let mut i: usize = 0;
    while i < s.len()
        invariant
            i <= s@.len(),
            words(s@) == crate::text::vv(out@) + words_from(s@, i as int),
        decreases s@.len() - i,
    {
        let a = trim_start_index(s, i);
        if a >= s.len() {
            assert(words_from(s@, i as int) =~= Seq::<Seq<u8>>::empty());
            assert(words(s@) =~= crate::text::vv(out@));
            return out;
        }
        let e = word_end_exec(s, a);
        if e <= a {
            proof {
                lemma_word_end_bounds(s@, a as int);
                lemma_trim_start_stops(s@, i as int);
            }
            assert(false);
            return out;
        }
        let w = copy_range(s, a, e);
        let ghost prev = crate::text::vv(out@);
        out.push(w);
        assert(crate::text::vv(out@) =~= prev.push(w@));
        assert(words_from(s@, i as int) == seq![w@] + words_from(s@, e as int));
        assert(words(s@) =~= crate::text::vv(out@) + words_from(s@, e as int));
        i = e;
    }
    assert(words_from(s@, i as int) =~= Seq::<Seq<u8>>::empty());
    assert(words(s@) =~= crate::text::vv(out@));
    out
}

/// Index of the first byte of `s` from `i` on that is not `b`.
pub open spec fn skip_byte(s: Seq<u8>, i: int, b: u8) -> int
    decreases s.len() - i,
{
    if 0 <= i < s.len() && s[i] == b {
        skip_byte(s, i + 1, b)
    } else {
        i
    }
}

/// Index just past the last byte of `s[..j]` that is not `b`.
pub open spec fn skip_byte_back(s: Seq<u8>, j: int, b: u8) -> int
    decreases j,
{
    if 0 < j <= s.len() && s[j - 1] == b {
        skip_byte_back(s, j - 1, b)
    } else {
        j
    }
}

/// `s` without leading copies of `b` (`str::trim_start_matches` with a char).
pub open spec fn strip_leading(s: Seq<u8>, b: u8) -> Seq<u8> {
    s.subrange(skip_byte(s, 0, b), s.len() as int)
}

/// `s` without trailing copies of `b` (`str::trim_end_matches` with a char).
pub open spec fn strip_trailing(s: Seq<u8>, b: u8) -> Seq<u8> {
    s.subrange(0, skip_byte_back(s, s.len() as int, b))
}

/// Removes leading copies of the ASCII byte `b`.
pub fn strip_leading_exec(s: &[u8], b: u8) -> (r: Vec<u8>)
    ensures
        r@ == strip_leading(s@, b),
{
    let mut k: usize = 0;
    while k < s.len() && s[k] == b
        invariant
            k <= s@.len(),
            skip_byte(s@, 0, b) == skip_byte(s@, k as int, b),
        decreases s@.len() - k,
    {
        k = k + 1;
    }
    copy_range(s, k, s.len())
}

/// Removes trailing copies of the ASCII byte `b`.
pub fn strip_trailing_exec(s: &[u8], b: u8) -> (r: Vec<u8>)
    ensures
        r@ == strip_trailing(s@, b),
{
    let mut k: usize = s.len();
    while k > 0 && s[k - 1] == b
        invariant
            k <= s@.len(),
            skip_byte_back(s@, s@.len() as int, b) == skip_byte_back(s@, k as int, b),
        decreases k,
    {
        k = k - 1;
    }
    copy_range(s, 0, k)
}

} // verus!
