//! Byte-level text primitives shared by every pass.
//!
//! Source text is handled as its UTF-8 bytes. Every search, trim and case
//! fold used by the rules is defined here over `Seq<u8>` and implemented
//! with loops whose results match those definitions.

use vstd::prelude::*;

verus! {

/// `needle` occurs in `hay` starting at byte `i`.
pub open spec fn occurs_at(hay: Seq<u8>, needle: Seq<u8>, i: int) -> bool {
    &&& 0 <= i
    &&& i + needle.len() <= hay.len()
    &&& forall|k: int| 0 <= k < needle.len() ==> #[trigger] hay[i + k] == needle[k]
}

/// `needle` occurs somewhere in `hay` (the empty needle occurs everywhere).
pub open spec fn seq_contains(hay: Seq<u8>, needle: Seq<u8>) -> bool {
    exists|i: int| occurs_at(hay, needle, i)
}

/// `hay` begins with `prefix`.
pub open spec fn seq_starts_with(hay: Seq<u8>, prefix: Seq<u8>) -> bool {
    occurs_at(hay, prefix, 0)
}

/// `hay` ends with `suffix`.
pub open spec fn seq_ends_with(hay: Seq<u8>, suffix: Seq<u8>) -> bool {
    suffix.len() <= hay.len() && occurs_at(hay, suffix, hay.len() - suffix.len())
}

/// Index of the first occurrence of `needle` at or after `from`, if any.
pub open spec fn first_occurrence_from(hay: Seq<u8>, needle: Seq<u8>, from: int) -> Option<int>
    decreases hay.len() + 1 - from,
{
    if from < 0 || from > hay.len() {
        None
    } else if occurs_at(hay, needle, from) {
        Some(from)
    } else {
        first_occurrence_from(hay, needle, from + 1)
    }
}

/// Index of the first occurrence of `needle` in `hay`, if any.
pub open spec fn first_occurrence(hay: Seq<u8>, needle: Seq<u8>) -> Option<int> {
    first_occurrence_from(hay, needle, 0)
}

/// ASCII letter folded to lower case; other bytes are unchanged.
pub open spec fn lower_byte(b: u8) -> u8 {
    if 65 <= b <= 90 {
        (b + 32) as u8
    } else {
        b
    }
}

/// The whole sequence folded to ASCII lower case.
pub open spec fn seq_lower(s: Seq<u8>) -> Seq<u8> {
    s.map_values(|b: u8| lower_byte(b))
}

pub open spec fn is_ascii_digit(b: u8) -> bool {
    48 <= b <= 57
}

pub open spec fn is_ascii_upper(b: u8) -> bool {
    65 <= b <= 90
}

pub open spec fn is_ascii_alpha(b: u8) -> bool {
    65 <= b <= 90 || 97 <= b <= 122
}

pub open spec fn is_ascii_alnum(b: u8) -> bool {
    is_ascii_alpha(b) || is_ascii_digit(b)
}

/// Identifier byte: ASCII letter, digit or underscore.
pub open spec fn is_ident_byte(b: u8) -> bool {
    is_ascii_alnum(b) || b == 95
}

/// ASCII white space as recognised by `char::is_whitespace`.
pub open spec fn is_ascii_ws(b: u8) -> bool {
    (9 <= b <= 13) || b == 32
}

/// `b` is one of the UTF-8 encodings of a three-byte white-space character
/// (U+1680, U+2000..U+200A, U+2028, U+2029, U+202F, U+205F, U+3000).
pub open spec fn is_ws3(b0: u8, b1: u8, b2: u8) -> bool {
    ||| (b0 == 0xE1 && b1 == 0x9A && b2 == 0x80)
    ||| (b0 == 0xE2 && b1 == 0x80 && ((0x80 <= b2 <= 0x8A) || b2 == 0xA8 || b2 == 0xA9 || b2 == 0xAF))
    ||| (b0 == 0xE2 && b1 == 0x81 && b2 == 0x9F)
    ||| (b0 == 0xE3 && b1 == 0x80 && b2 == 0x80)
}

/// Length of the white-space character that starts at byte `i`, or 0.
pub open spec fn ws_len_at(s: Seq<u8>, i: int) -> int {
    if 0 <= i < s.len() && is_ascii_ws(s[i]) {
        1
    } else if 0 <= i && i + 1 < s.len() && s[i] == 0xC2 && (s[i + 1] == 0x85 || s[i + 1] == 0xA0) {
        2
    } else if 0 <= i && i + 2 < s.len() && is_ws3(s[i], s[i + 1], s[i + 2]) {
        3
    } else {
        0
    }
}

/// Length of the white-space character that ends just before byte `j`, or 0.
pub open spec fn ws_len_before(s: Seq<u8>, j: int) -> int {
    if 1 <= j <= s.len() && is_ascii_ws(s[j - 1]) {
        1
    } else if 2 <= j <= s.len() && s[j - 2] == 0xC2 && (s[j - 1] == 0x85 || s[j - 1] == 0xA0) {
        2
    } else if 3 <= j <= s.len() && is_ws3(s[j - 3], s[j - 2], s[j - 1]) {
        3
    } else {
        0
    }
}

/// First byte of `s` at or after `i` that does not begin a white-space character.
pub open spec fn trim_start_from(s: Seq<u8>, i: int) -> int
    decreases s.len() - i,
{
    if 0 <= i < s.len() && ws_len_at(s, i) > 0 {
        trim_start_from(s, i + ws_len_at(s, i))
    } else {
        i
    }
}

/// End of `s[lo..j]` once white-space characters are removed from its end.
pub open spec fn trim_end_from(s: Seq<u8>, lo: int, j: int) -> int
    decreases j,
{
    if lo < j && j <= s.len() && ws_len_before(s, j) > 0 && j - ws_len_before(s, j) >= lo {
        trim_end_from(s, lo, j - ws_len_before(s, j))
    } else {
        j
    }
}

/// `s` without leading white space, as `str::trim_start` gives it.
pub open spec fn seq_trim_start(s: Seq<u8>) -> Seq<u8> {
    s.subrange(trim_start_from(s, 0), s.len() as int)
}

/// `s` without trailing white space, as `str::trim_end` gives it.
pub open spec fn seq_trim_end(s: Seq<u8>) -> Seq<u8> {
    s.subrange(0, trim_end_from(s, 0, s.len() as int))
}

/// `s` without leading and trailing white space, as `str::trim` gives it.
pub open spec fn seq_trim(s: Seq<u8>) -> Seq<u8> {
    let a = trim_start_from(s, 0);
    s.subrange(a, trim_end_from(s, a, s.len() as int))
}

proof fn lemma_trim_start_bounds(s: Seq<u8>, i: int)
    requires
        0 <= i <= s.len(),
    ensures
        i <= trim_start_from(s, i) <= s.len(),
    decreases s.len() - i,
{
    if 0 <= i < s.len() && ws_len_at(s, i) > 0 {
        lemma_trim_start_bounds(s, i + ws_len_at(s, i));
    }
}

proof fn lemma_trim_end_bounds(s: Seq<u8>, lo: int, j: int)
    requires
        0 <= lo <= j <= s.len(),
    ensures
        lo <= trim_end_from(s, lo, j) <= j,
    decreases j,
{
    if lo < j && j <= s.len() && ws_len_before(s, j) > 0 && j - ws_len_before(s, j) >= lo {
        lemma_trim_end_bounds(s, lo, j - ws_len_before(s, j));
    }
}

/// Byte equality of two slices.
pub fn bytes_eq(a: &[u8], b: &[u8]) -> (r: bool)
    ensures
        r == (a@ == b@),
{
    if a.len() != b.len() {
        return false;
    }
    let mut k: usize = 0;
    while k < a.len()
        invariant
            a@.len() == b@.len(),
            k <= a@.len(),
            forall|t: int| 0 <= t < k ==> a@[t] == b@[t],
        decreases a@.len() - k,
    {
        if a[k] != b[k] {
            return false;
        }
        k = k + 1;
    }
    assert(a@ =~= b@);
    true
}

/// Whether `needle` occurs at byte `i` of `hay`.
pub fn matches_at(hay: &[u8], needle: &[u8], i: usize) -> (r: bool)
    ensures
        r == occurs_at(hay@, needle@, i as int),
{
    if i > hay.len() || needle.len() > hay.len() - i {
        return false;
    }
    let mut k: usize = 0;
    let n = hay.len();
    while k < needle.len()
        invariant
            n == hay@.len(),
            i + needle@.len() <= hay@.len(),
            i <= hay@.len(),
            k <= needle@.len(),
            forall|t: int| 0 <= t < k ==> #[trigger] hay@[i + t] == needle@[t],
        decreases needle@.len() - k,
    {
        assert(i + k < hay@.len());
        if hay[i + k] != needle[k] {
            assert(hay@[i + k as int] != needle@[k as int]);
            return false;
        }
        k = k + 1;
    }
    true
}

/// First occurrence of `needle` at or after `from` (`str::find` on a suffix).
pub fn find_from(hay: &[u8], needle: &[u8], from: usize) -> (r: Option<usize>)
    ensures
        from <= hay@.len() ==> r == (match first_occurrence_from(hay@, needle@, from as int) {
            Some(i) => Some(i as usize),
            None => None::<usize>,
        }),
        from > hay@.len() ==> r is None,
        r matches Some(i) ==> occurs_at(hay@, needle@, i as int) && from <= i,
{
    if from > hay.len() {
        return None;
    }
    let mut i: usize = from;
    while i <= hay.len()
        invariant
            from <= i <= hay@.len() + 1,
            first_occurrence_from(hay@, needle@, from as int) == first_occurrence_from(
                hay@,
                needle@,
                i as int,
            ),
        decreases hay@.len() + 1 - i,
    {
        if matches_at(hay, needle, i) {
            return Some(i);
        }
        if i == hay.len() {
            assert(first_occurrence_from(hay@, needle@, i as int + 1) is None);
            return None;
        }
        i = i + 1;
    }
    None
}

/// First occurrence of `needle` in `hay` (`str::find`).
pub fn find(hay: &[u8], needle: &[u8]) -> (r: Option<usize>)
    ensures
        r == (match first_occurrence(hay@, needle@) {
            Some(i) => Some(i as usize),
            None => None::<usize>,
        }),
        r matches Some(i) ==> occurs_at(hay@, needle@, i as int),
{
    find_from(hay, needle, 0)
}

pub proof fn lemma_first_occurrence_from_none(hay: Seq<u8>, needle: Seq<u8>, from: int, i: int)
    requires
        0 <= from <= i,
        first_occurrence_from(hay, needle, from) is None,
    ensures
        !occurs_at(hay, needle, i),
    decreases i - from,
{
    if from <= hay.len() && !occurs_at(hay, needle, from) && from < i {
        lemma_first_occurrence_from_none(hay, needle, from + 1, i);
    }
}

pub proof fn lemma_first_occurrence_from_some(hay: Seq<u8>, needle: Seq<u8>, from: int)
    requires
        0 <= from,
    ensures
        first_occurrence_from(hay, needle, from) matches Some(i) ==> from <= i && occurs_at(
            hay,
            needle,
            i,
        ) && forall|j: int| from <= j < i ==> !occurs_at(hay, needle, j),
    decreases hay.len() + 1 - from,
{
    if from <= hay.len() && !occurs_at(hay, needle, from) {
        lemma_first_occurrence_from_some(hay, needle, from + 1);
    }
}

/// `needle` occurs in `hay` (`str::contains`).
pub fn contains(hay: &[u8], needle: &[u8]) -> (r: bool)
    ensures
        r == seq_contains(hay@, needle@),
{
    match find(hay, needle) {
        Some(_) => true,
        None => {
            proof {
                assert forall|i: int| !occurs_at(hay@, needle@, i) by {
                    if i >= 0 {
                        lemma_first_occurrence_from_none(hay@, needle@, 0, i);
                    }
                }
            }
            false
        },
    }
}

/// `hay` starts with `prefix` (`str::starts_with`).
pub fn starts_with(hay: &[u8], prefix: &[u8]) -> (r: bool)
    ensures
        r == seq_starts_with(hay@, prefix@),
{
    matches_at(hay, prefix, 0)
}

/// `hay` ends with `suffix` (`str::ends_with`).
pub fn ends_with(hay: &[u8], suffix: &[u8]) -> (r: bool)
    ensures
        r == seq_ends_with(hay@, suffix@),
{
    if suffix.len() > hay.len() {
        return false;
    }
    matches_at(hay, suffix, hay.len() - suffix.len())
}

/// ASCII lower-case copy (`str::to_ascii_lowercase`).
pub fn to_lower(s: &[u8]) -> (r: Vec<u8>)
    ensures
        r@ == seq_lower(s@),
{
    let mut out: Vec<u8> = Vec::new();
    let mut i: usize = 0;
    while i < s.len()
        invariant
            i <= s@.len(),
            out@ =~= seq_lower(s@.subrange(0, i as int)),
        decreases s@.len() - i,
    {
        let b = s[i];
        let l: u8 = if 65 <= b && b <= 90 {
            b + 32
        } else {
            b
        };
        out.push(l);
        i = i + 1;
        assert(seq_lower(s@.subrange(0, i as int)) =~= seq_lower(s@.subrange(0, i - 1)).push(
            lower_byte(b),
        ));
    }
    assert(s@.subrange(0, s@.len() as int) =~= s@);
    out
}

pub fn ws_len_at_exec(s: &[u8], i: usize) -> (r: usize)
    ensures
        r as int == ws_len_at(s@, i as int),
{
    let n = s.len();
    if i < n && ((9 <= s[i] && s[i] <= 13) || s[i] == 32) {
        1
    } else if i < n && n - i > 1 && s[i] == 0xC2 && (s[i + 1] == 0x85 || s[i + 1] == 0xA0) {
        2
    } else if i < n && n - i > 2 && ws3_exec(s[i], s[i + 1], s[i + 2]) {
        3
    } else {
        0
    }
}

fn ws3_exec(b0: u8, b1: u8, b2: u8) -> (r: bool)
    ensures
        r == is_ws3(b0, b1, b2),
{
    (b0 == 0xE1 && b1 == 0x9A && b2 == 0x80) || (b0 == 0xE2 && b1 == 0x80 && ((0x80 <= b2
        && b2 <= 0x8A) || b2 == 0xA8 || b2 == 0xA9 || b2 == 0xAF)) || (b0 == 0xE2 && b1 == 0x81
        && b2 == 0x9F) || (b0 == 0xE3 && b1 == 0x80 && b2 == 0x80)
}

fn ws_len_before_exec(s: &[u8], j: usize) -> (r: usize)
    ensures
        r as int == ws_len_before(s@, j as int),
{
    let n = s.len();
    if 1 <= j && j <= n && ((9 <= s[j - 1] && s[j - 1] <= 13) || s[j - 1] == 32) {
        1
    } else if 2 <= j && j <= n && s[j - 2] == 0xC2 && (s[j - 1] == 0x85 || s[j - 1] == 0xA0) {
        2
    } else if 3 <= j && j <= n && ws3_exec(s[j - 3], s[j - 2], s[j - 1]) {
        3
    } else {
        0
    }
}

/// Bounds of `s` once leading white space is skipped from `i` on.
pub fn trim_start_index(s: &[u8], i: usize) -> (r: usize)
    requires
        i <= s@.len(),
    ensures
        r as int == trim_start_from(s@, i as int),
        i <= r <= s@.len(),
{
    let mut k = i;
    while k < s.len() && ws_len_at_exec(s, k) > 0
        invariant
            i <= k <= s@.len(),
            trim_start_from(s@, i as int) == trim_start_from(s@, k as int),
        decreases s@.len() - k,
    {
        k = k + ws_len_at_exec(s, k);
    }
    k
}

/// End of `s[lo..j]` once trailing white space is removed.
pub fn trim_end_index(s: &[u8], lo: usize, j: usize) -> (r: usize)
    requires
        lo <= j <= s@.len(),
    ensures
        r as int == trim_end_from(s@, lo as int, j as int),
        lo <= r <= j,
{
    let mut k = j;
    while lo < k && ws_len_before_exec(s, k) > 0 && k - ws_len_before_exec(s, k) >= lo
        invariant
            lo <= k <= j,
            trim_end_from(s@, lo as int, j as int) == trim_end_from(s@, lo as int, k as int),
        decreases k,
    {
        k = k - ws_len_before_exec(s, k);
    }
    k
}

/// Copy of `s[a..b]`.
pub fn copy_range(s: &[u8], a: usize, b: usize) -> (r: Vec<u8>)
    requires
        a <= b <= s@.len(),
    ensures
        r@ == s@.subrange(a as int, b as int),
{
    let mut out: Vec<u8> = Vec::new();
    let mut i = a;
    while i < b
        invariant
            a <= i <= b <= s@.len(),
            out@ =~= s@.subrange(a as int, i as int),
        decreases b - i,
    {
        out.push(s[i]);
        i = i + 1;
    }
    out
}

/// `str::trim` over bytes.
pub fn trim(s: &[u8]) -> (r: Vec<u8>)
    ensures
        r@ == seq_trim(s@),
{
    let a = trim_start_index(s, 0);
    let b = trim_end_index(s, a, s.len());
    copy_range(s, a, b)
}

/// `str::trim_start` over bytes.
pub fn trim_start(s: &[u8]) -> (r: Vec<u8>)
    ensures
        r@ == seq_trim_start(s@),
{
    let a = trim_start_index(s, 0);
    copy_range(s, a, s.len())
}

/// `str::trim_end` over bytes.
pub fn trim_end(s: &[u8]) -> (r: Vec<u8>)
    ensures
        r@ == seq_trim_end(s@),
{
    let b = trim_end_index(s, 0, s.len());
    copy_range(s, 0, b)
}

/// Index of the first line feed at or after `i`, or the length when none remains.
pub open spec fn next_newline(s: Seq<u8>, i: int) -> int
    decreases s.len() - i,
{
    if i < 0 || i >= s.len() {
        s.len() as int
    } else if s[i] == 10 {
        i
    } else {
        next_newline(s, i + 1)
    }
}

pub proof fn lemma_next_newline(s: Seq<u8>, i: int)
    requires
        0 <= i <= s.len(),
    ensures
        i <= next_newline(s, i) <= s.len(),
        next_newline(s, i) < s.len() ==> s[next_newline(s, i)] == 10,
        forall|k: int| i <= k < next_newline(s, i) ==> s[k] != 10,
    decreases s.len() - i,
{
    if i < s.len() && s[i] != 10 {
        lemma_next_newline(s, i + 1);
    }
}

/// A line terminated by a line feed loses one trailing carriage return.
pub open spec fn strip_cr(l: Seq<u8>) -> Seq<u8> {
    if l.len() > 0 && l[l.len() - 1] == 13 {
        l.subrange(0, l.len() - 1)
    } else {
        l
    }
}

/// Lines of `s` from byte `start` on, as `str::lines` splits them: at each
/// line feed, dropping a carriage return before it, with no empty line after
/// a final line feed.
pub open spec fn lines_from(s: Seq<u8>, start: int) -> Seq<Seq<u8>>
    decreases s.len() + 1 - start,
{
    if start < 0 || start >= s.len() {
        Seq::empty()
    } else {
        let e = next_newline(s, start);
        if e < start || e > s.len() {
            Seq::empty()
        } else {
            let line = if e < s.len() {
                strip_cr(s.subrange(start, e))
            } else {
                s.subrange(start, e)
            };
            seq![line] + lines_from(s, e + 1)
        }
    }
}

/// The lines of `s` (`str::lines`).
pub open spec fn split_lines(s: Seq<u8>) -> Seq<Seq<u8>> {
    lines_from(s, 0)
}

fn next_newline_exec(s: &[u8], i: usize) -> (r: usize)
    requires
        i <= s@.len(),
    ensures
        r as int == next_newline(s@, i as int),
{
    let n = s.len();
    let mut k = i;
    while k < n && s[k] != 10
        invariant
            n == s@.len(),
            i <= k <= n,
            next_newline(s@, i as int) == next_newline(s@, k as int),
        decreases n - k,
    {
        k = k + 1;
    }
    k
}

/// Byte views of a vector of byte vectors.
pub open spec fn vv(v: Seq<Vec<u8>>) -> Seq<Seq<u8>> {
    Seq::new(v.len(), |i: int| v[i]@)
}

/// Splits `s` into lines exactly as `str::lines` does.
pub fn split_lines_exec(s: &[u8]) -> (r: Vec<Vec<u8>>)
    ensures
        vv(r@) == split_lines(s@),
{
    let n = s.len();
    let mut out: Vec<Vec<u8>> = Vec::new();
    let mut start: usize = 0;
    while start < n
        invariant
            n == s@.len(),
            start <= n,
            split_lines(s@) == vv(out@) + lines_from(s@, start as int),
        decreases n - start,
    {
        let e = next_newline_exec(s, start);
        proof {
            lemma_next_newline(s@, start as int);
        }
        let raw_line = copy_range(s, start, e);
        let line = if e < n && e > start && s[e - 1] == 13 {
            copy_range(s, start, e - 1)
        } else {
            raw_line
        };
        let ghost prev = vv(out@);
        out.push(line);
        assert(vv(out@) =~= prev.push(line@));
        proof {
            lemma_next_newline(s@, start as int);
        }
        if e < n {
            assert(strip_cr(s@.subrange(start as int, e as int)) =~= line@);
        } else {
            assert(s@.subrange(start as int, e as int) =~= line@);
        }
        assert(lines_from(s@, start as int) == seq![line@] + lines_from(s@, e + 1));
        if e == n {
            assert(lines_from(s@, e + 1) =~= Seq::<Seq<u8>>::empty());
            assert(split_lines(s@) =~= vv(out@));
            return out;
        }
        assert(split_lines(s@) =~= vv(out@) + lines_from(s@, e + 1));
        start = e + 1;
    }
    assert(lines_from(s@, start as int) =~= Seq::<Seq<u8>>::empty());
    assert(split_lines(s@) =~= vv(out@));
    out
}

} // verus!
