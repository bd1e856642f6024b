//! Slash-separated path handling over UTF-8 bytes.
//!
//! File names and extensions follow `std::path::Path` on Unix: components
//! are the non-empty segments other than `.`, the file name is the last
//! component unless it is `..`, and the extension is what follows the last
//! dot of the file name unless that dot starts the name.

use vstd::prelude::*;

use crate::text::copy_range;

verus! {

/// Index of the first byte `b` at or after `i`, or the length.
pub open spec fn next_byte(s: Seq<u8>, i: int, b: u8) -> int
    decreases s.len() - i,
{
    if i < 0 || i >= s.len() {
        s.len() as int
    } else if s[i] == b {
        i
    } else {
        next_byte(s, i + 1, b)
    }
}

pub proof fn lemma_next_byte(s: Seq<u8>, i: int, b: u8)
    requires
        0 <= i <= s.len(),
    ensures
        i <= next_byte(s, i, b) <= s.len(),
        next_byte(s, i, b) < s.len() ==> s[next_byte(s, i, b)] == b,
        forall|k: int| i <= k < next_byte(s, i, b) ==> s[k] != b,
    decreases s.len() - i,
{
    if i < s.len() && s[i] != b {
        lemma_next_byte(s, i + 1, b);
    }
}

/// A segment that names something: not empty and not `.`.
pub open spec fn is_component(seg: Seq<u8>) -> bool {
    seg.len() > 0 && !(seg.len() == 1 && seg[0] == 46)
}

/// Bounds of the last component of `p[start..]`, or `best` when none follows.
pub open spec fn last_component_from(p: Seq<u8>, start: int, best: Option<(int, int)>) -> Option<(int, int)>
    decreases p.len() + 1 - start,
{
    if start < 0 || start > p.len() {
        best
    } else {
        let e = next_byte(p, start, 47);
        if e < start || e > p.len() {
            best
        } else {
            let nb = if is_component(p.subrange(start, e)) {
                Some((start, e))
            } else {
                best
            };
            last_component_from(p, e + 1, nb)
        }
    }
}

/// Bounds of the last component of `p`.
pub open spec fn last_component(p: Seq<u8>) -> Option<(int, int)> {
    last_component_from(p, 0, None)
}

/// File name of `p` (`Path::file_name`).
pub open spec fn file_name_of(p: Seq<u8>) -> Option<Seq<u8>> {
    match last_component(p) {
        Some((a, b)) => if p.subrange(a, b) == seq![46u8, 46u8] {
            None
        } else {
            Some(p.subrange(a, b))
        },
        None => None,
    }
}

/// Index of the last byte `b` before `hi`.
pub open spec fn last_index_of(s: Seq<u8>, b: u8, hi: int) -> Option<int>
    decreases hi,
{
    if hi <= 0 || hi > s.len() {
        None
    } else if s[hi - 1] == b {
        Some(hi - 1)
    } else {
        last_index_of(s, b, hi - 1)
    }
}

/// Extension of a file name: after its last dot, unless that dot starts the name.
pub open spec fn extension_of_name(name: Seq<u8>) -> Option<Seq<u8>> {
    match last_index_of(name, 46, name.len() as int) {
        Some(d) => if d == 0 {
            None
        } else {
            Some(name.subrange(d + 1, name.len() as int))
        },
        None => None,
    }
}

/// Extension of `p` (`Path::extension`).
pub open spec fn extension_of(p: Seq<u8>) -> Option<Seq<u8>> {
    match file_name_of(p) {
        Some(name) => extension_of_name(name),
        None => None,
    }
}

pub proof fn lemma_last_component_bounds(p: Seq<u8>, start: int, best: Option<(int, int)>)
    requires
        best matches Some((a, b)) ==> 0 <= a <= b <= p.len(),
    ensures
        last_component_from(p, start, best) matches Some((a, b)) ==> 0 <= a <= b <= p.len(),
    decreases p.len() + 1 - start,
{
    if !(start < 0 || start > p.len()) {
        let e = next_byte(p, start, 47);
        lemma_next_byte(p, start, 47);
        let nb = if is_component(p.subrange(start, e)) {
            Some((start, e))
        } else {
            best
        };
        lemma_last_component_bounds(p, e + 1, nb);
    }
}

pub fn next_byte_exec(s: &[u8], i: usize, b: u8) -> (r: usize)
    requires
        i <= s@.len(),
    ensures
        r as int == next_byte(s@, i as int, b),
{
    let n = s.len();
    let mut k = i;
    while k < n && s[k] != b
        invariant
            n == s@.len(),
            i <= k <= n,
            next_byte(s@, i as int, b) == next_byte(s@, k as int, b),
        decreases n - k,
    {
        k = k + 1;
    }
    k
}

/// Bounds of the last component of `p`.
pub fn last_component_exec(p: &[u8]) -> (r: Option<(usize, usize)>)
    ensures
        r matches Some((a, b)) ==> last_component(p@) == Some((a as int, b as int)) && a <= b
            <= p@.len(),
        r is None ==> last_component(p@) is None,
{
    let n = p.len();
    let mut best: Option<(usize, usize)> = None;
    let mut start: usize = 0;
    loop
        invariant
            n == p@.len(),
            start <= n,
            best matches Some((a, b)) ==> a <= b <= n,
            last_component(p@) == last_component_from(
                p@,
                start as int,
                match best {
                    Some((a, b)) => Some((a as int, b as int)),
                    None => None,
                },
            ),
        decreases n + 1 - start,
    {
        let e = next_byte_exec(p, start, 47);
        proof {
            lemma_next_byte(p@, start as int, 47);
        }
        let seg_len = e - start;
        let comp = seg_len > 0 && !(seg_len == 1 && p[start] == 46);
        assert(comp == is_component(p@.subrange(start as int, e as int)));
        if comp {
            best = Some((start, e));
        }
        if e == n {
            assert(last_component_from(
                p@,
                e + 1,
                match best {
                    Some((a, b)) => Some((a as int, b as int)),
                    None => None,
                },
            ) == match best {
                Some((a, b)) => Some((a as int, b as int)),
                None => None::<(int, int)>,
            });
            return best;
        }
        start = e + 1;
    }
}

/// File name of `p` (`Path::file_name`).
pub fn file_name(p: &[u8]) -> (r: Option<Vec<u8>>)
    ensures
        r matches Some(v) ==> file_name_of(p@) == Some(v@),
        r is None ==> file_name_of(p@) is None,
{
    match last_component_exec(p) {
        Some((a, b)) => {
            if b - a == 2 && p[a] == 46 && p[a + 1] == 46 {
                assert(p@.subrange(a as int, b as int) =~= seq![46u8, 46u8]);
                None
            } else {
                let v = copy_range(p, a, b);
                assert(v@ != seq![46u8, 46u8]) by {
                    if v@ == seq![46u8, 46u8] {
                        assert(v@.len() == 2);
                        assert(v@[0] == p@[a as int]);
                        assert(v@[1] == p@[a + 1]);
                    }
                }
                Some(v)
            }
        },
        None => None,
    }
}

pub fn last_index_exec(s: &[u8], b: u8) -> (r: Option<usize>)
    ensures
        r matches Some(i) ==> last_index_of(s@, b, s@.len() as int) == Some(i as int) && i
            < s@.len(),
        r is None ==> last_index_of(s@, b, s@.len() as int) is None,
{
    let mut k = s.len();
    while k > 0
        invariant
            k <= s@.len(),
            last_index_of(s@, b, s@.len() as int) == last_index_of(s@, b, k as int),
        decreases k,
    {
        if s[k - 1] == b {
            return Some(k - 1);
        }
        k = k - 1;
    }
    None
}

/// Extension of a file name.
pub fn extension_of_name_exec(name: &[u8]) -> (r: Option<Vec<u8>>)
    ensures
        r matches Some(v) ==> extension_of_name(name@) == Some(v@),
        r is None ==> extension_of_name(name@) is None,
{
    match last_index_exec(name, 46) {
        Some(d) => {
            if d == 0 {
                None
            } else {
                let n = name.len();
                assert(d < n);
                Some(copy_range(name, d + 1, n))
            }
        },
        None => None,
    }
}

/// Extension of `p` (`Path::extension`).
pub fn extension(p: &[u8]) -> (r: Option<Vec<u8>>)
    ensures
        r matches Some(v) ==> extension_of(p@) == Some(v@),
        r is None ==> extension_of(p@) is None,
{
    match file_name(p) {
        Some(name) => extension_of_name_exec(name.as_slice()),
        None => None,
    }
}

/// Backslashes turned into slashes.
pub open spec fn slashes(p: Seq<u8>) -> Seq<u8> {
    p.map_values(|b: u8| if b == 92 { 47u8 } else { b })
}

/// `p` with every backslash turned into a slash.
pub fn normalize_slashes(p: &[u8]) -> (r: Vec<u8>)
    ensures
        r@ == slashes(p@),
{
    let mut out: Vec<u8> = Vec::new();
    let mut i: usize = 0;
    while i < p.len()
        invariant
            i <= p@.len(),
            out@ =~= slashes(p@.subrange(0, i as int)),
        decreases p@.len() - i,
    {
        let b = p[i];
        out.push(if b == 92 { 47 } else { b });
        i = i + 1;
        assert(slashes(p@.subrange(0, i as int)) =~= slashes(p@.subrange(0, i - 1)).push(
            if b == 92 { 47u8 } else { b },
        ));
    }
    assert(p@.subrange(0, p@.len() as int) =~= p@);
    out
}

} // verus!
