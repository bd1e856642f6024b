//! Doxygen comment blocks in source lines.
//!
//! A block is a range of whole lines `start..=end`. Looking a tag up in the
//! block's text line by line is the same as looking it up in each of those
//! lines, so the blocks are never joined into one string.

use vstd::prelude::*;
use vstd::string::StringSliceAdditionalSpecFns;

use crate::text::{
    bytes_eq, contains, ends_with, find, seq_contains, seq_ends_with, seq_lower, seq_starts_with,
    seq_trim, seq_trim_start, starts_with, to_lower, trim, trim_start, first_occurrence, vv,
    copy_range,
};
use crate::words::{split_words, strip_leading, strip_leading_exec, strip_trailing, strip_trailing_exec, words};

verus! {

/// Line `i`, or the empty line past the end (`lines.get(i)`).
pub open spec fn line_or_empty(lb: Seq<Seq<u8>>, i: int) -> Seq<u8> {
    if 0 <= i < lb.len() {
        lb[i]
    } else {
        Seq::empty()
    }
}

/// A line that may stand above the file's first doc block: blank, a line
/// comment or a preprocessor line.
pub open spec fn skippable(l: Seq<u8>) -> bool {
    let t = seq_trim(l);
    t.len() == 0 || seq_starts_with(t, "//".spec_bytes()) || seq_starts_with(t, "#".spec_bytes())
}

/// Line of the file's first `/**`, when only skippable lines come before it.
pub open spec fn first_doc_start(lb: Seq<Seq<u8>>, i: int) -> Option<int>
    decreases lb.len() - i,
{
    if i < 0 || i >= lb.len() {
        None
    } else if seq_contains(lb[i], "/**".spec_bytes()) {
        Some(i)
    } else if skippable(lb[i]) {
        first_doc_start(lb, i + 1)
    } else {
        None
    }
}

/// First line at or after `i` that contains `needle`.
pub open spec fn first_line_with(lb: Seq<Seq<u8>>, i: int, needle: Seq<u8>) -> Option<int>
    decreases lb.len() - i,
{
    if i < 0 || i >= lb.len() {
        None
    } else if seq_contains(lb[i], needle) {
        Some(i)
    } else {
        first_line_with(lb, i + 1, needle)
    }
}

/// The file-level doc block: from the first `/**` to the first line at or
/// after it holding `*/`.
pub open spec fn first_doc_block(lb: Seq<Seq<u8>>) -> Option<(int, int)> {
    match first_doc_start(lb, 0) {
        Some(s) => match first_line_with(lb, s, "*/".spec_bytes()) {
            Some(e) => Some((s, e)),
            None => None,
        },
        None => None,
    }
}

/// Walking up from line `idx` over at most `budget` lines, skipping blank
/// ones: the first non-blank line, when it closes a comment.
pub open spec fn doc_end_before(lb: Seq<Seq<u8>>, idx: int, budget: int) -> Option<int>
    decreases budget,
{
    if budget <= 0 || idx < 0 {
        None
    } else {
        let t = seq_trim(line_or_empty(lb, idx));
        if t.len() == 0 {
            doc_end_before(lb, idx - 1, budget - 1)
        } else if seq_ends_with(t, "*/".spec_bytes()) {
            Some(idx)
        } else {
            None
        }
    }
}

/// Last line at or before `j` that contains `/**`.
pub open spec fn doc_open_at_or_before(lb: Seq<Seq<u8>>, j: int) -> Option<int>
    decreases j + 1,
{
    if j < 0 || j >= lb.len() {
        None
    } else if seq_contains(lb[j], "/**".spec_bytes()) {
        Some(j)
    } else {
        doc_open_at_or_before(lb, j - 1)
    }
}

/// The doc block that closes within the four lines above row `row`.
pub open spec fn doc_before(lb: Seq<Seq<u8>>, row: int) -> Option<(int, int)> {
    doc_block_above(lb, row, 4)
}

/// The doc block that closes within the `budget` lines above row `row`.
pub open spec fn doc_block_above(lb: Seq<Seq<u8>>, row: int, budget: int) -> Option<(int, int)> {
    match doc_end_before(lb, row - 1, budget) {
        Some(e) => match doc_open_at_or_before(lb, e) {
            Some(s) => Some((s, e)),
            None => None,
        },
        None => None,
    }
}

/// A line holds `marker` once leading white space is dropped.
pub open spec fn line_has(l: Seq<u8>, marker: Seq<u8>) -> bool {
    seq_contains(seq_trim_start(l), marker)
}

/// Some line of the block `s..=e` holds `marker` (`has_tag`).
pub open spec fn block_has(lb: Seq<Seq<u8>>, s: int, e: int, marker: Seq<u8>) -> bool {
    exists|k: int| s <= k <= e && #[trigger] line_has(lb[k], marker)
}

/// First line in `k..=e` that holds `marker`.
pub open spec fn first_line_has(lb: Seq<Seq<u8>>, k: int, e: int, marker: Seq<u8>) -> Option<int>
    decreases e + 1 - k,
{
    if k > e {
        None
    } else if line_has(lb[k], marker) {
        Some(k)
    } else {
        first_line_has(lb, k + 1, e, marker)
    }
}

/// What follows `marker` on a line, trimmed and without leading `*`.
pub open spec fn content_after(l: Seq<u8>, marker: Seq<u8>) -> Seq<u8> {
    let t = seq_trim_start(l);
    match first_occurrence(t, marker) {
        Some(i) => seq_trim(strip_leading(seq_trim(t.subrange(i + marker.len(), t.len() as int)), 42u8)),
        None => Seq::empty(),
    }
}

/// Text of a tag in the block `s..=e`; empty when the tag is absent (`tag_content`).
pub open spec fn tag_content(lb: Seq<Seq<u8>>, s: int, e: int, marker: Seq<u8>) -> Seq<u8> {
    match first_line_has(lb, s, e, marker) {
        Some(k) => content_after(lb[k], marker),
        None => Seq::empty(),
    }
}

/// Words that alone make a brief generic.
pub open spec fn is_generic_word(w: Seq<u8>) -> bool {
    ||| w == "driver".spec_bytes()
    ||| w == "module".spec_bytes()
    ||| w == "header".spec_bytes()
    ||| w == "source".spec_bytes()
    ||| w == "file".spec_bytes()
    ||| w == "main".spec_bytes()
    ||| w == "implementation".spec_bytes()
    ||| w == "utility".spec_bytes()
    ||| w == "helper".spec_bytes()
    ||| w == "wrapper".spec_bytes()
    ||| w == "interface".spec_bytes()
    ||| w == "manager".spec_bytes()
    ||| w == "handler".spec_bytes()
    ||| w == "controller".spec_bytes()
    ||| w == "service".spec_bytes()
    ||| w == "provider".spec_bytes()
}

/// Words of a brief once trimmed, stripped of trailing dots and lower-cased.
pub open spec fn brief_words(brief: Seq<u8>) -> Seq<Seq<u8>> {
    words(seq_lower(strip_trailing(seq_trim(brief), 46u8)))
}

/// A brief is generic when it is one word, or at most three words one of
/// which is a generic word.
pub open spec fn is_generic_brief(brief: Seq<u8>) -> bool {
    let w = brief_words(brief);
    if w.len() == 0 {
        false
    } else if w.len() == 1 {
        true
    } else {
        w.len() <= 3 && exists|k: int| 0 <= k < w.len() && #[trigger] is_generic_word(w[k])
    }
}

/// The `@param` name documented on one line, if any.
pub open spec fn param_name_of(l: Seq<u8>) -> Seq<Seq<u8>> {
    let ws = words(seq_trim(strip_leading(seq_trim_start(l), 42u8)));
    if ws.len() >= 2 && seq_starts_with(ws[0], "@param".spec_bytes()) {
        seq![ws[1]]
    } else {
        Seq::empty()
    }
}

/// The `@param` names documented on lines `lo..hi`, in order.
pub open spec fn params_in(lb: Seq<Seq<u8>>, lo: int, hi: int) -> Seq<Seq<u8>>
    decreases hi - lo,
{
    if hi <= lo {
        Seq::empty()
    } else {
        params_in(lb, lo, hi - 1) + param_name_of(lb[hi - 1])
    }
}

fn close_from(lines: &Vec<Vec<u8>>, s: usize) -> (r: Option<usize>)
    requires
        s < lines@.len(),
    ensures
        r matches Some(e) ==> first_line_with(vv(lines@), s as int, "*/".spec_bytes()) == Some(
            e as int,
        ) && s <= e < lines@.len(),
        r is None ==> first_line_with(vv(lines@), s as int, "*/".spec_bytes()) is None,
{
    let ghost lb = vv(lines@);
    let n = lines.len();
    let mut j = s;
    while j < n
        invariant
            n == lines@.len(),
            lb == vv(lines@),
            s <= j <= n,
            first_line_with(lb, s as int, "*/".spec_bytes()) == first_line_with(
                lb,
                j as int,
                "*/".spec_bytes(),
            ),
        decreases n - j,
    {
        assert(lb[j as int] == lines@[j as int]@);
        if contains(lines[j].as_slice(), "*/".as_bytes()) {
            return Some(j);
        }
        j = j + 1;
    }
    None
}

/// The file-level doc block of the lines.
pub fn first_doc_block_exec(lines: &Vec<Vec<u8>>) -> (r: Option<(usize, usize)>)
    ensures
        r matches Some((s, e)) ==> first_doc_block(vv(lines@)) == Some((s as int, e as int)) && s
            <= e < lines@.len(),
        r is None ==> first_doc_block(vv(lines@)) is None,
{
    let ghost lb = vv(lines@);
    let n = lines.len();
    let mut i: usize = 0;
    while i < n
        invariant
            n == lines@.len(),
            lb == vv(lines@),
            i <= n,
            first_doc_start(lb, 0) == first_doc_start(lb, i as int),
        decreases n - i,
    {
        assert(lb[i as int] == lines@[i as int]@);
        let l = lines[i].as_slice();
        if contains(l, "/**".as_bytes()) {
            return match close_from(lines, i) {
                Some(e) => Some((i, e)),
                None => None,
            };
        }
        let t = trim(l);
        if !(t.len() == 0 || starts_with(t.as_slice(), "//".as_bytes()) || starts_with(
            t.as_slice(),
            "#".as_bytes(),
        )) {
            return None;
        }
        i = i + 1;
    }
    None
}

fn open_at_or_before(lines: &Vec<Vec<u8>>, e: usize) -> (r: Option<usize>)
    requires
        e < lines@.len(),
    ensures
        r matches Some(s) ==> doc_open_at_or_before(vv(lines@), e as int) == Some(s as int) && s
            <= e,
        r is None ==> doc_open_at_or_before(vv(lines@), e as int) is None,
{
    let ghost lb = vv(lines@);
    let n = lines.len();
    let mut j = e + 1;
    while j > 0
        invariant
            lb == vv(lines@),
            j <= e + 1,
            e < lines@.len(),
            doc_open_at_or_before(lb, e as int) == doc_open_at_or_before(lb, j - 1),
        decreases j,
    {
        assert(lb[j - 1] == lines@[j - 1]@);
        if contains(lines[j - 1].as_slice(), "/**".as_bytes()) {
            return Some(j - 1);
        }
        j = j - 1;
    }
    None
}

/// The doc block that closes within the four lines above row `row`.
pub fn doc_before_exec(lines: &Vec<Vec<u8>>, row: usize) -> (r: Option<(usize, usize)>)
    ensures
        r matches Some((s, e)) ==> doc_before(vv(lines@), row as int) == Some((s as int, e as int))
            && s <= e < lines@.len(),
        r is None ==> doc_before(vv(lines@), row as int) is None,
{
    doc_block_above_exec(lines, row, 4)
}

/// The doc block that closes within the `limit` lines above row `row`.
pub fn doc_block_above_exec(lines: &Vec<Vec<u8>>, row: usize, limit: usize) -> (r: Option<(usize, usize)>)
    ensures
        r matches Some((s, e)) ==> doc_block_above(vv(lines@), row as int, limit as int) == Some(
            (s as int, e as int),
        ) && s <= e < lines@.len(),
        r is None ==> doc_block_above(vv(lines@), row as int, limit as int) is None,
{
    let ghost lb = vv(lines@);
    let n = lines.len();
    let mut idx: usize = row;
    let mut budget: usize = limit;
    while budget > 0 && idx > 0
        invariant
            n == lines@.len(),
            lb == vv(lines@),
            idx <= row,
            budget <= limit,
            doc_end_before(lb, row - 1, limit as int) == doc_end_before(lb, idx - 1, budget as int),
        decreases budget,
    {
        let k = idx - 1;
        let t: Vec<u8> = if k < n {
            trim(lines[k].as_slice())
        } else {
            Vec::new()
        };
        assert(t@ == seq_trim(line_or_empty(lb, k as int))) by {
            if k >= n {
                lemma_trim_empty();
            } else {
                assert(lb[k as int] == lines@[k as int]@);
            }
        }
        if t.len() == 0 {
            idx = k;
            budget = budget - 1;
        } else if ends_with(t.as_slice(), "*/".as_bytes()) {
            if k >= n {
                return None;
            }
            return match open_at_or_before(lines, k) {
                Some(s) => Some((s, k)),
                None => None,
            };
        } else {
            return None;
        }
    }
    None
}

pub proof fn lemma_trim_empty()
    ensures
        seq_trim(Seq::<u8>::empty()) =~= Seq::<u8>::empty(),
{
    reveal_with_fuel(crate::text::trim_start_from, 2);
    reveal_with_fuel(crate::text::trim_end_from, 2);
}

/// Whether some line of the block `s..=e` holds `marker`.
pub fn block_has_exec(lines: &Vec<Vec<u8>>, s: usize, e: usize, marker: &[u8]) -> (r: bool)
    requires
        s <= e < lines@.len(),
    ensures
        r == block_has(vv(lines@), s as int, e as int, marker@),
{
    let ghost lb = vv(lines@);
    let n = lines.len();
    let mut k = s;
    while k <= e
        invariant
            lb == vv(lines@),
            n == lines@.len(),
            s <= k <= e + 1,
            e < n,
            forall|m: int| s <= m < k ==> !line_has(lb[m], marker@),
        decreases e + 1 - k,
    {
        assert(lb[k as int] == lines@[k as int]@);
        let t = trim_start(lines[k].as_slice());
        if contains(t.as_slice(), marker) {
            assert(line_has(lb[k as int], marker@));
            return true;
        }
        k = k + 1;
    }
    false
}

/// Text of the tag `marker` in the block `s..=e`.
pub fn tag_content_exec(lines: &Vec<Vec<u8>>, s: usize, e: usize, marker: &[u8]) -> (r: Vec<u8>)
    requires
        s <= e < lines@.len(),
    ensures
        r@ == tag_content(vv(lines@), s as int, e as int, marker@),
{
    let ghost lb = vv(lines@);
    let n = lines.len();
    let mut k = s;
    while k <= e
        invariant
            lb == vv(lines@),
            n == lines@.len(),
            s <= k <= e + 1,
            e < n,
            first_line_has(lb, s as int, e as int, marker@) == first_line_has(
                lb,
                k as int,
                e as int,
                marker@,
            ),
        decreases e + 1 - k,
    {
        assert(lb[k as int] == lines@[k as int]@);
        let t = trim_start(lines[k].as_slice());
        proof {
            crate::text::lemma_first_occurrence_from_some(t@, marker@, 0);
        }
        match find(t.as_slice(), marker) {
            Some(i) => {
                assert(line_has(lb[k as int], marker@));
                let tn = t.len();
                assert(i + marker@.len() <= tn);
                let rest = copy_range(t.as_slice(), i + marker.len(), tn);
                let a = trim(rest.as_slice());
                let b = strip_leading_exec(a.as_slice(), 42u8);
                return trim(b.as_slice());
            },
            None => {
                assert(!line_has(lb[k as int], marker@)) by {
                    if line_has(lb[k as int], marker@) {
                        let w = choose|w: int| crate::text::occurs_at(t@, marker@, w);
                        crate::text::lemma_first_occurrence_from_some(t@, marker@, 0);
                        if w >= 0 {
                            crate::text::lemma_first_occurrence_from_none(t@, marker@, 0, w);
                        }
                    }
                }
            },
        }
        k = k + 1;
    }
    Vec::new()
}

fn generic_word_exec(w: &[u8]) -> (r: bool)
    ensures
        r == is_generic_word(w@),
{
    bytes_eq(w, "driver".as_bytes()) || bytes_eq(w, "module".as_bytes()) || bytes_eq(
        w,
        "header".as_bytes(),
    ) || bytes_eq(w, "source".as_bytes()) || bytes_eq(w, "file".as_bytes()) || bytes_eq(
        w,
        "main".as_bytes(),
    ) || bytes_eq(w, "implementation".as_bytes()) || bytes_eq(w, "utility".as_bytes())
        || bytes_eq(w, "helper".as_bytes()) || bytes_eq(w, "wrapper".as_bytes()) || bytes_eq(
        w,
        "interface".as_bytes(),
    ) || bytes_eq(w, "manager".as_bytes()) || bytes_eq(w, "handler".as_bytes()) || bytes_eq(
        w,
        "controller".as_bytes(),
    ) || bytes_eq(w, "service".as_bytes()) || bytes_eq(w, "provider".as_bytes())
}

/// Whether a brief is generic (`is_generic_brief`).
pub fn is_generic_brief_exec(brief: &[u8]) -> (r: bool)
    ensures
        r == is_generic_brief(brief@),
{
    let t = trim(brief);
    let d = strip_trailing_exec(t.as_slice(), 46u8);
    let l = to_lower(d.as_slice());
    let w = split_words(l.as_slice());
    let ghost ws = brief_words(brief@);
    assert(vv(w@) == ws);
    if w.len() == 0 {
        return false;
    }
    if w.len() == 1 {
        return true;
    }
    if w.len() > 3 {
        return false;
    }
    let mut k: usize = 0;
    while k < w.len()
        invariant
            vv(w@) == ws,
            ws == brief_words(brief@),
            2 <= w@.len() <= 3,
            k <= w@.len(),
            forall|m: int| 0 <= m < k ==> !is_generic_word(#[trigger] ws[m]),
        decreases w@.len() - k,
    {
        assert(ws[k as int] == w@[k as int]@);
        if generic_word_exec(w[k].as_slice()) {
            assert(is_generic_word(ws[k as int]));
            assert(2 <= ws.len() <= 3);
            return true;
        }
        k = k + 1;
    }
    false
}

fn param_name_exec(l: &[u8]) -> (r: Option<Vec<u8>>)
    ensures
        r matches Some(v) ==> param_name_of(l@) == seq![v@],
        r is None ==> param_name_of(l@) =~= Seq::<Seq<u8>>::empty(),
{
    let a = trim_start(l);
    let b = strip_leading_exec(a.as_slice(), 42u8);
    let c = trim(b.as_slice());
    let ws = split_words(c.as_slice());
    assert(vv(ws@) == words(seq_trim(strip_leading(seq_trim_start(l@), 42u8))));
    if ws.len() >= 2 && starts_with(ws[0].as_slice(), "@param".as_bytes()) {
        let name = copy_range(ws[1].as_slice(), 0, ws[1].len());
        assert(name@ =~= ws@[1]@);
        Some(name)
    } else {
        None
    }
}

/// The `@param` names of the block `s..=e` (`doc_param_names`).
pub fn doc_params_exec(lines: &Vec<Vec<u8>>, s: usize, e: usize) -> (r: Vec<Vec<u8>>)
    requires
        s <= e < lines@.len(),
    ensures
        vv(r@) == params_in(vv(lines@), s as int, e + 1),
{
    let ghost lb = vv(lines@);
    let n = lines.len();
    let mut out: Vec<Vec<u8>> = Vec::new();
    let mut k = s;
    while k <= e
        invariant
            lb == vv(lines@),
            n == lines@.len(),
            s <= k <= e + 1,
            e < n,
            vv(out@) == params_in(lb, s as int, k as int),
        decreases e + 1 - k,
    {
        let ghost prev = vv(out@);
        assert(lb[k as int] == lines@[k as int]@);
        match param_name_exec(lines[k].as_slice()) {
            Some(v) => {
                out.push(v);
                assert(vv(out@) =~= prev + param_name_of(lb[k as int]));
            },
            None => {
                assert(vv(out@) =~= prev + param_name_of(lb[k as int]));
            },
        }
        assert(params_in(lb, s as int, k + 1) == params_in(lb, s as int, k as int) + param_name_of(
            lb[k as int],
        ));
        k = k + 1;
    }
    out
}

} // verus!
