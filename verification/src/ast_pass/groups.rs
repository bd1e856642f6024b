//! Doxygen group tags (`@defgroup`, `@ingroup`).

use vstd::prelude::*;

use crate::text::{copy_range, find, first_occurrence, split_lines, split_lines_exec, vv};
use crate::words::{split_words, words};

verus! {

/// The first word after the first occurrence of `tag` on a line.
pub open spec fn tag_word(line: Seq<u8>, tag: Seq<u8>) -> Option<Seq<u8>> {
    match first_occurrence(line, tag) {
        Some(i) => {
            let ws = words(line.subrange(i + tag.len(), line.len() as int));
            if ws.len() > 0 {
                Some(ws[0])
            } else {
                None
            }
        },
        None => None,
    }
}

/// The group names that follow `tag` on the given lines, in order.
pub open spec fn tags_in_lines(lines: Seq<Seq<u8>>, tag: Seq<u8>) -> Seq<Seq<u8>>
    decreases lines.len(),
{
    if lines.len() == 0 {
        Seq::empty()
    } else {
        let prev = tags_in_lines(lines.drop_last(), tag);
        match tag_word(lines.last(), tag) {
            Some(w) => prev.push(w),
            None => prev,
        }
    }
}

/// The group names that follow `tag` in a source text (`collect_group_tags`).
pub open spec fn group_tags(raw: Seq<u8>, tag: Seq<u8>) -> Seq<Seq<u8>> {
    tags_in_lines(split_lines(raw), tag)
}

fn tag_word_exec(line: &[u8], tag: &[u8]) -> (r: Option<Vec<u8>>)
    ensures
        r matches Some(w) ==> tag_word(line@, tag@) == Some(w@),
        r is None ==> tag_word(line@, tag@) is None,
{
    proof {
        crate::text::lemma_first_occurrence_from_some(line@, tag@, 0);
    }
    match find(line, tag) {
        Some(i) => {
            assert(crate::text::occurs_at(line@, tag@, i as int));
            let n = line.len();
            assert(i + tag@.len() <= n);
            let rest = copy_range(line, i + tag.len(), n);
            let ws = split_words(rest.as_slice());
            if ws.len() > 0 {
                let w = copy_range(ws[0].as_slice(), 0, ws[0].len());
                assert(w@ =~= vv(ws@)[0]);
                Some(w)
            } else {
                None
            }
        },
        None => None,
    }
}

/// Group names that follow `tag` in each line of `raw`, in order.
pub fn collect_group_tags(raw: &[u8], tag: &[u8]) -> (r: Vec<Vec<u8>>)
    ensures
        vv(r@) == group_tags(raw@, tag@),
{
    let lines = split_lines_exec(raw);
    let ghost ls = split_lines(raw@);
    let mut out: Vec<Vec<u8>> = Vec::new();
    let mut k: usize = 0;
    while k < lines.len()
        invariant
            vv(lines@) == ls,
            k <= lines@.len(),
            vv(out@) == tags_in_lines(ls.subrange(0, k as int), tag@),
        decreases lines@.len() - k,
    {
        let ghost prev = vv(out@);
        let ghost sub = ls.subrange(0, k + 1);
        assert(sub.drop_last() =~= ls.subrange(0, k as int));
        assert(sub.last() == lines@[k as int]@);
        match tag_word_exec(lines[k].as_slice(), tag) {
            Some(w) => {
                out.push(w);
                assert(vv(out@) =~= prev.push(w@));
            },
            None => {},
        }
        k = k + 1;
    }
    assert(ls.subrange(0, lines@.len() as int) =~= ls);
    out
}

} // verus!
