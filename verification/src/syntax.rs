//! The syntax tree the passes read.
//!
//! A parsed file is held as its nodes in pre-order. Each node records the
//! index just past its subtree, so the descendants of node `i` are exactly
//! the nodes `i + 1 .. end(i)`, and its children are found by hopping from
//! `i + 1` from subtree end to subtree end.

use vstd::prelude::*;

use crate::text::{occurs_at, copy_range};

verus! {

/// One syntax node.
#[derive(Debug)]
pub struct SyntaxNode {
    /// Grammar kind, such as `function_definition`.
    pub kind: Vec<u8>,
    /// Named (grammar rule) rather than anonymous (literal token).
    pub named: bool,
    /// Field name under the parent, if any.
    pub field: Option<Vec<u8>>,
    /// First byte in the source.
    pub start_byte: usize,
    /// Byte just past the node.
    pub end_byte: usize,
    /// 0-based first row.
    pub start_row: usize,
    /// 0-based first column (bytes).
    pub start_col: usize,
    /// 0-based last row.
    pub end_row: usize,
    /// 0-based column just past the end (bytes).
    pub end_col: usize,
    /// Index of the parent node.
    pub parent: Option<usize>,
}

pub struct NodeView {
    pub kind: Seq<u8>,
    pub named: bool,
    pub field: Option<Seq<u8>>,
    pub start_byte: usize,
    pub end_byte: usize,
    pub start_row: usize,
    pub start_col: usize,
    pub end_row: usize,
    pub end_col: usize,
    pub parent: Option<usize>,
    pub end: usize,
}

impl SyntaxNode {
    pub open spec fn view_with_end(&self, end: usize) -> NodeView {
        NodeView {
            kind: self.kind@,
            named: self.named,
            field: match self.field {
                Some(f) => Some(f@),
                None => None,
            },
            start_byte: self.start_byte,
            end_byte: self.end_byte,
            start_row: self.start_row,
            start_col: self.start_col,
            end_row: self.end_row,
            end_col: self.end_col,
            parent: self.parent,
            end,
        }
    }
}

/// A parsed file: its nodes in pre-order, the root first.
#[derive(Debug)]
pub struct SyntaxTree {
    /// Nodes in pre-order.
    pub nodes: Vec<SyntaxNode>,
    /// For each node, the index just past its subtree.
    pub ends: Vec<usize>,
}

impl View for SyntaxTree {
    type V = Seq<NodeView>;

    open spec fn view(&self) -> Seq<NodeView> {
        Seq::new(self.nodes@.len(), |i: int| self.nodes@[i].view_with_end(self.ends@[i]))
    }
}

/// Structural invariant of a pre-order tree with subtree ends.
pub open spec fn tree_wf(t: Seq<NodeView>) -> bool {
    &&& t.len() >= 1
    &&& t.len() <= usize::MAX
    &&& t[0].end == t.len()
    &&& t[0].parent is None
    &&& forall|i: int| 0 <= i < t.len() ==> node_wf(t, i)
}

pub open spec fn node_wf(t: Seq<NodeView>, i: int) -> bool {
    &&& i < t[i].end <= t.len()
    &&& t[i].start_byte <= t[i].end_byte
    &&& t[i].start_row <= t[i].end_row
    &&& i > 0 ==> (t[i].parent matches Some(p) && p < i && i < t[p as int].end && t[i].end
        <= t[p as int].end)
}

impl SyntaxTree {
    pub open spec fn wf(&self) -> bool {
        self.nodes@.len() == self.ends@.len() && tree_wf(self@)
    }
}

/// Nodes in `lo..hi` whose kind is `kind`, in order.
pub open spec fn nodes_of_kind(t: Seq<NodeView>, lo: int, hi: int, kind: Seq<u8>) -> Seq<usize>
    decreases hi - lo,
{
    if hi <= lo {
        Seq::empty()
    } else {
        let prev = nodes_of_kind(t, lo, hi - 1, kind);
        if t[hi - 1].kind == kind {
            prev.push((hi - 1) as usize)
        } else {
            prev
        }
    }
}

/// The nodes of kind `kind` in the subtree of `i` (itself included), in pre-order.
pub open spec fn subtree_of_kind(t: Seq<NodeView>, i: int, kind: Seq<u8>) -> Seq<usize> {
    nodes_of_kind(t, i, t[i].end as int, kind)
}

/// First node in `lo..hi` whose kind is `kind`.
pub open spec fn first_of_kind(t: Seq<NodeView>, lo: int, hi: int, kind: Seq<u8>) -> Option<usize>
    decreases hi - lo,
{
    if hi <= lo {
        None
    } else if t[lo].kind == kind {
        Some(lo as usize)
    } else {
        first_of_kind(t, lo + 1, hi, kind)
    }
}

/// The first node of kind `kind` in the subtree of `i` (itself included), in pre-order.
pub open spec fn first_in_subtree(t: Seq<NodeView>, i: int, kind: Seq<u8>) -> Option<usize> {
    first_of_kind(t, i, t[i].end as int, kind)
}

/// Siblings from `c` up to `hi`: `c`, then the node after its subtree, and so on.
pub open spec fn siblings_from(t: Seq<NodeView>, c: int, hi: int) -> Seq<usize>
    decreases t.len() - c,
{
    if c < 0 || c >= hi || c >= t.len() || t[c].end <= c || t[c].end > t.len() {
        Seq::empty()
    } else {
        seq![c as usize] + siblings_from(t, t[c].end as int, hi)
    }
}

/// The children of node `i`, in order.
pub open spec fn children(t: Seq<NodeView>, i: int) -> Seq<usize> {
    siblings_from(t, i + 1, t[i].end as int)
}

/// First of `cs` whose field name is `field`.
pub open spec fn first_with_field(t: Seq<NodeView>, cs: Seq<usize>, field: Seq<u8>) -> Option<usize>
    decreases cs.len(),
{
    if cs.len() == 0 {
        None
    } else if t[cs[0] as int].field == Some(field) {
        Some(cs[0])
    } else {
        first_with_field(t, cs.subrange(1, cs.len() as int), field)
    }
}

/// The first child of `i` with field name `field`.
pub open spec fn child_by_field(t: Seq<NodeView>, i: int, field: Seq<u8>) -> Option<usize> {
    first_with_field(t, children(t, i), field)
}

/// The named members of `cs`, in order.
pub open spec fn only_named(t: Seq<NodeView>, cs: Seq<usize>) -> Seq<usize>
    decreases cs.len(),
{
    if cs.len() == 0 {
        Seq::empty()
    } else {
        let rest = only_named(t, cs.subrange(1, cs.len() as int));
        if t[cs[0] as int].named {
            seq![cs[0]] + rest
        } else {
            rest
        }
    }
}

/// The named children of `i`, in order.
pub open spec fn named_children(t: Seq<NodeView>, i: int) -> Seq<usize> {
    only_named(t, children(t, i))
}

/// The `k`-th named child of `i`.
pub open spec fn named_child(t: Seq<NodeView>, i: int, k: int) -> Option<usize> {
    if 0 <= k < named_children(t, i).len() {
        Some(named_children(t, i)[k])
    } else {
        None
    }
}

/// Source bytes covered by node `i`.
pub open spec fn node_bytes(src: Seq<u8>, t: Seq<NodeView>, i: int) -> Seq<u8> {
    src.subrange(t[i].start_byte as int, t[i].end_byte as int)
}

/// Text of node `i` when it is in range and valid UTF-8 (`Node::utf8_text`).
pub open spec fn node_text(src: Seq<u8>, t: Seq<NodeView>, i: int) -> Option<Seq<u8>> {
    if t[i].end_byte <= src.len() && vstd::utf8::valid_utf8(node_bytes(src, t, i)) {
        Some(node_bytes(src, t, i))
    } else {
        None
    }
}

pub proof fn lemma_nodes_of_kind_bounds(t: Seq<NodeView>, lo: int, hi: int, kind: Seq<u8>)
    requires
        0 <= lo,
        hi <= t.len() <= usize::MAX,
    ensures
        forall|k: int|
            0 <= k < nodes_of_kind(t, lo, hi, kind).len() ==> lo <= #[trigger] nodes_of_kind(
                t,
                lo,
                hi,
                kind,
            )[k] < hi && t[nodes_of_kind(t, lo, hi, kind)[k] as int].kind == kind,
    decreases hi - lo,
{
    if hi > lo {
        lemma_nodes_of_kind_bounds(t, lo, hi - 1, kind);
        let prev = nodes_of_kind(t, lo, hi - 1, kind);
        let all = nodes_of_kind(t, lo, hi, kind);
        assert forall|k: int| 0 <= k < all.len() implies lo <= #[trigger] all[k] < hi && t[all[k] as int].kind == kind by {
            if k < prev.len() {
                assert(all[k] == prev[k]);
            } else {
                assert(all[k] == (hi - 1) as usize);
            }
        }
    }
}

pub proof fn lemma_siblings_bounds(t: Seq<NodeView>, c: int, hi: int)
    ensures
        forall|k: int|
            0 <= k < siblings_from(t, c, hi).len() ==> c <= #[trigger] siblings_from(t, c, hi)[k]
                < hi && siblings_from(t, c, hi)[k] < t.len(),
    decreases t.len() - c,
{
    if !(c < 0 || c >= hi || c >= t.len() || t[c].end <= c || t[c].end > t.len()) {
        lemma_siblings_bounds(t, t[c].end as int, hi);
        let rest = siblings_from(t, t[c].end as int, hi);
        assert(siblings_from(t, c, hi) == seq![c as usize] + rest);
        assert forall|k: int| 0 <= k < siblings_from(t, c, hi).len() implies c <= #[trigger] siblings_from(t, c, hi)[k]
                < hi && siblings_from(t, c, hi)[k] < t.len() by {
            if k > 0 {
                assert(siblings_from(t, c, hi)[k] == rest[k - 1]);
            }
        }
    }
}

pub proof fn lemma_only_named_bounds(t: Seq<NodeView>, cs: Seq<usize>, bound: int)
    requires
        forall|k: int| 0 <= k < cs.len() ==> cs[k] < bound,
    ensures
        forall|k: int| 0 <= k < only_named(t, cs).len() ==> #[trigger] only_named(t, cs)[k] < bound,
    decreases cs.len(),
{
    if cs.len() > 0 {
        let tail = cs.subrange(1, cs.len() as int);
        assert forall|k: int| 0 <= k < tail.len() implies tail[k] < bound by {
            assert(tail[k] == cs[k + 1]);
        }
        lemma_only_named_bounds(t, tail, bound);
        let rest = only_named(t, tail);
        let all = only_named(t, cs);
        assert forall|k: int| 0 <= k < all.len() implies #[trigger] all[k] < bound by {
            if t[cs[0] as int].named {
                assert(all == seq![cs[0]] + rest);
                if k > 0 {
                    assert(all[k] == rest[k - 1]);
                }
            }
        }
    }
}

pub proof fn lemma_first_with_field_bounds(t: Seq<NodeView>, cs: Seq<usize>, field: Seq<u8>, bound: int)
    requires
        forall|k: int| 0 <= k < cs.len() ==> cs[k] < bound,
    ensures
        first_with_field(t, cs, field) matches Some(c) ==> c < bound,
    decreases cs.len(),
{
    if cs.len() > 0 {
        let tail = cs.subrange(1, cs.len() as int);
        assert forall|k: int| 0 <= k < tail.len() implies tail[k] < bound by {
            assert(tail[k] == cs[k + 1]);
        }
        lemma_first_with_field_bounds(t, tail, field, bound);
    }
}

impl SyntaxTree {
    /// Number of nodes.
    pub fn len(&self) -> (r: usize)
        ensures
            r == self@.len(),
    {
        self.nodes.len()
    }

    /// Whether node `i` has kind `kind`.
    pub fn is_kind(&self, i: usize, kind: &[u8]) -> (r: bool)
        requires
            i < self@.len(),
        ensures
            r == (self@[i as int].kind == kind@),
    {
        crate::text::bytes_eq(self.nodes[i].kind.as_slice(), kind)
    }

    /// Nodes of kind `kind` in the subtree of `i`, in pre-order.
    pub fn collect_kind(&self, i: usize, kind: &[u8]) -> (r: Vec<usize>)
        requires
            self.wf(),
            i < self@.len(),
        ensures
            r@ == subtree_of_kind(self@, i as int, kind@),
            forall|k: int| 0 <= k < r@.len() ==> i <= #[trigger] r@[k] < self@[i as int].end,
    {
        let hi = self.ends[i];
        let mut out: Vec<usize> = Vec::new();
        let mut j = i;
        assert(node_wf(self@, i as int));
        while j < hi
            invariant
                self.wf(),
                i <= j <= hi,
                hi == self@[i as int].end,
                hi <= self@.len(),
                out@ == nodes_of_kind(self@, i as int, j as int, kind@),
            decreases hi - j,
        {
            if self.is_kind(j, kind) {
                out.push(j);
            }
            j = j + 1;
        }
        proof {
            lemma_nodes_of_kind_bounds(self@, i as int, hi as int, kind@);
        }
        out
    }

    /// First node of kind `kind` in the subtree of `i`, in pre-order.
    pub fn first_of_kind(&self, i: usize, kind: &[u8]) -> (r: Option<usize>)
        requires
            self.wf(),
            i < self@.len(),
        ensures
            r == first_in_subtree(self@, i as int, kind@),
            r matches Some(j) ==> i <= j < self@[i as int].end,
    {
        let hi = self.ends[i];
        let mut j = i;
        assert(node_wf(self@, i as int));
        while j < hi
            invariant
                self.wf(),
                i <= j <= hi,
                hi == self@[i as int].end,
                hi <= self@.len(),
                first_in_subtree(self@, i as int, kind@) == first_of_kind(
                    self@,
                    j as int,
                    hi as int,
                    kind@,
                ),
            decreases hi - j,
        {
            if self.is_kind(j, kind) {
                return Some(j);
            }
            j = j + 1;
        }
        None
    }

    /// Children of `i`, in order.
    pub fn children_of(&self, i: usize) -> (r: Vec<usize>)
        requires
            self.wf(),
            i < self@.len(),
        ensures
            r@ == children(self@, i as int),
            forall|k: int| 0 <= k < r@.len() ==> i < #[trigger] r@[k] < self@[i as int].end,
    {
        assert(node_wf(self@, i as int));
        let hi = self.ends[i];
        let n = self.nodes.len();
        let mut out: Vec<usize> = Vec::new();
        let mut c = i + 1;
        while c < hi && c < n && self.ends[c] > c
            invariant
                self.wf(),
                n == self@.len(),
                i < c,
                hi == self@[i as int].end,
                hi <= n,
                children(self@, i as int) == out@ + siblings_from(self@, c as int, hi as int),
            decreases n - c,
        {
            let ghost before = out@;
            assert(node_wf(self@, c as int));
            out.push(c);
            assert(siblings_from(self@, c as int, hi as int) == seq![c] + siblings_from(
                self@,
                self@[c as int].end as int,
                hi as int,
            ));
            assert(out@ + siblings_from(self@, self@[c as int].end as int, hi as int) =~= before
                + siblings_from(self@, c as int, hi as int));
            c = self.ends[c];
        }
        assert(c < n ==> node_wf(self@, c as int));
        assert(siblings_from(self@, c as int, hi as int) =~= Seq::<usize>::empty());
        assert(out@ =~= children(self@, i as int));
        proof {
            lemma_siblings_bounds(self@, i + 1, hi as int);
        }
        out
    }

    /// First child of `i` whose field name is `field` (`Node::child_by_field_name`).
    pub fn child_by_field(&self, i: usize, field: &[u8]) -> (r: Option<usize>)
        requires
            self.wf(),
            i < self@.len(),
        ensures
            r == child_by_field(self@, i as int, field@),
            r matches Some(c) ==> i < c < self@[i as int].end,
    {
        let cs = self.children_of(i);
        let mut k: usize = 0;
        assert(node_wf(self@, i as int));
        assert(cs@.subrange(0, cs@.len() as int) =~= cs@);
        while k < cs.len()
            invariant
                self.wf(),
                i < self@.len(),
                self@[i as int].end <= self@.len(),
                cs@ == children(self@, i as int),
                forall|m: int| 0 <= m < cs@.len() ==> i < #[trigger] cs@[m] < self@[i as int].end,
                k <= cs@.len(),
                child_by_field(self@, i as int, field@) == first_with_field(
                    self@,
                    cs@.subrange(k as int, cs@.len() as int),
                    field@,
                ),
            decreases cs@.len() - k,
        {
            let c = cs[k];
            let ghost rest = cs@.subrange(k as int, cs@.len() as int);
            assert(rest[0] == c);
            assert(rest.subrange(1, rest.len() as int) =~= cs@.subrange(k + 1, cs@.len() as int));
            let hit = match &self.nodes[c].field {
                Some(f) => crate::text::bytes_eq(f.as_slice(), field),
                None => false,
            };
            assert(hit == (self@[c as int].field == Some(field@)));
            if hit {
                return Some(c);
            }
            k = k + 1;
        }
        None
    }

    /// Named children of `i`, in order.
    pub fn named_children_of(&self, i: usize) -> (r: Vec<usize>)
        requires
            self.wf(),
            i < self@.len(),
        ensures
            r@ == named_children(self@, i as int),
            forall|k: int| 0 <= k < r@.len() ==> i < #[trigger] r@[k] < self@[i as int].end,
    {
        let cs = self.children_of(i);
        let mut out: Vec<usize> = Vec::new();
        let mut k: usize = cs.len();
        assert(node_wf(self@, i as int));
        assert(cs@.subrange(cs@.len() as int, cs@.len() as int) =~= Seq::<usize>::empty());
        while k > 0
            invariant
                self.wf(),
                i < self@.len(),
                self@[i as int].end <= self@.len(),
                cs@ == children(self@, i as int),
                forall|m: int| 0 <= m < cs@.len() ==> i < #[trigger] cs@[m] < self@[i as int].end,
                k <= cs@.len(),
                only_named(self@, cs@.subrange(k as int, cs@.len() as int)) == out@.reverse(),
            decreases k,
        {
            k = k - 1;
            let c = cs[k];
            let ghost rest = cs@.subrange(k as int, cs@.len() as int);
            assert(rest.subrange(1, rest.len() as int) =~= cs@.subrange(k + 1, cs@.len() as int));
            let ghost prev = out@;
            if self.nodes[c].named {
                out.push(c);
                assert(out@.reverse() =~= seq![c] + prev.reverse());
            }
            assert(rest[0] == c);
        }
        assert(cs@.subrange(0, cs@.len() as int) =~= cs@);
        let r = reverse_indices(&out);
        proof {
            lemma_only_named_bounds(self@, cs@, self@[i as int].end as int);
            assert forall|m: int| 0 <= m < r@.len() implies i < #[trigger] r@[m] by {
                lemma_only_named_above(self@, cs@, i as int);
            }
        }
        r
    }

    /// The `k`-th named child of `i` (`Node::named_child`).
    pub fn named_child(&self, i: usize, k: usize) -> (r: Option<usize>)
        requires
            self.wf(),
            i < self@.len(),
        ensures
            r == named_child(self@, i as int, k as int),
            r matches Some(c) ==> i < c < self@[i as int].end,
    {
        let ns = self.named_children_of(i);
        if k < ns.len() {
            Some(ns[k])
        } else {
            None
        }
    }

    /// Text of node `i` (`Node::utf8_text`): `None` when out of range or not UTF-8.
    pub fn text(&self, src: &[u8], i: usize) -> (r: Option<Vec<u8>>)
        requires
            self.wf(),
            i < self@.len(),
        ensures
            r matches Some(v) ==> node_text(src@, self@, i as int) == Some(v@),
            r is None ==> node_text(src@, self@, i as int) is None,
    {
        assert(node_wf(self@, i as int));
        let s = self.nodes[i].start_byte;
        let e = self.nodes[i].end_byte;
        if e > src.len() {
            return None;
        }
        let bytes = copy_range(src, s, e);
        if crate::parser::utf8_valid(bytes.as_slice()) {
            Some(bytes)
        } else {
            None
        }
    }
}

pub proof fn lemma_only_named_above(t: Seq<NodeView>, cs: Seq<usize>, lo: int)
    requires
        forall|k: int| 0 <= k < cs.len() ==> lo < cs[k],
    ensures
        forall|k: int| 0 <= k < only_named(t, cs).len() ==> lo < #[trigger] only_named(t, cs)[k],
    decreases cs.len(),
{
    if cs.len() > 0 {
        let tail = cs.subrange(1, cs.len() as int);
        assert forall|k: int| 0 <= k < tail.len() implies lo < tail[k] by {
            assert(tail[k] == cs[k + 1]);
        }
        lemma_only_named_above(t, tail, lo);
        let rest = only_named(t, tail);
        let all = only_named(t, cs);
        assert forall|k: int| 0 <= k < all.len() implies lo < #[trigger] all[k] by {
            if t[cs[0] as int].named {
                assert(all == seq![cs[0]] + rest);
                if k > 0 {
                    assert(all[k] == rest[k - 1]);
                }
            }
        }
    }
}

/// Reversed copy of an index vector.
pub fn reverse_indices(v: &Vec<usize>) -> (r: Vec<usize>)
    ensures
        r@ == v@.reverse(),
{
    let mut out: Vec<usize> = Vec::new();
    let mut k = v.len();
    while k > 0
        invariant
            k <= v@.len(),
            out@ =~= v@.subrange(k as int, v@.len() as int).reverse(),
        decreases k,
    {
        k = k - 1;
        out.push(v[k]);
        assert(v@.subrange(k as int, v@.len() as int).reverse() =~= v@.subrange(
            k + 1,
            v@.len() as int,
        ).reverse().push(v@[k as int]));
    }
    assert(v@.subrange(0, v@.len() as int) =~= v@);
    out
}

} // verus!
