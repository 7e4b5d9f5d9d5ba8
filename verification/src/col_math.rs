//! Display-position math for one line: converting between a segment index
//! (the logical position of a grapheme cluster) and a display column, and
//! snapping a column onto a cluster boundary.

use vstd::prelude::*;
use crate::seg::{Seg, SegView};

verus! {

/// The display width of the first `k` segments of a line. Indices past the
/// end contribute nothing, so the function is total in `k`.
pub open spec fn prefix_width(l: Seq<SegView>, k: int) -> nat
    decreases k,
{
    if k <= 0 {
        0
    } else {
        prefix_width(l, k - 1) + if k - 1 < l.len() {
            l[k - 1].width
        } else {
            0
        }
    }
}

/// The display width of the whole line.
pub open spec fn line_width(l: Seq<SegView>) -> nat {
    prefix_width(l, l.len() as int)
}

/// A display column is a caret boundary when it is the width of some prefix
/// of the line's segments.
pub open spec fn is_boundary(l: Seq<SegView>, col: int) -> bool {
    exists|k: int| 0 <= k <= l.len() && prefix_width(l, k) == col
}

/// Scans rightward from segment `k`: the index of the segment that covers
/// display column `col`, or the line's length when `col` lies at or past the
/// end. Of the prefixes no wider than `col`, it picks the longest, so a
/// caret at `col` stands after any zero-width cluster ending there.
pub open spec fn locate_from(l: Seq<SegView>, k: int, col: int) -> int
    decreases l.len() - k,
{
    if k < 0 || k >= l.len() {
        k
    } else if prefix_width(l, k + 1) <= col {
        locate_from(l, k + 1, col)
    } else {
        k
    }
}

/// The canonical segment index for display column `col`.
pub open spec fn locate_index(l: Seq<SegView>, col: int) -> int {
    locate_from(l, 0, col)
}

/// The column that a caret aimed at `col` actually lands on: the widest
/// prefix no wider than `col` (snap left, and clamp past end of line).
pub open spec fn snapped_col(l: Seq<SegView>, col: int) -> nat {
    prefix_width(l, locate_index(l, col))
}

pub proof fn lemma_prefix_width_mono(l: Seq<SegView>, j: int, k: int)
    requires
        j <= k,
    ensures
        prefix_width(l, j) <= prefix_width(l, k),
    decreases k - j,
{
    if j < k {
        lemma_prefix_width_mono(l, j, k - 1);
    }
}

pub proof fn lemma_locate_from_props(l: Seq<SegView>, k: int, col: int)
    requires
        0 <= k <= l.len(),
        prefix_width(l, k) <= col,
    ensures
        k <= locate_from(l, k, col) <= l.len(),
        prefix_width(l, locate_from(l, k, col)) <= col,
        locate_from(l, k, col) < l.len() ==> prefix_width(l, locate_from(l, k, col) + 1) > col,
    decreases l.len() - k,
{
    if k < l.len() && prefix_width(l, k + 1) <= col {
        lemma_locate_from_props(l, k + 1, col);
    }
}

/// The canonical index: everything at or before it fits in `col`, everything
/// strictly after it overshoots.
pub proof fn lemma_locate_props(l: Seq<SegView>, col: int)
    requires
        col >= 0,
    ensures
        0 <= locate_index(l, col) <= l.len(),
        prefix_width(l, locate_index(l, col)) <= col,
        forall|j: int| locate_index(l, col) < j <= l.len() ==> prefix_width(l, j) > col,
{
    lemma_locate_from_props(l, 0, col);
    let r = locate_index(l, col);
    assert forall|j: int| r < j <= l.len() implies prefix_width(l, j) > col by {
        lemma_prefix_width_mono(l, r + 1, j);
    }
}

/// On a boundary column the canonical prefix is exactly that wide, so a
/// caret on a boundary is not moved by snapping.
pub proof fn lemma_locate_boundary(l: Seq<SegView>, col: int)
    requires
        col >= 0,
        is_boundary(l, col),
    ensures
        prefix_width(l, locate_index(l, col)) == col,
        snapped_col(l, col) == col,
{
    lemma_locate_props(l, col);
    let r = locate_index(l, col);
    let k = choose|k: int| 0 <= k <= l.len() && prefix_width(l, k) == col;
    if k > r {
        assert(prefix_width(l, k) > col);
    } else {
        lemma_prefix_width_mono(l, k, r);
    }
}

/// The canonical index is the only one that fits in `col` while the next
/// prefix overshoots, so exhibiting such an index pins `locate_index` down.
pub proof fn lemma_locate_unique(l: Seq<SegView>, col: int, k: int)
    requires
        col >= 0,
        0 <= k <= l.len(),
        prefix_width(l, k) <= col,
        k < l.len() ==> prefix_width(l, k + 1) > col,
    ensures
        locate_index(l, col) == k,
{
    lemma_locate_props(l, col);
    let r = locate_index(l, col);
    if r < k {
        lemma_prefix_width_mono(l, r + 1, k);
        assert(prefix_width(l, r + 1) > col);
    } else if r > k {
        lemma_prefix_width_mono(l, k + 1, r);
        assert(prefix_width(l, r) > col);
    }
}

/// A prefix width is the width of the prefix taken as a line of its own.
pub proof fn lemma_prefix_is_take_width(l: Seq<SegView>, k: int)
    requires
        0 <= k <= l.len(),
    ensures
        prefix_width(l, k) == line_width(l.take(k)),
{
    lemma_prefix_width_agree(l, l.take(k), k);
}

/// A snapped column is always a boundary.
pub proof fn lemma_snapped_is_boundary(l: Seq<SegView>, col: int)
    requires
        col >= 0,
    ensures
        is_boundary(l, snapped_col(l, col) as int),
        snapped_col(l, col) <= col,
{
    lemma_locate_props(l, col);
    let r = locate_index(l, col);
    assert(0 <= r <= l.len() && prefix_width(l, r) == snapped_col(l, col));
}

/// Prefix widths only read the segments before `k`, so two lines that agree
/// there have the same prefix width.
pub proof fn lemma_prefix_width_agree(l1: Seq<SegView>, l2: Seq<SegView>, k: int)
    requires
        k <= l1.len(),
        k <= l2.len(),
        forall|j: int| 0 <= j < k ==> l1[j] == l2[j],
    ensures
        prefix_width(l1, k) == prefix_width(l2, k),
    decreases k,
{
    if k > 0 {
        lemma_prefix_width_agree(l1, l2, k - 1);
    }
}

/// The spec-level view of a line's segments.
pub open spec fn segs_view(segs: Seq<Seg>) -> Seq<SegView> {
    segs.map_values(|s: Seg| s@)
}

/// Walks a line to find the canonical segment index for `col` and the
/// boundary column it corresponds to.
pub fn locate_col(segs: &Vec<Seg>, col: usize) -> (r: (usize, usize))
    ensures
        r.0 == locate_index(segs_view(segs@), col as int),
        r.0 <= segs@.len(),
        r.1 == prefix_width(segs_view(segs@), r.0 as int),
        r.1 <= col,
{
    let ghost l = segs_view(segs@);
    let n = segs.len();
    let mut i: usize = 0;
    let mut acc: usize = 0;
    proof {
        lemma_locate_props(l, col as int);
    }
    loop
        invariant
            n == segs.len(),
            l == segs_view(segs@),
            0 <= i <= n,
            acc == prefix_width(l, i as int),
            acc <= col,
            locate_from(l, 0, col as int) == locate_from(l, i as int, col as int),
        ensures
            i <= n,
            acc == prefix_width(l, i as int),
            acc <= col,
            locate_from(l, 0, col as int) == i as int,
        decreases n - i,
    {
        if i >= n {
            break;
        }
        let w = segs[i].width;
        assert(l[i as int].width == w);
        assert(prefix_width(l, i + 1) == acc + w);
        if w <= col - acc {
            acc = acc + w;
            i = i + 1;
        } else {
            break;
        }
    }
    (i, acc)
}

/// The display width of the whole line. The width is the column the caret
/// reaches at end of line; the document keeps every line narrow enough for
/// that column to be representable, which the caller warrants.
pub fn line_display_width(segs: &Vec<Seg>) -> (r: usize)
    requires
        line_width(segs_view(segs@)) <= usize::MAX,
    ensures
        r == line_width(segs_view(segs@)),
{
    let ghost l = segs_view(segs@);
    let n = segs.len();
    let mut acc: usize = 0;
    for i in 0..n
        invariant
            n == segs.len(),
            l == segs_view(segs@),
            acc == prefix_width(l, i as int),
            line_width(l) <= usize::MAX,
    {
        proof {
            lemma_prefix_width_mono(l, i + 1, l.len() as int);
        }
        assert(prefix_width(l, i + 1) == acc + l[i as int].width);
        acc = acc + segs[i].width;
    }
    acc
}

/// Snaps a display column onto the nearest cluster boundary at or to its
/// left, clamping columns past the end of the line to the line's width.
pub fn nearest_valid_caret_col(segs: &Vec<Seg>, col: usize) -> (r: usize)
    ensures
        r == snapped_col(segs_view(segs@), col as int),
        is_boundary(segs_view(segs@), r as int),
        r <= col,
{
    let (_, acc) = locate_col(segs, col);
    proof {
        lemma_snapped_is_boundary(segs_view(segs@), col as int);
    }
    acc
}

} // verus!
