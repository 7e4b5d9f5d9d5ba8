//! One document row: a sequence of grapheme-cluster segments. All editing
//! primitives keep the row narrow enough that its total display width stays
//! representable, so column arithmetic never overflows.

use vstd::prelude::*;
use crate::seg::{Seg, SegView, segs_text, segs_to_string};
use crate::units::SelectionRange;
use crate::col_math::{
    prefix_width, line_width, segs_view, lemma_prefix_width_mono, lemma_prefix_width_agree,
    line_display_width,
};

verus! {

/// A single line of the document.
#[derive(Debug)]
pub struct Line {
    pub segs: Vec<Seg>,
}

impl View for Line {
    type V = Seq<SegView>;

    open spec fn view(&self) -> Seq<SegView> {
        segs_view(self.segs@)
    }
}

/// Segments selected by the display-column window `[start, end)`, scanning
/// from segment `k`: a segment is kept when it lies wholly inside the
/// window, and a zero-width segment parked exactly on the window's right
/// edge is left out.
pub open spec fn clip_from(l: Seq<SegView>, k: int, start: int, end: int) -> Seq<SegView>
    decreases l.len() - k,
{
    if k < 0 || k >= l.len() {
        Seq::empty()
    } else {
        let rest = clip_from(l, k + 1, start, end);
        if prefix_width(l, k) >= start && prefix_width(l, k) < end && prefix_width(l, k + 1) <= end {
            seq![l[k]] + rest
        } else {
            rest
        }
    }
}

/// The segments of `l` visible in the display-column window `[start, end)`.
pub open spec fn clip_cols_spec(l: Seq<SegView>, start: int, end: int) -> Seq<SegView> {
    clip_from(l, 0, start, end)
}

/// An empty window selects nothing.
pub proof fn lemma_clip_empty_window(l: Seq<SegView>, k: int, start: int, end: int)
    requires
        end <= start,
    ensures
        clip_from(l, k, start, end) == Seq::<SegView>::empty(),
    decreases l.len() - k,
{
    if 0 <= k < l.len() {
        lemma_clip_empty_window(l, k + 1, start, end);
    }
}

impl Line {
    pub open spec fn wf(&self) -> bool {
        line_width(self@) <= usize::MAX
    }

    pub fn new() -> (r: Line)
        ensures
            r@ =~= Seq::<SegView>::empty(),
            r.wf(),
    {
        Line { segs: Vec::new() }
    }

    pub fn clone_line(&self) -> (r: Line)
        ensures
            r@ == self@,
    {
        let mut segs: Vec<Seg> = Vec::new();
        let n = self.segs.len();
        for i in 0..n
            invariant
                n == self.segs.len(),
                segs@.len() == i,
                forall|j: int| 0 <= j < i ==> #[trigger] segs@[j]@ == self.segs@[j]@,
        {
            segs.push(self.segs[i].clone_seg());
        }
        let r = Line { segs };
        proof {
            assert(r@ =~= self@);
        }
        r
    }

    /// The row's text as one string.
    pub fn as_string(&self) -> (r: String)
        ensures
            r@ == segs_text(self@),
    {
        segs_to_string(&self.segs)
    }

    /// The row's total display width.
    pub fn display_width(&self) -> (r: usize)
        requires
            self.wf(),
        ensures
            r == line_width(self@),
    {
        line_display_width(&self.segs)
    }

    /// Splices `segs` into the row before segment `k`. When the combined
    /// row would grow too wide to measure the splice is refused and the row
    /// is left unchanged; the result reports the width actually added.
    pub fn insert_segs_at(&mut self, k: usize, mut segs: Vec<Seg>) -> (r: Option<usize>)
        requires
            k <= old(self)@.len(),
            old(self).wf(),
        ensures
            final(self).wf(),
            r is Some <==> line_width(old(self)@) + line_width(segs_view(segs@)) <= usize::MAX,
            match r {
                Some(w) => {
                    &&& final(self)@ =~= old(self)@.take(k as int) + segs_view(segs@)
                        + old(self)@.skip(k as int)
                    &&& w == line_width(segs_view(segs@))
                    &&& line_width(final(self)@) == line_width(old(self)@) + w
                },
                None => final(self)@ == old(self)@,
            },
    {
        let ghost l0 = self@;
        let ghost ins = segs_view(segs@);
        let w = match segs_total_width(&segs) {
            Some(w) => w,
            None => {
                return None;
            },
        };
        let cur = self.display_width();
        if w > usize::MAX - cur {
            return None;
        }
        let mut tail = self.segs.split_off(k);
        self.segs.append(&mut segs);
        self.segs.append(&mut tail);
        proof {
            assert(final(self)@ =~= l0.take(k as int) + ins + l0.skip(k as int));
            lemma_line_width_concat3(l0.take(k as int), ins, l0.skip(k as int));
            lemma_line_width_split(l0, k as int);
        }
        Some(w)
    }

    /// Removes the segment at index `k` and hands it back.
    pub fn remove_seg_at(&mut self, k: usize) -> (r: Seg)
        requires
            k < old(self)@.len(),
            old(self).wf(),
        ensures
            final(self)@ =~= old(self)@.remove(k as int),
            r@ == old(self)@[k as int],
            final(self).wf(),
            line_width(final(self)@) + r@.width == line_width(old(self)@),
    {
        let ghost l0 = self@;
        let r = self.segs.remove(k);
        proof {
            assert(final(self)@ =~= l0.remove(k as int));
            assert(l0 =~= l0.remove(k as int).take(k as int) + seq![l0[k as int]]
                + l0.remove(k as int).skip(k as int));
            lemma_line_width_concat3(
                l0.remove(k as int).take(k as int),
                seq![l0[k as int]],
                l0.remove(k as int).skip(k as int),
            );
            lemma_line_width_split(l0.remove(k as int), k as int);
            assert(line_width(seq![l0[k as int]]) == l0[k as int].width) by {
                reveal_with_fuel(prefix_width, 2);
            }
        }
        r
    }

    /// Splits the row before segment `k`; `self` keeps the head, the tail
    /// is returned as a new row.
    pub fn split_off_at(&mut self, k: usize) -> (r: Line)
        requires
            k <= old(self)@.len(),
            old(self).wf(),
        ensures
            final(self)@ =~= old(self)@.take(k as int),
            r@ =~= old(self)@.skip(k as int),
            final(self).wf(),
            r.wf(),
    {
        let ghost l0 = self@;
        let tail = self.segs.split_off(k);
        proof {
            assert(final(self)@ =~= l0.take(k as int));
            assert(segs_view(tail@) =~= l0.skip(k as int));
            assert(l0 =~= l0.take(k as int) + l0.skip(k as int));
            lemma_line_width_concat(l0.take(k as int), l0.skip(k as int));
        }
        Line { segs: tail }
    }

    /// Appends `other` to this row. Refused, leaving both rows unchanged,
    /// when the joined row would be too wide to measure.
    pub fn append_line(&mut self, other: &Line) -> (r: bool)
        requires
            old(self).wf(),
            other.wf(),
        ensures
            final(self).wf(),
            r <==> line_width(old(self)@) + line_width(other@) <= usize::MAX,
            r ==> final(self)@ =~= old(self)@ + other@,
            !r ==> final(self)@ == old(self)@,
    {
        let ghost l0 = self@;
        let a = self.display_width();
        let b = other.display_width();
        if b > usize::MAX - a {
            return false;
        }
        let mut tail = other.clone_line();
        self.segs.append(&mut tail.segs);
        proof {
            assert(final(self)@ =~= l0 + other@);
            lemma_line_width_concat(l0, other@);
        }
        true
    }

    /// The display width of the clusters before logical index `k`. An
    /// index past the end clamps to the whole row's width rather than
    /// failing.
    pub fn display_width_up_to(&self, k: usize) -> (r: usize)
        requires
            self.wf(),
        ensures
            r == prefix_width(
                self@,
                if k <= self@.len() {
                    k as int
                } else {
                    self@.len() as int
                },
            ),
    {
        let n = self.segs.len();
        let clamped = if k <= n {
            k
        } else {
            n
        };
        let mut acc: usize = 0;
        for i in 0..clamped
            invariant
                clamped <= n,
                n == self.segs.len(),
                line_width(self@) <= usize::MAX,
                acc == prefix_width(self@, i as int),
        {
            proof {
                lemma_prefix_width_mono(self@, i + 1, self@.len() as int);
            }
            assert(prefix_width(self@, i + 1) == acc + self@[i as int].width);
            acc = acc + self.segs[i].width;
        }
        acc
    }

    /// The text of the row covered by `range`, intersected with the row's
    /// actual bounds; empty when the range lies wholly outside the row.
    pub fn clip_to_range(&self, range: SelectionRange) -> (r: String)
        requires
            self.wf(),
        ensures
            r@ == segs_text(
                clip_cols_spec(
                    self@,
                    range.start_display_col_index as int,
                    range.end_display_col_index as int,
                ),
            ),
    {
        let v = self.clip_cols(range.start_display_col_index, range.end_display_col_index);
        segs_to_string(&v)
    }

    /// The text visible in the window of `width` columns starting at
    /// `start_col`. A window reaching past the largest representable
    /// column is cut there, where no row can extend anyway.
    pub fn clip_to_width(&self, start_col: usize, width: usize) -> (r: String)
        requires
            self.wf(),
        ensures
            r@ == segs_text(
                clip_cols_spec(
                    self@,
                    start_col as int,
                    if start_col + width <= usize::MAX {
                        start_col + width
                    } else {
                        usize::MAX as int
                    },
                ),
            ),
    {
        let end: usize = if width <= usize::MAX - start_col {
            start_col + width
        } else {
            usize::MAX
        };
        let v = self.clip_cols(start_col, end);
        segs_to_string(&v)
    }

    /// The segments visible in the display-column window `[start, end)`.
    pub fn clip_cols(&self, start: usize, end: usize) -> (r: Vec<Seg>)
        requires
            self.wf(),
        ensures
            segs_view(r@) == clip_cols_spec(self@, start as int, end as int),
    {
        let ghost l = self@;
        let n = self.segs.len();
        let mut r: Vec<Seg> = Vec::new();
        let mut acc: usize = 0;
        for k in 0..n
            invariant
                n == self.segs.len(),
                l == self@,
                line_width(l) <= usize::MAX,
                acc == prefix_width(l, k as int),
                clip_cols_spec(l, start as int, end as int) =~= segs_view(r@) + clip_from(
                    l,
                    k as int,
                    start as int,
                    end as int,
                ),
        {
            proof {
                lemma_prefix_width_mono(l, k + 1, l.len() as int);
            }
            assert(prefix_width(l, k + 1) == acc + l[k as int].width);
            let w = self.segs[k].width;
            let seg_end = acc + w;
            if acc >= start && acc < end && seg_end <= end {
                let ghost r0 = segs_view(r@);
                r.push(self.segs[k].clone_seg());
                proof {
                    assert(segs_view(r@) =~= r0 + seq![l[k as int]]);
                }
            }
            acc = seg_end;
        }
        r
    }
}

/// The segments left over when the display-column window `[start, end)` is
/// cut out: the complement of [`clip_from`], scanning from segment `k`.
pub open spec fn drop_cols_from(l: Seq<SegView>, k: int, start: int, end: int) -> Seq<SegView>
    decreases l.len() - k,
{
    if k < 0 || k >= l.len() {
        Seq::empty()
    } else {
        let rest = drop_cols_from(l, k + 1, start, end);
        if prefix_width(l, k) >= start && prefix_width(l, k) < end && prefix_width(l, k + 1) <= end {
            rest
        } else {
            seq![l[k]] + rest
        }
    }
}

/// The segments of `l` outside the display-column window `[start, end)`.
pub open spec fn drop_cols_spec(l: Seq<SegView>, start: int, end: int) -> Seq<SegView> {
    drop_cols_from(l, 0, start, end)
}

/// What survives the cut is no wider than what was there.
pub proof fn lemma_drop_cols_width(l: Seq<SegView>, k: int, start: int, end: int)
    requires
        0 <= k <= l.len(),
    ensures
        line_width(drop_cols_from(l, k, start, end)) + prefix_width(l, k) <= line_width(l),
    decreases l.len() - k,
{
    if k < l.len() {
        lemma_drop_cols_width(l, k + 1, start, end);
        let rest = drop_cols_from(l, k + 1, start, end);
        assert(line_width(seq![l[k]] + rest) == l[k].width + line_width(rest)) by {
            lemma_line_width_concat(seq![l[k]], rest);
            reveal_with_fuel(prefix_width, 2);
        }
    }
}

impl Line {
    /// Removes the segments wholly inside the display-column window
    /// `[start, end)`, keeping the rest in order.
    pub fn retain_outside_cols(&mut self, start: usize, end: usize)
        requires
            old(self).wf(),
        ensures
            final(self)@ == drop_cols_spec(old(self)@, start as int, end as int),
            final(self).wf(),
    {
        let ghost l = self@;
        let n = self.segs.len();
        let mut r: Vec<Seg> = Vec::new();
        let mut acc: usize = 0;
        for k in 0..n
            invariant
                n == self.segs.len(),
                l == self@,
                line_width(l) <= usize::MAX,
                acc == prefix_width(l, k as int),
                drop_cols_spec(l, start as int, end as int) =~= segs_view(r@) + drop_cols_from(
                    l,
                    k as int,
                    start as int,
                    end as int,
                ),
        {
            proof {
                lemma_prefix_width_mono(l, k + 1, l.len() as int);
            }
            assert(prefix_width(l, k + 1) == acc + l[k as int].width);
            let w = self.segs[k].width;
            let seg_end = acc + w;
            if !(acc >= start && acc < end && seg_end <= end) {
                let ghost r0 = segs_view(r@);
                r.push(self.segs[k].clone_seg());
                proof {
                    assert(segs_view(r@) =~= r0 + seq![l[k as int]]);
                }
            }
            acc = seg_end;
        }
        self.segs = r;
        proof {
            assert(drop_cols_spec(l, start as int, end as int) =~= segs_view(self.segs@));
            lemma_drop_cols_width(l, 0, start as int, end as int);
        }
    }
}

/// The total width of a run of segments, or `None` when it does not fit in
/// a machine word.
pub fn segs_total_width(segs: &Vec<Seg>) -> (r: Option<usize>)
    ensures
        match r {
            Some(w) => w == line_width(segs_view(segs@)),
            None => line_width(segs_view(segs@)) > usize::MAX,
        },
{
    let ghost l = segs_view(segs@);
    let n = segs.len();
    let mut acc: usize = 0;
    for i in 0..n
        invariant
            n == segs.len(),
            l == segs_view(segs@),
            acc == prefix_width(l, i as int),
    {
        assert(prefix_width(l, i + 1) == acc + l[i as int].width);
        let w = segs[i].width;
        if w > usize::MAX - acc {
            proof {
                lemma_prefix_width_mono(l, i + 1, l.len() as int);
            }
            return None;
        }
        acc = acc + w;
    }
    Some(acc)
}

/// Splitting a line splits its width.
pub proof fn lemma_line_width_split(l: Seq<SegView>, k: int)
    requires
        0 <= k <= l.len(),
    ensures
        line_width(l) == line_width(l.take(k)) + line_width(l.skip(k)),
{
    lemma_line_width_concat(l.take(k), l.skip(k));
    assert(l =~= l.take(k) + l.skip(k));
}

/// Width adds over concatenation.
pub proof fn lemma_line_width_concat(a: Seq<SegView>, b: Seq<SegView>)
    ensures
        line_width(a + b) == line_width(a) + line_width(b),
{
    lemma_prefix_width_concat(a, b, b.len() as int);
    lemma_prefix_width_agree(a + b, a, a.len() as int);
}

proof fn lemma_prefix_width_concat(a: Seq<SegView>, b: Seq<SegView>, j: int)
    requires
        0 <= j <= b.len(),
    ensures
        prefix_width(a + b, a.len() + j) == prefix_width(a + b, a.len() as int) + prefix_width(b, j),
    decreases j,
{
    if j > 0 {
        lemma_prefix_width_concat(a, b, j - 1);
    }
}

pub proof fn lemma_line_width_concat3(a: Seq<SegView>, b: Seq<SegView>, c: Seq<SegView>)
    ensures
        line_width(a + b + c) == line_width(a) + line_width(b) + line_width(c),
{
    lemma_line_width_concat(a + b, c);
    lemma_line_width_concat(a, b);
}

} // verus!
