//! Document-level well-formedness: the mathematical view of the line list,
//! and the caret invariant that every mutation re-establishes.

use vstd::prelude::*;
use crate::seg::SegView;
use crate::line::Line;
use crate::col_math::{line_width, is_boundary};
use crate::units::Position;

verus! {

/// The mathematical value of the document: one segment sequence per row.
pub open spec fn doc_view(lines: Seq<Line>) -> Seq<Seq<SegView>> {
    lines.map_values(|l: Line| l@)
}

/// Every row is narrow enough for its width to be representable.
pub open spec fn doc_wf(doc: Seq<Seq<SegView>>) -> bool {
    forall|i: int| 0 <= i < doc.len() ==> line_width(#[trigger] doc[i]) <= usize::MAX
}

/// The caret invariant: in an empty document the caret sits at the origin;
/// otherwise its row exists and its column lands on a grapheme-cluster
/// boundary of that row.
pub open spec fn caret_ok(doc: Seq<Seq<SegView>>, caret: Position) -> bool {
    if doc.len() == 0 {
        caret.col_index == 0 && caret.row_index == 0
    } else {
        &&& caret.row_index < doc.len()
        &&& is_boundary(doc[caret.row_index as int], caret.col_index as int)
    }
}

/// Column zero is a boundary of every row.
pub proof fn lemma_zero_is_boundary(l: Seq<SegView>)
    ensures
        is_boundary(l, 0),
{
    assert(crate::col_math::prefix_width(l, 0) == 0);
}

/// A deep copy of the line list, equal to its source at the view level.
pub fn clone_doc(lines: &Vec<Line>) -> (r: Vec<Line>)
    ensures
        doc_view(r@) == doc_view(lines@),
{
    let mut r: Vec<Line> = Vec::new();
    let n = lines.len();
    for i in 0..n
        invariant
            n == lines.len(),
            r@.len() == i,
            forall|j: int| 0 <= j < i ==> #[trigger] r@[j]@ == lines@[j]@,
    {
        r.push(lines[i].clone_line());
    }
    proof {
        assert(doc_view(r@) =~= doc_view(lines@));
    }
    r
}

} // verus!
