//! Abstract paint instructions: the sole contract between the editor core
//! and a terminal backend. The core never writes to a terminal; it emits an
//! ordered list of these operations.

use vstd::prelude::*;
use crate::units::Position;

verus! {

/// The handful of named terminal colors the core itself uses.
#[derive(Clone, Copy, PartialEq, Eq, Structural, Debug)]
pub enum AnsiBasicColor {
    Black,
    White,
    Red,
    Green,
    Blue,
    Yellow,
}

/// A terminal color: a named basic color or a 24-bit value.
#[derive(Clone, Copy, PartialEq, Eq, Structural, Debug)]
pub enum TuiColor {
    Basic(AnsiBasicColor),
    Rgb(u8, u8, u8),
}

/// Foreground/background colors plus the reverse-video attribute.
#[derive(Clone, Copy, PartialEq, Eq, Structural, Debug)]
pub struct TuiStyle {
    pub color_fg: Option<TuiColor>,
    pub color_bg: Option<TuiColor>,
    pub reverse: bool,
}

/// One paint operation. Positions are viewport-relative, measured from the
/// given origin.
#[derive(Debug)]
pub enum RenderOp {
    MoveCursorPositionRelTo(Position, Position),
    ApplyColors(Option<TuiStyle>),
    PaintTextWithAttributes(String, Option<TuiStyle>),
    ResetColor,
}

/// The mathematical value of a paint operation.
pub enum OpView {
    MoveCursor(Position, Position),
    ApplyColors(Option<TuiStyle>),
    PaintText(Seq<char>, Option<TuiStyle>),
    ResetColor,
}

impl View for RenderOp {
    type V = OpView;

    open spec fn view(&self) -> OpView {
        match self {
            RenderOp::MoveCursorPositionRelTo(origin, pos) => OpView::MoveCursor(*origin, *pos),
            RenderOp::ApplyColors(style) => OpView::ApplyColors(*style),
            RenderOp::PaintTextWithAttributes(text, style) => OpView::PaintText(text@, *style),
            RenderOp::ResetColor => OpView::ResetColor,
        }
    }
}

/// The values of a whole operation list.
pub open spec fn ops_view(ops: Seq<RenderOp>) -> Seq<OpView> {
    ops.map_values(|op: RenderOp| op@)
}

/// Whether an operation stays inside the first `max_rows` viewport rows.
/// Only cursor moves carry a position; everything else paints at the
/// cursor.
pub open spec fn op_row_bounded(op: OpView, max_rows: int) -> bool {
    match op {
        OpView::MoveCursor(_, pos) => pos.row_index < max_rows,
        _ => true,
    }
}

pub open spec fn ops_row_bounded(ops: Seq<OpView>, max_rows: int) -> bool {
    forall|i: int| 0 <= i < ops.len() ==> op_row_bounded(#[trigger] ops[i], max_rows)
}

/// The operation list grew only at the end, and only by operations that
/// stay inside the first `max_rows` viewport rows.
pub open spec fn appended_ops_row_bounded(before: Seq<OpView>, after: Seq<OpView>, max_rows: int) -> bool {
    &&& after.len() >= before.len()
    &&& after.take(before.len() as int) == before
    &&& forall|i: int| before.len() <= i < after.len() ==> op_row_bounded(#[trigger] after[i], max_rows)
}

pub proof fn lemma_appended_row_bounded_refl(s: Seq<OpView>, max_rows: int)
    ensures
        appended_ops_row_bounded(s, s, max_rows),
{
    assert(s.take(s.len() as int) =~= s);
}

pub proof fn lemma_appended_row_bounded_suffix(before: Seq<OpView>, suffix: Seq<OpView>, max_rows: int)
    requires
        ops_row_bounded(suffix, max_rows),
    ensures
        appended_ops_row_bounded(before, before + suffix, max_rows),
{
    let after = before + suffix;
    assert(after.take(before.len() as int) =~= before);
    assert forall|i: int| before.len() <= i < after.len() implies op_row_bounded(
        #[trigger] after[i],
        max_rows,
    ) by {
        assert(after[i] == suffix[i - before.len()]);
    }
}

pub proof fn lemma_appended_row_bounded_trans(a: Seq<OpView>, b: Seq<OpView>, c: Seq<OpView>, max_rows: int)
    requires
        appended_ops_row_bounded(a, b, max_rows),
        appended_ops_row_bounded(b, c, max_rows),
    ensures
        appended_ops_row_bounded(a, c, max_rows),
{
    assert(c.take(a.len() as int) =~= b.take(a.len() as int));
    assert forall|i: int| a.len() <= i < c.len() implies op_row_bounded(#[trigger] c[i], max_rows) by {
        if i < b.len() {
            assert(c.take(b.len() as int)[i] == c[i]);
            assert(b[i] == c[i]);
        }
    }
}

/// Layering order for a paint cycle.
#[derive(Clone, Copy, PartialEq, Eq, Structural, Debug)]
pub enum ZOrder {
    Normal,
    High,
}

/// All operations of a pipeline's batches, in paint order.
pub open spec fn entries_ops(entries: Seq<(ZOrder, Vec<RenderOp>)>) -> Seq<OpView>
    decreases entries.len(),
{
    if entries.len() == 0 {
        Seq::empty()
    } else {
        entries_ops(entries.drop_last()) + ops_view(entries.last().1@)
    }
}

/// An ordered list of operation batches, one per layer, painted in order.
#[derive(Debug)]
pub struct RenderPipeline {
    pub entries: Vec<(ZOrder, Vec<RenderOp>)>,
}

impl RenderPipeline {
    pub fn new() -> (r: RenderPipeline)
        ensures
            r.entries@ =~= Seq::<(ZOrder, Vec<RenderOp>)>::empty(),
    {
        RenderPipeline { entries: Vec::new() }
    }

    pub fn push(&mut self, z_order: ZOrder, ops: Vec<RenderOp>)
        ensures
            final(self).entries@ == old(self).entries@.push((z_order, ops)),
    {
        self.entries.push((z_order, ops));
    }

    /// Every operation of every batch stays inside the first `max_rows`
    /// viewport rows.
    pub open spec fn row_bounded(&self, max_rows: int) -> bool {
        forall|i: int|
            0 <= i < self.entries@.len() ==> ops_row_bounded(
                ops_view((#[trigger] self.entries@[i]).1@),
                max_rows,
            )
    }
}

} // verus!
