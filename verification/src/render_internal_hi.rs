//! The internal-override content strategy: after the external grammar has
//! painted, structural markers the grammar does not know are re-painted by
//! the core itself. A row is overridden when its first cluster is the
//! heading marker; all other rows keep what the lower strategy painted.
//! The override is cosmetic and never fails, so there is nothing to
//! swallow here beyond rows without a marker.

use vstd::prelude::*;
use crate::seg::{SegView, segs_text};
use crate::line::clip_cols_spec;
use crate::col_math::line_width;
use crate::render_op::{
    RenderOp, OpView, ops_view, ops_row_bounded, TuiStyle, TuiColor, AnsiBasicColor,
};
use crate::units::{Position, Size};
use crate::engine::EditorEngine;
use crate::editor_buffer::EditorBuffer;
use crate::render_no_hi::win_end;

verus! {

/// The style headings are re-painted with.
pub open spec fn spec_heading_style() -> TuiStyle {
    TuiStyle { color_fg: Some(TuiColor::Basic(AnsiBasicColor::Yellow)), color_bg: None, reverse: false }
}

pub fn heading_style() -> (r: TuiStyle)
    ensures
        r == spec_heading_style(),
{
    TuiStyle { color_fg: Some(TuiColor::Basic(AnsiBasicColor::Yellow)), color_bg: None, reverse: false }
}

/// A row the override re-paints: its first grapheme cluster is the
/// heading marker.
pub open spec fn is_heading_row(l: Seq<SegView>) -> bool {
    l.len() > 0 && l[0].text == seq!['#']
}

/// The operations the override adds, from visible row `j` on: for each
/// heading row, a cursor move and the whole visible row re-painted in the
/// heading style.
pub open spec fn override_ops(
    doc: Seq<Seq<SegView>>,
    scroll: Position,
    size: Size,
    origin: Position,
    j: int,
) -> Seq<OpView>
    decreases size.row_count - j,
{
    if j < 0 || j >= size.row_count || scroll.row_index + j >= doc.len() {
        Seq::empty()
    } else {
        let l = doc[scroll.row_index + j];
        let rest = override_ops(doc, scroll, size, origin, j + 1);
        if is_heading_row(l) {
            seq![
                OpView::MoveCursor(origin, (Position { col_index: 0, row_index: j as usize })),
                OpView::ApplyColors(Some(spec_heading_style())),
                OpView::PaintText(
                    segs_text(
                        clip_cols_spec(
                            l,
                            scroll.col_index as int,
                            win_end(scroll.col_index as int, size.col_count as int),
                        ),
                    ),
                    Some(spec_heading_style()),
                ),
                OpView::ResetColor,
            ] + rest
        } else {
            rest
        }
    }
}

/// Every override operation stays inside the viewport's rows.
pub proof fn lemma_override_ops_row_bounded(
    doc: Seq<Seq<SegView>>,
    scroll: Position,
    size: Size,
    origin: Position,
    j: int,
)
    ensures
        ops_row_bounded(override_ops(doc, scroll, size, origin, j), size.row_count as int),
    decreases size.row_count - j,
{
    if !(j < 0 || j >= size.row_count || scroll.row_index + j >= doc.len()) {
        lemma_override_ops_row_bounded(doc, scroll, size, origin, j + 1);
    }
}

/// Re-paints the visible heading rows on top of what the lower strategy
/// painted.
pub fn render_content(
    editor_buffer: &EditorBuffer,
    max_display_row_count: usize,
    render_ops: &mut Vec<RenderOp>,
    editor_engine: &EditorEngine,
    max_display_col_count: usize,
)
    requires
        editor_buffer.wf(),
    ensures
        ops_view(final(render_ops)@) == ops_view(old(render_ops)@) + override_ops(
            editor_buffer.doc(),
            editor_buffer.scroll_offset,
            (Size { col_count: max_display_col_count, row_count: max_display_row_count }),
            editor_engine.current_box.style_adjusted_origin_pos,
            0,
        ),
{
    let ghost doc = editor_buffer.doc();
    let ghost scroll = editor_buffer.scroll_offset;
    let ghost size = Size { col_count: max_display_col_count, row_count: max_display_row_count };
    let ghost origin = editor_engine.current_box.style_adjusted_origin_pos;
    let ghost before = ops_view(render_ops@);
    let origin_pos = editor_engine.current_box.style_adjusted_origin_pos;
    let scroll_row = editor_buffer.scroll_offset.row_index;
    let scroll_col = editor_buffer.scroll_offset.col_index;
    let marker = "#".to_owned();
    proof {
        reveal_strlit("#");
        assert(marker@ =~= seq!['#']);
    }
    let total = editor_buffer.lines.len();
    let avail = if scroll_row < total {
        total - scroll_row
    } else {
        0
    };
    let count = if max_display_row_count < avail {
        max_display_row_count
    } else {
        avail
    };
    for j in 0..count
        invariant
            editor_buffer.wf(),
            doc == editor_buffer.doc(),
            scroll == editor_buffer.scroll_offset,
            origin == editor_engine.current_box.style_adjusted_origin_pos,
            origin_pos == origin,
            scroll_row == scroll.row_index,
            scroll_col == scroll.col_index,
            total == doc.len(),
            marker@ == seq!['#'],
            size == (Size { col_count: max_display_col_count, row_count: max_display_row_count }),
            count <= size.row_count,
            count > 0 ==> scroll.row_index < doc.len() && count <= doc.len() - scroll.row_index,
            count == size.row_count || (scroll.row_index < doc.len() && scroll.row_index + count
                == doc.len()) || (scroll.row_index >= doc.len() && count == 0),
            ops_view(render_ops@).len() >= before.len(),
            before == ops_view(render_ops@).take(before.len() as int),
            override_ops(doc, scroll, size, origin, 0) == ops_view(render_ops@).skip(
                before.len() as int,
            ) + override_ops(doc, scroll, size, origin, j as int),
    {
        let row = scroll_row + j;
        let ghost l = doc[row as int];
        proof {
            assert(line_width(l) <= usize::MAX);
            assert(editor_buffer.lines@[row as int]@ == l);
        }
        let line = &editor_buffer.lines[row];
        let is_heading = line.segs.len() > 0 && line.segs[0].text == marker;
        proof {
            assert(line.segs@.len() > 0 ==> line@[0] == line.segs@[0]@);
            assert(is_heading == is_heading_row(l));
        }
        if is_heading {
            let ghost mid = ops_view(render_ops@);
            let style = heading_style();
            let text = line.clip_to_width(scroll_col, max_display_col_count);
            render_ops.push(
                RenderOp::MoveCursorPositionRelTo(
                    origin_pos,
                    Position { col_index: 0, row_index: j },
                ),
            );
            render_ops.push(RenderOp::ApplyColors(Some(style)));
            render_ops.push(RenderOp::PaintTextWithAttributes(text, Some(style)));
            render_ops.push(RenderOp::ResetColor);
            proof {
                assert(ops_view(render_ops@) =~= mid + seq![
                    OpView::MoveCursor(origin, (Position { col_index: 0, row_index: j as usize })),
                    OpView::ApplyColors(Some(spec_heading_style())),
                    OpView::PaintText(
                        segs_text(
                            clip_cols_spec(
                                l,
                                scroll.col_index as int,
                                win_end(scroll.col_index as int, size.col_count as int),
                            ),
                        ),
                        Some(spec_heading_style()),
                    ),
                    OpView::ResetColor,
                ]);
                assert(override_ops(doc, scroll, size, origin, 0) =~= ops_view(render_ops@).skip(
                    before.len() as int,
                ) + override_ops(doc, scroll, size, origin, j + 1));
                assert(before =~= ops_view(render_ops@).take(before.len() as int));
            }
        } else {
            proof {
                assert(override_ops(doc, scroll, size, origin, j as int) == override_ops(
                    doc,
                    scroll,
                    size,
                    origin,
                    j + 1,
                ));
            }
        }
    }
    proof {
        assert(override_ops(doc, scroll, size, origin, count as int) =~= Seq::<OpView>::empty());
        assert(ops_view(render_ops@) =~= before + override_ops(doc, scroll, size, origin, 0));
    }
}

} // verus!
