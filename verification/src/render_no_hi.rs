//! The no-highlight content strategy: each visible line is clipped to the
//! viewport's column window with display-column math and painted as plain
//! text. Also the fallback the other strategies use for a line the
//! external highlighter cannot style.

use vstd::prelude::*;
use crate::seg::{SegView, segs_text};
use crate::line::{Line, clip_cols_spec};
use crate::col_math::{segs_view, line_width};
use crate::render_op::{RenderOp, OpView, ops_view, TuiStyle, op_row_bounded, ops_row_bounded};
use crate::units::{Position, Size};
use crate::engine::EditorEngine;
use crate::editor_buffer::EditorBuffer;

verus! {

/// The right edge of a column window of `width` columns starting at
/// `start`, cut at the largest representable column.
pub open spec fn win_end(start: int, width: int) -> int {
    if start + width <= usize::MAX {
        start + width
    } else {
        usize::MAX as int
    }
}

/// The operations that paint one line as plain text: colors on, the
/// clipped text, colors off. The caller positions the cursor first.
pub open spec fn plain_line_ops(
    l: Seq<SegView>,
    scroll_col: int,
    max_cols: int,
    style: Option<TuiStyle>,
) -> Seq<OpView> {
    seq![
        OpView::ApplyColors(style),
        OpView::PaintText(
            segs_text(clip_cols_spec(l, scroll_col, win_end(scroll_col, max_cols))),
            style,
        ),
        OpView::ResetColor,
    ]
}

/// The operations that paint the visible rows as plain text, from visible
/// row `j` on: a cursor move to the start of each row, then that row's
/// plain ops. Iteration stops at the viewport's bottom edge or the
/// document's end, whichever comes first.
pub open spec fn plain_content_ops(
    doc: Seq<Seq<SegView>>,
    scroll: Position,
    size: Size,
    style: Option<TuiStyle>,
    origin: Position,
    j: int,
) -> Seq<OpView>
    decreases size.row_count - j,
{
    if j < 0 || j >= size.row_count || scroll.row_index + j >= doc.len() {
        Seq::empty()
    } else {
        seq![
            OpView::MoveCursor(origin, (Position { col_index: 0, row_index: j as usize })),
        ] + plain_line_ops(doc[scroll.row_index + j], scroll.col_index as int, size.col_count as int, style)
            + plain_content_ops(doc, scroll, size, style, origin, j + 1)
    }
}

/// A single line's plain ops never move the cursor.
pub proof fn lemma_plain_line_ops_no_move(
    l: Seq<SegView>,
    scroll_col: int,
    max_cols: int,
    style: Option<TuiStyle>,
)
    ensures
        forall|i: int|
            0 <= i < plain_line_ops(l, scroll_col, max_cols, style).len() ==> !((
            #[trigger] plain_line_ops(l, scroll_col, max_cols, style)[i]) is MoveCursor),
{
    let ops = plain_line_ops(l, scroll_col, max_cols, style);
    assert(ops.len() == 3);
    assert(!(ops[0] is MoveCursor));
    assert(!(ops[1] is MoveCursor));
    assert(!(ops[2] is MoveCursor));
}

/// Every plain-content operation stays inside the viewport's rows.
pub proof fn lemma_plain_content_row_bounded(
    doc: Seq<Seq<SegView>>,
    scroll: Position,
    size: Size,
    style: Option<TuiStyle>,
    origin: Position,
    j: int,
)
    ensures
        ops_row_bounded(plain_content_ops(doc, scroll, size, style, origin, j), size.row_count as int),
    decreases size.row_count - j,
{
    if !(j < 0 || j >= size.row_count || scroll.row_index + j >= doc.len()) {
        lemma_plain_content_row_bounded(doc, scroll, size, style, origin, j + 1);
    }
}

/// Paints one line as plain text into `render_ops`: colors, the line
/// clipped to the viewport's column window, reset.
pub fn render_line_no_syntax_highlight(
    line: &Line,
    scroll_col: usize,
    max_display_col_count: usize,
    style: Option<TuiStyle>,
    render_ops: &mut Vec<RenderOp>,
)
    requires
        line.wf(),
    ensures
        ops_view(final(render_ops)@) == ops_view(old(render_ops)@) + plain_line_ops(
            line@,
            scroll_col as int,
            max_display_col_count as int,
            style,
        ),
{
    let ghost before = ops_view(render_ops@);
    let text = line.clip_to_width(scroll_col, max_display_col_count);
    render_ops.push(RenderOp::ApplyColors(style));
    render_ops.push(RenderOp::PaintTextWithAttributes(text, style));
    render_ops.push(RenderOp::ResetColor);
    proof {
        assert(ops_view(final(render_ops)@) =~= before + plain_line_ops(
            line@,
            scroll_col as int,
            max_display_col_count as int,
            style,
        ));
    }
}

/// Paints every visible row of the buffer as plain text, stopping at the
/// viewport's bottom edge.
pub fn render_content(
    editor_buffer: &EditorBuffer,
    max_display_row_count: usize,
    render_ops: &mut Vec<RenderOp>,
    editor_engine: &EditorEngine,
    max_display_col_count: usize,
)
    requires
        editor_buffer.wf(),
    ensures
        ops_view(final(render_ops)@) == ops_view(old(render_ops)@) + plain_content_ops(
            editor_buffer.doc(),
            editor_buffer.scroll_offset,
            (Size { col_count: max_display_col_count, row_count: max_display_row_count }),
            editor_engine.current_box.maybe_computed_style,
            editor_engine.current_box.style_adjusted_origin_pos,
            0,
        ),
{
    let ghost doc = editor_buffer.doc();
    let ghost scroll = editor_buffer.scroll_offset;
    let ghost size = Size { col_count: max_display_col_count, row_count: max_display_row_count };
    let ghost style = editor_engine.current_box.maybe_computed_style;
    let ghost origin = editor_engine.current_box.style_adjusted_origin_pos;
    let ghost before = ops_view(render_ops@);
    let origin_pos = editor_engine.current_box.style_adjusted_origin_pos;
    let style_now = editor_engine.current_box.maybe_computed_style;
    let scroll_row = editor_buffer.scroll_offset.row_index;
    let scroll_col = editor_buffer.scroll_offset.col_index;
    let total = editor_buffer.lines.len();
    let avail = if scroll_row < total {
        total - scroll_row
    } else {
        0
    };
    let count = if max_display_row_count < avail {
        max_display_row_count
    } else {
        avail
    };
    for j in 0..count
        invariant
            editor_buffer.wf(),
            doc == editor_buffer.doc(),
            scroll == editor_buffer.scroll_offset,
            style == editor_engine.current_box.maybe_computed_style,
            origin == editor_engine.current_box.style_adjusted_origin_pos,
            origin_pos == origin,
            style_now == style,
            scroll_row == scroll.row_index,
            scroll_col == scroll.col_index,
            total == doc.len(),
            size == (Size { col_count: max_display_col_count, row_count: max_display_row_count }),
            count <= size.row_count,
            count > 0 ==> scroll.row_index < doc.len() && count <= doc.len() - scroll.row_index,
            count == size.row_count || (scroll.row_index < doc.len() && scroll.row_index + count
                == doc.len()) || (scroll.row_index >= doc.len() && count == 0),
            ops_view(render_ops@).len() >= before.len(),
            before == ops_view(render_ops@).take(before.len() as int),
            plain_content_ops(doc, scroll, size, style, origin, 0) == ops_view(render_ops@).skip(
                before.len() as int,
            ) + plain_content_ops(doc, scroll, size, style, origin, j as int),
    {
        let row = scroll_row + j;
        let ghost mid = ops_view(render_ops@);
        proof {
            assert(line_width(doc[row as int]) <= usize::MAX);
            assert(editor_buffer.lines@[row as int]@ == doc[row as int]);
        }
        render_ops.push(
            RenderOp::MoveCursorPositionRelTo(
                origin_pos,
                Position { col_index: 0, row_index: j },
            ),
        );
        render_line_no_syntax_highlight(
            &editor_buffer.lines[row],
            scroll_col,
            max_display_col_count,
            style_now,
            render_ops,
        );
        proof {
            assert(ops_view(render_ops@) =~= mid + seq![
                OpView::MoveCursor(origin, (Position { col_index: 0, row_index: j as usize })),
            ] + plain_line_ops(doc[scroll.row_index + j], scroll.col_index as int, size.col_count as int, style));
            assert(plain_content_ops(doc, scroll, size, style, origin, j as int) =~= seq![
                OpView::MoveCursor(origin, (Position { col_index: 0, row_index: j as usize })),
            ] + plain_line_ops(doc[scroll.row_index + j], scroll.col_index as int, size.col_count as int, style)
                + plain_content_ops(doc, scroll, size, style, origin, j + 1));
            assert(plain_content_ops(doc, scroll, size, style, origin, 0) =~= ops_view(
                render_ops@,
            ).skip(before.len() as int) + plain_content_ops(doc, scroll, size, style, origin, j + 1));
            assert(before =~= ops_view(render_ops@).take(before.len() as int));
        }
    }
    proof {
        assert(plain_content_ops(doc, scroll, size, style, origin, count as int)
            =~= Seq::<OpView>::empty());
        assert(ops_view(render_ops@) =~= before + plain_content_ops(
            doc,
            scroll,
            size,
            style,
            origin,
            0,
        ));
    }
}

} // verus!
