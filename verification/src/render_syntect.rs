//! The external-grammar content strategy: each visible line goes to the
//! external highlighter with the buffer's file extension; the spans that
//! come back are clipped to the visible column window and painted with
//! their colors. A line the highlighter cannot style falls back to the
//! plain strategy. What the grammar engine hands back is its own affair,
//! but everything done with it is pinned down: the painting of any given
//! spans is a function of the spans alone ([`styled_spans_ops`]), each
//! visible row is one cursor move plus either the plain ops or the ops of
//! some spans, and when no highlighter can be consulted at all the output
//! equals the plain strategy's exactly.

use vstd::prelude::*;
use crate::seg::{Seg, SegView, segs_of_str, segs_to_string, segs_text, seg_views_of_chunks, grapheme_split};
use crate::highlight::{StyledSpan, SpanView, spans_view, find_syntax_by_extension, highlight_line_spans};
use crate::render_op::{
    RenderOp, OpView, ops_view, appended_ops_row_bounded, op_row_bounded, TuiStyle,
    lemma_appended_row_bounded_refl, lemma_appended_row_bounded_suffix,
    lemma_appended_row_bounded_trans,
};
use crate::units::{Position, Size};
use crate::engine::EditorEngine;
use crate::editor_buffer::EditorBuffer;
use crate::col_math::{line_width, segs_view};
use crate::render_no_hi::{
    render_line_no_syntax_highlight, plain_line_ops, plain_content_ops, win_end,
};

verus! {

/// Machine-word addition saturating at the largest representable column.
pub open spec fn sat_add(a: int, b: int) -> int {
    if a + b <= usize::MAX {
        a + b
    } else {
        usize::MAX as int
    }
}

/// The segments of one span's text, as the splitter measures them.
pub open spec fn span_segs(text: Seq<char>) -> Seq<SegView> {
    seg_views_of_chunks(grapheme_split(text))
}

/// The segments of a span visible in the window `[start, end)`, scanning
/// from segment `k` with the line's running column at `acc`: a segment is
/// kept when it lies wholly inside the window.
pub open spec fn visible_segs(segs: Seq<SegView>, k: int, acc: int, start: int, end: int) -> Seq<
    SegView,
>
    decreases segs.len() - k,
{
    if k < 0 || k >= segs.len() {
        Seq::empty()
    } else {
        let seg_end = sat_add(acc, segs[k].width as int);
        let rest = visible_segs(segs, k + 1, seg_end, start, end);
        if acc >= start && acc < end && seg_end <= end {
            seq![segs[k]] + rest
        } else {
            rest
        }
    }
}

/// The running column after a span's segments, from segment `k` on.
pub open spec fn acc_after(segs: Seq<SegView>, k: int, acc: int) -> int
    decreases segs.len() - k,
{
    if k < 0 || k >= segs.len() {
        acc
    } else {
        acc_after(segs, k + 1, sat_add(acc, segs[k].width as int))
    }
}

/// The operations that paint given spans clipped to the window
/// `[start, end)`, from span `i` on with the running column at `acc`: for
/// each span with a visible part, its colors and the visible text; a
/// final color reset. A function of the spans alone.
pub open spec fn styled_spans_ops(spans: Seq<SpanView>, i: int, acc: int, start: int, end: int) -> Seq<
    OpView,
>
    decreases spans.len() - i,
{
    if i < 0 || i >= spans.len() {
        seq![OpView::ResetColor]
    } else {
        let segs = span_segs(spans[i].text);
        let vis = visible_segs(segs, 0, acc, start, end);
        let rest = styled_spans_ops(spans, i + 1, acc_after(segs, 0, acc), start, end);
        if vis.len() > 0 {
            seq![
                OpView::ApplyColors(Some(spans[i].style)),
                OpView::PaintText(segs_text(vis), None),
            ] + rest
        } else {
            rest
        }
    }
}

/// Span painting never moves the cursor.
pub proof fn lemma_styled_spans_ops_no_move(
    spans: Seq<SpanView>,
    i: int,
    acc: int,
    start: int,
    end: int,
)
    ensures
        forall|x: int|
            0 <= x < styled_spans_ops(spans, i, acc, start, end).len() ==> !((
            #[trigger] styled_spans_ops(spans, i, acc, start, end)[x]) is MoveCursor),
    decreases spans.len() - i,
{
    if !(i < 0 || i >= spans.len()) {
        let segs = span_segs(spans[i].text);
        lemma_styled_spans_ops_no_move(spans, i + 1, acc_after(segs, 0, acc), start, end);
    }
}

/// What one visible row may paint after its cursor move: exactly the plain
/// ops, or exactly the ops of some spans — whatever the highlighter
/// returned for that row.
pub open spec fn row_ops_ok(
    row_ops: Seq<OpView>,
    l: Seq<SegView>,
    scroll_col: int,
    max_cols: int,
    style: Option<TuiStyle>,
) -> bool {
    ||| row_ops == plain_line_ops(l, scroll_col, max_cols, style)
    ||| exists|spans: Seq<SpanView>|
        row_ops == #[trigger] styled_spans_ops(
            spans,
            0,
            0,
            scroll_col,
            win_end(scroll_col, max_cols),
        )
}

/// The flattened ops of a row list: for each row in turn, a cursor move
/// to the start of visible row `j0` and then that row's ops.
pub open spec fn rows_flatten(rows: Seq<Seq<OpView>>, origin: Position, j0: int) -> Seq<OpView>
    decreases rows.len() - j0,
{
    if j0 < 0 || j0 >= rows.len() {
        Seq::empty()
    } else {
        seq![OpView::MoveCursor(origin, (Position { col_index: 0, row_index: j0 as usize }))]
            + rows[j0] + rows_flatten(rows, origin, j0 + 1)
    }
}

/// Appending a row extends the flattened ops at the end.
pub proof fn lemma_rows_flatten_push(rows: Seq<Seq<OpView>>, origin: Position, j0: int, b: Seq<OpView>)
    requires
        0 <= j0 <= rows.len(),
    ensures
        rows_flatten(rows.push(b), origin, j0) == rows_flatten(rows, origin, j0) + seq![
            OpView::MoveCursor(
                origin,
                (Position { col_index: 0, row_index: rows.len() as usize }),
            ),
        ] + b,
    decreases rows.len() - j0,
{
    let rows2 = rows.push(b);
    if j0 == rows.len() {
        assert(rows_flatten(rows, origin, j0) =~= Seq::<OpView>::empty());
        assert(rows2[j0] == b);
        assert(rows_flatten(rows2, origin, j0 + 1) =~= Seq::<OpView>::empty());
        assert(rows_flatten(rows2, origin, j0) =~= Seq::<OpView>::empty() + seq![
            OpView::MoveCursor(
                origin,
                (Position { col_index: 0, row_index: rows.len() as usize }),
            ),
        ] + b);
    } else {
        lemma_rows_flatten_push(rows, origin, j0 + 1, b);
        assert(rows2[j0] == rows[j0]);
        assert(rows_flatten(rows2, origin, j0) =~= rows_flatten(rows, origin, j0) + seq![
            OpView::MoveCursor(
                origin,
                (Position { col_index: 0, row_index: rows.len() as usize }),
            ),
        ] + b);
    }
}


/// Clips a highlighted line's spans to the display-column window of
/// `max_cols` columns starting at `scroll_col` and paints the visible
/// part of each span with its own style. The output is exactly
/// [`styled_spans_ops`] of the spans: fully determined by them.
fn render_styled_spans(
    spans: &Vec<StyledSpan>,
    scroll_col: usize,
    max_cols: usize,
    render_ops: &mut Vec<RenderOp>,
)
    ensures
        ops_view(final(render_ops)@) == ops_view(old(render_ops)@) + styled_spans_ops(
            spans_view(spans@),
            0,
            0,
            scroll_col as int,
            win_end(scroll_col as int, max_cols as int),
        ),
{
    let ghost before = ops_view(render_ops@);
    let ghost all = spans_view(spans@);
    let ghost s = scroll_col as int;
    let ghost e = win_end(scroll_col as int, max_cols as int);
    let end: usize = if max_cols <= usize::MAX - scroll_col {
        scroll_col + max_cols
    } else {
        usize::MAX
    };
    proof {
        assert(end == e);
    }
    let mut acc: usize = 0;
    let n = spans.len();
    for i in 0..n
        invariant
            n == spans.len(),
            all == spans_view(spans@),
            s == scroll_col as int,
            e == end as int,
            ops_view(render_ops@).len() >= before.len(),
            before == ops_view(render_ops@).take(before.len() as int),
            styled_spans_ops(all, 0, 0, s, e) == ops_view(render_ops@).skip(before.len() as int)
                + styled_spans_ops(all, i as int, acc as int, s, e),
    {
        let segs = segs_of_str(spans[i].text.as_str());
        let ghost segv = span_segs(all[i as int].text);
        let ghost acc0 = acc as int;
        proof {
            assert(all[i as int].text == spans@[i as int].text@);
            assert(segs_view(segs@) == segv);
        }
        let mut vis: Vec<Seg> = Vec::new();
        let m = segs.len();
        for k in 0..m
            invariant
                m == segs.len(),
                segs_view(segs@) == segv,
                s == scroll_col as int,
                e == end as int,
                visible_segs(segv, 0, acc0, s, e) == segs_view(vis@) + visible_segs(
                    segv,
                    k as int,
                    acc as int,
                    s,
                    e,
                ),
                acc_after(segv, 0, acc0) == acc_after(segv, k as int, acc as int),
        {
            let w = segs[k].width;
            let seg_end: usize = if w <= usize::MAX - acc {
                acc + w
            } else {
                usize::MAX
            };
            proof {
                assert(segv[k as int] == segs@[k as int]@);
                assert(seg_end as int == sat_add(acc as int, segv[k as int].width as int));
            }
            if acc >= scroll_col && acc < end && seg_end <= end {
                let ghost vis0 = segs_view(vis@);
                vis.push(segs[k].clone_seg());
                proof {
                    assert(segs_view(vis@) =~= vis0 + seq![segv[k as int]]);
                    assert(visible_segs(segv, 0, acc0, s, e) =~= segs_view(vis@) + visible_segs(
                        segv,
                        k + 1,
                        seg_end as int,
                        s,
                        e,
                    ));
                }
            }
            acc = seg_end;
        }
        proof {
            assert(visible_segs(segv, m as int, acc as int, s, e) =~= Seq::<SegView>::empty());
            assert(segs_view(vis@) =~= visible_segs(segv, 0, acc0, s, e));
            assert(acc as int == acc_after(segv, 0, acc0));
        }
        if vis.len() > 0 {
            let ghost mid = ops_view(render_ops@);
            let text = segs_to_string(&vis);
            render_ops.push(RenderOp::ApplyColors(Some(spans[i].style)));
            render_ops.push(RenderOp::PaintTextWithAttributes(text, None));
            proof {
                assert(text@ == segs_text(visible_segs(segv, 0, acc0, s, e)));
                assert(ops_view(render_ops@) =~= mid + seq![
                    OpView::ApplyColors(Some(all[i as int].style)),
                    OpView::PaintText(segs_text(visible_segs(segv, 0, acc0, s, e)), None),
                ]);
                assert(styled_spans_ops(all, i as int, acc0, s, e) =~= seq![
                    OpView::ApplyColors(Some(all[i as int].style)),
                    OpView::PaintText(segs_text(visible_segs(segv, 0, acc0, s, e)), None),
                ] + styled_spans_ops(all, i + 1, acc as int, s, e));
                assert(styled_spans_ops(all, 0, 0, s, e) =~= ops_view(render_ops@).skip(
                    before.len() as int,
                ) + styled_spans_ops(all, i + 1, acc as int, s, e));
                assert(before =~= ops_view(render_ops@).take(before.len() as int));
            }
        } else {
            proof {
                assert(styled_spans_ops(all, i as int, acc0, s, e) == styled_spans_ops(
                    all,
                    i + 1,
                    acc as int,
                    s,
                    e,
                ));
            }
        }
    }
    let ghost pre_reset = ops_view(render_ops@);
    render_ops.push(RenderOp::ResetColor);
    proof {
        assert(styled_spans_ops(all, n as int, acc as int, s, e) =~= seq![OpView::ResetColor]);
        assert(ops_view(render_ops@) =~= pre_reset + seq![OpView::ResetColor]);
        assert(ops_view(render_ops@) =~= before + styled_spans_ops(all, 0, 0, s, e));
    }
}

/// Paints every visible row with external-grammar highlighting, falling
/// back per line to the plain strategy when no grammar, theme or
/// highlighting result is available. Every operation stays inside the
/// viewport's rows; each visible row is one cursor move plus either the
/// plain ops or the exact painting of some spans; and with no file
/// extension or no theme the highlighter is never consulted, so the
/// output equals the plain strategy's exactly.
pub fn render_content(
    editor_buffer: &EditorBuffer,
    max_display_row_count: usize,
    render_ops: &mut Vec<RenderOp>,
    editor_engine: &EditorEngine,
    max_display_col_count: usize,
)
    requires
        editor_buffer.wf(),
    ensures
        appended_ops_row_bounded(
            ops_view(old(render_ops)@),
            ops_view(final(render_ops)@),
            max_display_row_count as int,
        ),
        (editor_buffer.maybe_file_extension is None || editor_engine.theme is None) ==> ops_view(
            final(render_ops)@,
        ) == ops_view(old(render_ops)@) + plain_content_ops(
            editor_buffer.doc(),
            editor_buffer.scroll_offset,
            (Size { col_count: max_display_col_count, row_count: max_display_row_count }),
            editor_engine.current_box.maybe_computed_style,
            editor_engine.current_box.style_adjusted_origin_pos,
            0,
        ),
        exists|rows: Seq<Seq<OpView>>|
            {
                let doc = editor_buffer.doc();
                let scroll = editor_buffer.scroll_offset;
                &&& ops_view(final(render_ops)@) == ops_view(old(render_ops)@) + #[trigger] rows_flatten(
                    rows,
                    editor_engine.current_box.style_adjusted_origin_pos,
                    0,
                )
                &&& rows.len() == (if scroll.row_index >= doc.len() {
                    0int
                } else if max_display_row_count < doc.len() - scroll.row_index {
                    max_display_row_count as int
                } else {
                    doc.len() - scroll.row_index
                })
                &&& forall|j: int|
                    0 <= j < rows.len() ==> row_ops_ok(
                        #[trigger] rows[j],
                        doc[scroll.row_index + j],
                        scroll.col_index as int,
                        max_display_col_count as int,
                        editor_engine.current_box.maybe_computed_style,
                    )
            },
{
    let ghost before = ops_view(render_ops@);
    proof {
        lemma_appended_row_bounded_refl(before, max_display_row_count as int);
    }
    let ghost doc = editor_buffer.doc();
    let ghost scroll = editor_buffer.scroll_offset;
    let ghost size = Size { col_count: max_display_col_count, row_count: max_display_row_count };
    let ghost style = editor_engine.current_box.maybe_computed_style;
    let ghost origin = editor_engine.current_box.style_adjusted_origin_pos;
    let ghost fallback = editor_buffer.maybe_file_extension is None || editor_engine.theme is None;
    let ghost mut rows: Seq<Seq<OpView>> = Seq::empty();
    let origin_pos = editor_engine.current_box.style_adjusted_origin_pos;
    let style_now = editor_engine.current_box.maybe_computed_style;
    let scroll_row = editor_buffer.scroll_offset.row_index;
    let scroll_col = editor_buffer.scroll_offset.col_index;
    let total = editor_buffer.lines.len();
    let avail = if scroll_row < total {
        total - scroll_row
    } else {
        0
    };
    let count = if max_display_row_count < avail {
        max_display_row_count
    } else {
        avail
    };
    proof {
        assert(ops_view(render_ops@).skip(before.len() as int) =~= Seq::<OpView>::empty());
        assert(rows_flatten(rows, origin, 0) =~= Seq::<OpView>::empty());
        assert(plain_content_ops(doc, scroll, size, style, origin, 0) =~= Seq::<OpView>::empty()
            + plain_content_ops(doc, scroll, size, style, origin, 0));
    }
    for j in 0..count
        invariant
            editor_buffer.wf(),
            doc == editor_buffer.doc(),
            scroll == editor_buffer.scroll_offset,
            style == editor_engine.current_box.maybe_computed_style,
            origin == editor_engine.current_box.style_adjusted_origin_pos,
            origin_pos == origin,
            style_now == style,
            total == doc.len(),
            scroll_row == scroll.row_index,
            scroll_col == scroll.col_index,
            size == (Size { col_count: max_display_col_count, row_count: max_display_row_count }),
            fallback == (editor_buffer.maybe_file_extension is None || editor_engine.theme
                is None),
            count <= size.row_count,
            count > 0 ==> scroll_row < total && count <= total - scroll_row,
            count == size.row_count || (scroll.row_index < doc.len() && scroll.row_index + count
                == doc.len()) || (scroll.row_index >= doc.len() && count == 0),
            count == (if scroll.row_index >= doc.len() {
                0int
            } else if size.row_count < doc.len() - scroll.row_index {
                size.row_count as int
            } else {
                doc.len() - scroll.row_index
            }),
            appended_ops_row_bounded(before, ops_view(render_ops@), max_display_row_count as int),
            rows.len() == j,
            ops_view(render_ops@).skip(before.len() as int) == rows_flatten(rows, origin, 0),
            forall|jj: int|
                0 <= jj < rows.len() ==> row_ops_ok(
                    #[trigger] rows[jj],
                    doc[scroll.row_index + jj],
                    scroll.col_index as int,
                    max_display_col_count as int,
                    style,
                ),
            fallback ==> plain_content_ops(doc, scroll, size, style, origin, 0) == ops_view(
                render_ops@,
            ).skip(before.len() as int) + plain_content_ops(doc, scroll, size, style, origin, j as int),
    {
        let row = scroll_row + j;
        proof {
            assert(line_width(doc[row as int]) <= usize::MAX);
            assert(editor_buffer.lines@[row as int]@ == doc[row as int]);
        }
        let ghost pre_move = ops_view(render_ops@);
        render_ops.push(
            RenderOp::MoveCursorPositionRelTo(
                origin_pos,
                Position { col_index: 0, row_index: j },
            ),
        );
        proof {
            let full = seq![
                OpView::MoveCursor(origin_pos, (Position { col_index: 0, row_index: j as usize })),
            ];
            assert(ops_view(render_ops@) =~= pre_move + full);
            assert(op_row_bounded(full[0], max_display_row_count as int));
            lemma_appended_row_bounded_suffix(pre_move, full, max_display_row_count as int);
            lemma_appended_row_bounded_trans(
                before,
                pre_move,
                ops_view(render_ops@),
                max_display_row_count as int,
            );
        }
        let ghost mid = ops_view(render_ops@);
        let mut styled: Option<Vec<StyledSpan>> = None;
        match &editor_engine.theme {
            Some(theme) => {
                match editor_buffer.get_maybe_file_extension() {
                    Some(ext) => {
                        match find_syntax_by_extension(&editor_engine.syntax_set, ext.as_str()) {
                            Some(syntax) => {
                                let text = editor_buffer.lines[row].as_string();
                                styled = highlight_line_spans(
                                    syntax,
                                    &editor_engine.syntax_set,
                                    theme,
                                    text.as_str(),
                                );
                            },
                            None => {},
                        }
                    },
                    None => {},
                }
            },
            None => {},
        }
        let ghost row_ops: Seq<OpView> = if styled is Some {
            styled_spans_ops(
                spans_view(styled->Some_0@),
                0,
                0,
                scroll_col as int,
                win_end(scroll_col as int, max_display_col_count as int),
            )
        } else {
            plain_line_ops(
                doc[row as int],
                scroll_col as int,
                max_display_col_count as int,
                style,
            )
        };
        match styled {
            Some(spans) => {
                proof {
                    assert(!fallback);
                }
                render_styled_spans(&spans, scroll_col, max_display_col_count, render_ops);
                proof {
                    assert(row_ops == styled_spans_ops(
                        spans_view(spans@),
                        0,
                        0,
                        scroll_col as int,
                        win_end(scroll_col as int, max_display_col_count as int),
                    ));
                    lemma_styled_spans_ops_no_move(
                        spans_view(spans@),
                        0,
                        0,
                        scroll_col as int,
                        win_end(scroll_col as int, max_display_col_count as int),
                    );
                    assert(row_ops_ok(
                        row_ops,
                        doc[row as int],
                        scroll.col_index as int,
                        max_display_col_count as int,
                        style,
                    ));
                }
            },
            None => {
                render_line_no_syntax_highlight(
                    &editor_buffer.lines[row],
                    scroll_col,
                    max_display_col_count,
                    style_now,
                    render_ops,
                );
                proof {
                    assert(row_ops == plain_line_ops(
                        doc[row as int],
                        scroll_col as int,
                        max_display_col_count as int,
                        style,
                    ));
                    crate::render_no_hi::lemma_plain_line_ops_no_move(
                        doc[row as int],
                        scroll_col as int,
                        max_display_col_count as int,
                        style,
                    );
                    assert(row_ops_ok(
                        row_ops,
                        doc[row as int],
                        scroll.col_index as int,
                        max_display_col_count as int,
                        style,
                    ));
                }
            },
        }
        proof {
            // The row's ops never move the cursor, so the whole append
            // stays row-bounded.
            assert(ops_view(render_ops@) =~= mid + row_ops);
            assert forall|x: int| 0 <= x < row_ops.len() implies op_row_bounded(
                #[trigger] row_ops[x],
                max_display_row_count as int,
            ) by {
                assert(!(row_ops[x] is MoveCursor));
            }
            lemma_appended_row_bounded_suffix(mid, row_ops, max_display_row_count as int);
            lemma_appended_row_bounded_trans(
                before,
                mid,
                ops_view(render_ops@),
                max_display_row_count as int,
            );
            // Record this row in the decomposition.
            lemma_rows_flatten_push(rows, origin, 0, row_ops);
            rows = rows.push(row_ops);
            assert(ops_view(render_ops@).skip(before.len() as int) =~= rows_flatten(
                rows,
                origin,
                0,
            ));
            // In the fallback case the highlighter was never consulted and
            // this row is exactly the plain row.
            if fallback {
                assert(row_ops == plain_line_ops(
                    doc[row as int],
                    scroll_col as int,
                    max_display_col_count as int,
                    style,
                ));
                assert(plain_content_ops(doc, scroll, size, style, origin, j as int) =~= seq![
                    OpView::MoveCursor(origin, (Position { col_index: 0, row_index: j as usize })),
                ] + row_ops + plain_content_ops(doc, scroll, size, style, origin, j + 1));
                assert(plain_content_ops(doc, scroll, size, style, origin, 0) =~= ops_view(
                    render_ops@,
                ).skip(before.len() as int) + plain_content_ops(doc, scroll, size, style, origin, j + 1));
            }
        }
    }
    proof {
        assert(ops_view(render_ops@) =~= before + rows_flatten(rows, origin, 0));
        if fallback {
            assert(plain_content_ops(doc, scroll, size, style, origin, count as int)
                =~= Seq::<OpView>::empty());
            assert(ops_view(render_ops@) =~= before + plain_content_ops(
                doc,
                scroll,
                size,
                style,
                origin,
                0,
            ));
        }
    }
}

} // verus!
