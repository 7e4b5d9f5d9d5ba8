//! The engine's public surface: applying one input event to a buffer, and
//! rendering a buffer into an ordered list of paint operations — content,
//! then selection overlay, then caret overlay, so the overlays draw on
//! top. No paint operation ever references a row outside the viewport.

use vstd::prelude::*;
use crate::seg::SegView;
use crate::line::{clip_cols_spec, lemma_clip_empty_window};
use crate::col_math::{line_width, locate_index, locate_col};
use crate::units::{Position, Size, SelectionRange, ScrollOffsetColLocationInRange};
use crate::seg::segs_text;
use crate::render_op::{
    RenderOp, OpView, ops_view, ops_row_bounded, op_row_bounded, entries_ops, RenderPipeline,
    ZOrder, TuiStyle, TuiColor, AnsiBasicColor, lemma_appended_row_bounded_suffix,
    lemma_appended_row_bounded_trans,
};
use crate::engine::{EditorEngine, EditorFlexBox, HasFocus, EditMode, SyntaxHighlightMode};
use crate::editor_buffer::{
    EditorBuffer, EditorBufferCommand, spec_command_of_input_event, spec_apply_command,
    spec_apply_commands, scrolled_axis,
};
use crate::history::{
    SnapView, views_after_commands, spec_undo_n, spec_redo_n, lemma_commands_undo_redo_round_trip,
};
use crate::input_event::InputEvent;
use crate::render_no_hi::{plain_content_ops, lemma_plain_content_row_bounded};
use crate::render_internal_hi::{override_ops, lemma_override_ops_row_bounded};
use crate::render_syntect::{rows_flatten, row_ops_ok};

verus! {

/// Whether an input event was translated into a command and applied.
#[derive(Clone, Copy, PartialEq, Eq, Structural, Debug)]
pub enum EditorEngineApplyEventResult {
    Applied,
    NotApplied,
}

/// Commands that change content push a history snapshot; pure caret
/// movement does not.
pub open spec fn is_content_command(command: EditorBufferCommand) -> bool {
    !(command is MoveCaret)
}

pub struct EditorEngineApi;

impl EditorEngineApi {
    /// Translates an input event into a command and applies it. In
    /// read-only mode only caret movement is accepted. The first
    /// content-changing command on a fresh history first snapshots the
    /// pre-edit state, so the very first edit is undoable; every
    /// content-changing command then pushes the post-edit state, and pure
    /// caret movement never touches the history. Afterwards the scroll
    /// offset is adjusted by the minimum amount that keeps the caret in
    /// the viewport.
    pub fn apply_event(
        editor_buffer: &mut EditorBuffer,
        editor_engine: &EditorEngine,
        input_event: InputEvent,
    ) -> (r: EditorEngineApplyEventResult)
        requires
            old(editor_buffer).wf(),
        ensures
            final(editor_buffer).wf(),
            ({
                let blocked = editor_engine.config_options.edit_mode == EditMode::ReadOnly
                    && !input_event.spec_is_navigation();
                let cmd_opt = spec_command_of_input_event(input_event);
                &&& (r == EditorEngineApplyEventResult::NotApplied <==> (blocked || cmd_opt
                    is None))
                &&& (blocked || cmd_opt is None) ==> *final(editor_buffer) == *old(editor_buffer)
                &&& (!blocked && cmd_opt is Some) ==> {
                    let command = cmd_opt->Some_0;
                    let pre_snap = SnapView {
                        doc: old(editor_buffer).doc(),
                        caret: old(editor_buffer).caret,
                        sel: old(editor_buffer).selection_map@,
                    };
                    let views0 = old(editor_buffer).history.views();
                    let views1 = if views0.len() == 0 {
                        seq![pre_snap]
                    } else {
                        views0
                    };
                    let cursor1: int = if views0.len() == 0 {
                        0
                    } else {
                        old(editor_buffer).history.cursor as int
                    };
                    let stepped = spec_apply_command(
                        old(editor_buffer).doc(),
                        old(editor_buffer).caret,
                        command,
                    );
                    &&& (final(editor_buffer).doc(), final(editor_buffer).caret) == stepped
                    &&& final(editor_buffer).selection_map == old(editor_buffer).selection_map
                    &&& final(editor_buffer).maybe_file_extension == old(
                        editor_buffer
                    ).maybe_file_extension
                    &&& (if is_content_command(command) {
                        final(editor_buffer).history.views() =~= views1.take(cursor1 + 1).push(
                            (SnapView {
                                doc: stepped.0,
                                caret: stepped.1,
                                sel: old(editor_buffer).selection_map@,
                            }),
                        ) && final(editor_buffer).history.cursor == final(editor_buffer).history.views().len() - 1
                    } else {
                        final(editor_buffer).history == old(editor_buffer).history
                    })
                    &&& final(editor_buffer).scroll_offset.col_index == scrolled_axis(
                        old(editor_buffer).scroll_offset.col_index,
                        stepped.1.col_index,
                        editor_engine.current_box.style_adjusted_bounds_size.col_count,
                    )
                    &&& final(editor_buffer).scroll_offset.row_index == scrolled_axis(
                        old(editor_buffer).scroll_offset.row_index,
                        stepped.1.row_index,
                        editor_engine.current_box.style_adjusted_bounds_size.row_count,
                    )
                }
            }),
    {
        let read_only = matches!(editor_engine.config_options.edit_mode, EditMode::ReadOnly);
        if read_only && !input_event.is_navigation() {
            return EditorEngineApplyEventResult::NotApplied;
        }
        match EditorBufferCommand::try_convert_input_event(&input_event) {
            Some(command) => {
                let content = !matches!(command, EditorBufferCommand::MoveCaret(_));
                if content && editor_buffer.history.is_empty() {
                    editor_buffer.push_history_snapshot();
                }
                editor_buffer.apply_command(command);
                if content {
                    editor_buffer.push_history_snapshot();
                }
                editor_buffer.adjust_scroll(editor_engine.viewport());
                EditorEngineApplyEventResult::Applied
            },
            None => EditorEngineApplyEventResult::NotApplied,
        }
    }
}

/// The style the empty-state placeholder message is painted with.
pub open spec fn spec_empty_state_style() -> TuiStyle {
    TuiStyle { color_fg: Some(TuiColor::Basic(AnsiBasicColor::Red)), color_bg: None, reverse: false }
}

/// The style the selection overlay is painted with.
pub open spec fn spec_selection_style() -> TuiStyle {
    TuiStyle { color_fg: None, color_bg: Some(TuiColor::Basic(AnsiBasicColor::Blue)), reverse: false }
}

/// The style the caret is painted with: reverse video over the cluster.
pub open spec fn spec_caret_style() -> TuiStyle {
    TuiStyle { color_fg: None, color_bg: None, reverse: true }
}

pub fn get_selection_style() -> (r: TuiStyle)
    ensures
        r == spec_selection_style(),
{
    TuiStyle { color_fg: None, color_bg: Some(TuiColor::Basic(AnsiBasicColor::Blue)), reverse: false }
}

/// The operations the empty-buffer path paints: the placeholder message,
/// and — only with focus — a marker glyph one row below, clamped to the
/// viewport. A zero-row viewport paints nothing.
pub open spec fn empty_state_ops(origin: Position, size: Size, focused: bool) -> Seq<OpView> {
    if size.row_count == 0 {
        Seq::empty()
    } else {
        let base = seq![
            OpView::MoveCursor(origin, (Position { col_index: 0, row_index: 0 })),
            OpView::ApplyColors(Some(spec_empty_state_style())),
            OpView::PaintText("No content added"@, None),
            OpView::ResetColor,
        ];
        if focused {
            base + seq![
                OpView::MoveCursor(
                    origin,
                    (Position {
                        col_index: 0,
                        row_index: if 1 < size.row_count {
                            1
                        } else {
                            (size.row_count - 1) as usize
                        },
                    }),
                ),
                OpView::PaintText("\u{1F440}"@, None),
                OpView::ResetColor,
            ]
        } else {
            base
        }
    }
}

/// The cluster the caret stands on, or the placeholder glyph past end of
/// line.
pub open spec fn caret_cluster_text(l: Seq<SegView>, col: int) -> Seq<char> {
    let k = locate_index(l, col);
    if k < l.len() {
        l[k].text
    } else {
        "\u{2588}"@
    }
}

/// The caret overlay: with focus, and with the caret inside the viewport,
/// the cluster at the caret painted in reverse video at viewport-relative
/// coordinates; nothing otherwise.
pub open spec fn caret_ops_spec(
    doc: Seq<Seq<SegView>>,
    caret: Position,
    scroll: Position,
    size: Size,
    origin: Position,
    focused: bool,
) -> Seq<OpView> {
    if !focused || doc.len() == 0 || caret.row_index < scroll.row_index || caret.row_index
        - scroll.row_index >= size.row_count || caret.col_index < scroll.col_index
        || caret.col_index - scroll.col_index >= size.col_count || caret.row_index >= doc.len() {
        Seq::empty()
    } else {
        let rel = Position {
            col_index: (caret.col_index - scroll.col_index) as usize,
            row_index: (caret.row_index - scroll.row_index) as usize,
        };
        seq![
            OpView::MoveCursor(origin, rel),
            OpView::PaintText(
                caret_cluster_text(doc[caret.row_index as int], caret.col_index as int),
                Some(spec_caret_style()),
            ),
            OpView::MoveCursor(origin, rel),
            OpView::ResetColor,
        ]
    }
}

/// The part of a row's selection at or right of the horizontal scroll
/// offset, as text.
pub open spec fn visible_selection_text(
    l: Seq<SegView>,
    range: SelectionRange,
    scroll_col: int,
) -> Seq<char> {
    let clip_start = if range.start_display_col_index >= scroll_col {
        range.start_display_col_index as int
    } else {
        scroll_col
    };
    segs_text(clip_cols_spec(l, clip_start, range.end_display_col_index as int))
}

/// The selection overlay from entry `i` on: for each selected row that
/// exists and is inside the viewport's rows, whose visible slice is
/// non-empty, a cursor move to the slice's viewport-relative position and
/// the slice painted in the selection style.
pub open spec fn selection_ops_spec(
    doc: Seq<Seq<SegView>>,
    entries: Seq<(usize, SelectionRange)>,
    scroll: Position,
    size: Size,
    origin: Position,
    i: int,
) -> Seq<OpView>
    decreases entries.len() - i,
{
    if i < 0 || i >= entries.len() {
        Seq::empty()
    } else {
        let row = entries[i].0;
        let range = entries[i].1;
        let rest = selection_ops_spec(doc, entries, scroll, size, origin, i + 1);
        if row < doc.len() && scroll.row_index <= row && row - scroll.row_index < size.row_count {
            let text = visible_selection_text(doc[row as int], range, scroll.col_index as int);
            let clip_start = if range.start_display_col_index >= scroll.col_index {
                range.start_display_col_index as int
            } else {
                scroll.col_index as int
            };
            if text.len() == 0 {
                rest
            } else {
                seq![
                    OpView::MoveCursor(
                        origin,
                        (Position {
                            col_index: (clip_start - scroll.col_index) as usize,
                            row_index: (row - scroll.row_index) as usize,
                        }),
                    ),
                    OpView::ApplyColors(Some(spec_selection_style())),
                    OpView::PaintText(text, None),
                    OpView::ResetColor,
                ] + rest
            }
        } else {
            rest
        }
    }
}

/// Every selection-overlay operation stays inside the viewport's rows.
pub proof fn lemma_selection_ops_row_bounded(
    doc: Seq<Seq<SegView>>,
    entries: Seq<(usize, SelectionRange)>,
    scroll: Position,
    size: Size,
    origin: Position,
    i: int,
)
    ensures
        ops_row_bounded(selection_ops_spec(doc, entries, scroll, size, origin, i), size.row_count as int),
    decreases entries.len() - i,
{
    if !(i < 0 || i >= entries.len()) {
        lemma_selection_ops_row_bounded(doc, entries, scroll, size, origin, i + 1);
    }
}

impl EditorEngineApi {
    /// Paints the empty-buffer state: the placeholder message and, with
    /// focus, the marker glyph one row below.
    pub fn render_empty_state(
        editor_engine: &EditorEngine,
        has_focus: &HasFocus,
    ) -> (r: RenderPipeline)
        ensures
            ({
                let origin = editor_engine.current_box.style_adjusted_origin_pos;
                let size = editor_engine.current_box.style_adjusted_bounds_size;
                let focused = has_focus.maybe_id == Some(editor_engine.current_box.id);
                &&& entries_ops(r.entries@) == empty_state_ops(origin, size, focused)
                &&& r.row_bounded(size.row_count as int)
                &&& forall|i: int|
                    0 <= i < r.entries@.len() ==> (#[trigger] r.entries@[i]).0 == ZOrder::Normal
            }),
    {
        let origin = editor_engine.current_box.style_adjusted_origin_pos;
        let size = editor_engine.current_box.style_adjusted_bounds_size;
        let focused = has_focus.does_id_have_focus(editor_engine.current_box.id);
        let mut pipeline = RenderPipeline::new();
        if size.row_count == 0 {
            proof {
                assert(entries_ops(pipeline.entries@) =~= Seq::<OpView>::empty());
            }
            return pipeline;
        }
        let mut ops: Vec<RenderOp> = Vec::new();
        ops.push(RenderOp::MoveCursorPositionRelTo(origin, Position { col_index: 0, row_index: 0 }));
        ops.push(
            RenderOp::ApplyColors(
                Some(
                    TuiStyle {
                        color_fg: Some(TuiColor::Basic(AnsiBasicColor::Red)),
                        color_bg: None,
                        reverse: false,
                    },
                ),
            ),
        );
        ops.push(RenderOp::PaintTextWithAttributes("No content added".to_owned(), None));
        ops.push(RenderOp::ResetColor);
        if focused {
            let marker_pos = Position { col_index: 0, row_index: 0 }.add_row_with_bounds(
                1,
                size.row_count,
            );
            ops.push(RenderOp::MoveCursorPositionRelTo(origin, marker_pos));
            ops.push(RenderOp::PaintTextWithAttributes("\u{1F440}".to_owned(), None));
            ops.push(RenderOp::ResetColor);
        }
        let ghost ops_v = ops_view(ops@);
        pipeline.push(ZOrder::Normal, ops);
        proof {
            assert(pipeline.entries@.drop_last() =~= Seq::<(ZOrder, Vec<RenderOp>)>::empty());
            assert(entries_ops(pipeline.entries@.drop_last()) =~= Seq::<OpView>::empty());
            assert(pipeline.entries@.last().1@.map_values(|op: RenderOp| op@) == ops_v);
            assert(entries_ops(pipeline.entries@) =~= ops_v);
            assert(ops_v =~= empty_state_ops(
                origin,
                size,
                has_focus.maybe_id == Some(editor_engine.current_box.id),
            ));
            assert(ops_row_bounded(ops_v, size.row_count as int));
        }
        pipeline
    }

    /// Paints the selection overlay: for each selected row visible in the
    /// viewport, the visible slice of its selection, translated to
    /// viewport-relative coordinates.
    pub fn render_selection(
        editor_buffer: &EditorBuffer,
        editor_engine: &EditorEngine,
        render_ops: &mut Vec<RenderOp>,
    )
        requires
            editor_buffer.wf(),
        ensures
            ops_view(final(render_ops)@) == ops_view(old(render_ops)@) + selection_ops_spec(
                editor_buffer.doc(),
                editor_buffer.selection_map.entries@,
                editor_buffer.scroll_offset,
                editor_engine.current_box.style_adjusted_bounds_size,
                editor_engine.current_box.style_adjusted_origin_pos,
                0,
            ),
    {
        let ghost doc = editor_buffer.doc();
        let ghost entries = editor_buffer.selection_map.entries@;
        let ghost scroll = editor_buffer.scroll_offset;
        let ghost size = editor_engine.current_box.style_adjusted_bounds_size;
        let ghost origin = editor_engine.current_box.style_adjusted_origin_pos;
        let ghost before = ops_view(render_ops@);
        let origin_pos = editor_engine.current_box.style_adjusted_origin_pos;
        let size_now = editor_engine.current_box.style_adjusted_bounds_size;
        let scroll_pos = editor_buffer.scroll_offset;
        let n = editor_buffer.selection_map.len();
        for i in 0..n
            invariant
                editor_buffer.wf(),
                doc == editor_buffer.doc(),
                entries == editor_buffer.selection_map.entries@,
                scroll == editor_buffer.scroll_offset,
                size == editor_engine.current_box.style_adjusted_bounds_size,
                origin == editor_engine.current_box.style_adjusted_origin_pos,
                origin_pos == origin,
                size_now == size,
                scroll_pos == scroll,
                n == entries.len(),
                ops_view(render_ops@).len() >= before.len(),
                before == ops_view(render_ops@).take(before.len() as int),
                selection_ops_spec(doc, entries, scroll, size, origin, 0) == ops_view(
                    render_ops@,
                ).skip(before.len() as int) + selection_ops_spec(
                    doc,
                    entries,
                    scroll,
                    size,
                    origin,
                    i as int,
                ),
        {
            let (row, range) = editor_buffer.selection_map.entry_at(i);
            let in_rows = row < editor_buffer.lines.len() && scroll_pos.row_index <= row && row
                - scroll_pos.row_index < size_now.row_count;
            if in_rows {
                proof {
                    assert(line_width(doc[row as int]) <= usize::MAX);
                    assert(editor_buffer.lines@[row as int]@ == doc[row as int]);
                }
                let clipped_range = match range.locate_scroll_offset_col(scroll_pos) {
                    ScrollOffsetColLocationInRange::Underflow => range,
                    ScrollOffsetColLocationInRange::Overflow => range.clipped_to_scroll_col(
                        scroll_pos.col_index,
                    ),
                };
                let text = editor_buffer.lines[row].clip_to_range(clipped_range);
                proof {
                    assert(text@ == visible_selection_text(
                        doc[row as int],
                        range,
                        scroll.col_index as int,
                    ));
                }
                if text.as_str().is_empty() {
                    proof {
                        assert(selection_ops_spec(doc, entries, scroll, size, origin, i as int)
                            == selection_ops_spec(doc, entries, scroll, size, origin, i + 1));
                    }
                } else {
                    let ghost mid = ops_view(render_ops@);
                    let rel = Position {
                        col_index: clipped_range.start_display_col_index - scroll_pos.col_index,
                        row_index: row - scroll_pos.row_index,
                    };
                    render_ops.push(RenderOp::MoveCursorPositionRelTo(origin_pos, rel));
                    render_ops.push(RenderOp::ApplyColors(Some(get_selection_style())));
                    render_ops.push(RenderOp::PaintTextWithAttributes(text, None));
                    render_ops.push(RenderOp::ResetColor);
                    proof {
                        let emitted = selection_ops_spec(
                            doc,
                            entries,
                            scroll,
                            size,
                            origin,
                            i as int,
                        );
                        assert(ops_view(render_ops@) =~= mid + seq![
                            OpView::MoveCursor(origin, rel),
                            OpView::ApplyColors(Some(spec_selection_style())),
                            OpView::PaintText(
                                visible_selection_text(
                                    doc[row as int],
                                    entries[i as int].1,
                                    scroll.col_index as int,
                                ),
                                None,
                            ),
                            OpView::ResetColor,
                        ]);
                        assert(selection_ops_spec(doc, entries, scroll, size, origin, 0)
                            =~= ops_view(render_ops@).skip(before.len() as int)
                            + selection_ops_spec(doc, entries, scroll, size, origin, i + 1));
                        assert(before =~= ops_view(render_ops@).take(before.len() as int));
                    }
                }
            } else {
                proof {
                    assert(selection_ops_spec(doc, entries, scroll, size, origin, i as int)
                        == selection_ops_spec(doc, entries, scroll, size, origin, i + 1));
                }
            }
        }
        proof {
            assert(selection_ops_spec(doc, entries, scroll, size, origin, n as int)
                =~= Seq::<OpView>::empty());
            assert(ops_view(render_ops@) =~= before + selection_ops_spec(
                doc,
                entries,
                scroll,
                size,
                origin,
                0,
            ));
        }
    }

    /// Paints the caret overlay: the cluster at the caret in reverse
    /// video, when the component holds focus and the caret is in view.
    pub fn render_caret(
        editor_buffer: &EditorBuffer,
        editor_engine: &EditorEngine,
        has_focus: &HasFocus,
        render_ops: &mut Vec<RenderOp>,
    )
        requires
            editor_buffer.wf(),
        ensures
            ops_view(final(render_ops)@) == ops_view(old(render_ops)@) + caret_ops_spec(
                editor_buffer.doc(),
                editor_buffer.caret,
                editor_buffer.scroll_offset,
                editor_engine.current_box.style_adjusted_bounds_size,
                editor_engine.current_box.style_adjusted_origin_pos,
                has_focus.maybe_id == Some(editor_engine.current_box.id),
            ),
    {
        let ghost doc = editor_buffer.doc();
        let ghost before = ops_view(render_ops@);
        let origin = editor_engine.current_box.style_adjusted_origin_pos;
        let size = editor_engine.current_box.style_adjusted_bounds_size;
        let scroll = editor_buffer.scroll_offset;
        let caret = editor_buffer.caret;
        let focused = has_focus.does_id_have_focus(editor_engine.current_box.id);
        let visible = focused && editor_buffer.lines.len() > 0 && caret.row_index
            >= scroll.row_index && caret.row_index - scroll.row_index < size.row_count
            && caret.col_index >= scroll.col_index && caret.col_index - scroll.col_index
            < size.col_count && caret.row_index < editor_buffer.lines.len();
        if !visible {
            proof {
                assert(ops_view(render_ops@) =~= before + Seq::<OpView>::empty());
            }
            return ;
        }
        proof {
            assert(editor_buffer.lines@[caret.row_index as int]@ == doc[caret.row_index as int]);
        }
        let line = &editor_buffer.lines[caret.row_index];
        let (k, _) = locate_col(&line.segs, caret.col_index);
        let text: String = if k < line.segs.len() {
            line.segs[k].text.clone()
        } else {
            "\u{2588}".to_owned()
        };
        proof {
            assert(text@ == caret_cluster_text(doc[caret.row_index as int], caret.col_index as int));
        }
        let rel = Position {
            col_index: caret.col_index - scroll.col_index,
            row_index: caret.row_index - scroll.row_index,
        };
        render_ops.push(RenderOp::MoveCursorPositionRelTo(origin, rel));
        render_ops.push(
            RenderOp::PaintTextWithAttributes(
                text,
                Some(TuiStyle { color_fg: None, color_bg: None, reverse: true }),
            ),
        );
        render_ops.push(RenderOp::MoveCursorPositionRelTo(origin, rel));
        render_ops.push(RenderOp::ResetColor);
        proof {
            assert(ops_view(render_ops@) =~= before + caret_ops_spec(
                doc,
                caret,
                scroll,
                size,
                origin,
                has_focus.maybe_id == Some(editor_engine.current_box.id),
            ));
        }
    }

    /// Renders one paint cycle: the empty-buffer placeholder, or content
    /// by the configured strategy with the selection and caret overlays
    /// painted on top, all inside the given box. No operation references
    /// a row outside the viewport.
    pub fn render_engine(
        editor_engine: &mut EditorEngine,
        editor_buffer: &EditorBuffer,
        current_box: EditorFlexBox,
        has_focus: &HasFocus,
    ) -> (r: RenderPipeline)
        requires
            editor_buffer.wf(),
        ensures
            final(editor_engine).current_box == current_box,
            final(editor_engine).config_options == old(editor_engine).config_options,
            final(editor_engine).syntax_set == old(editor_engine).syntax_set,
            final(editor_engine).theme == old(editor_engine).theme,
            r.row_bounded(current_box.style_adjusted_bounds_size.row_count as int),
            forall|i: int|
                0 <= i < r.entries@.len() ==> (#[trigger] r.entries@[i]).0 == ZOrder::Normal,
            editor_buffer.doc().len() == 0 ==> entries_ops(r.entries@) == empty_state_ops(
                current_box.style_adjusted_origin_pos,
                current_box.style_adjusted_bounds_size,
                has_focus.maybe_id == Some(current_box.id),
            ),
            editor_buffer.doc().len() > 0 ==> exists|content: Seq<OpView>|
                {
                    let size = current_box.style_adjusted_bounds_size;
                    let origin = current_box.style_adjusted_origin_pos;
                    &&& entries_ops(r.entries@) == content + selection_ops_spec(
                        editor_buffer.doc(),
                        editor_buffer.selection_map.entries@,
                        editor_buffer.scroll_offset,
                        size,
                        origin,
                        0,
                    ) + caret_ops_spec(
                        editor_buffer.doc(),
                        editor_buffer.caret,
                        editor_buffer.scroll_offset,
                        size,
                        origin,
                        has_focus.maybe_id == Some(current_box.id),
                    )
                    &&& #[trigger] ops_row_bounded(
                        content,
                        current_box.style_adjusted_bounds_size.row_count as int,
                    )
                    &&& (old(editor_engine).config_options.syntax_highlight
                        == SyntaxHighlightMode::Disable ==> content == plain_content_ops(
                        editor_buffer.doc(),
                        editor_buffer.scroll_offset,
                        size,
                        current_box.maybe_computed_style,
                        origin,
                        0,
                    ))
                    &&& (old(editor_engine).config_options.syntax_highlight
                        == SyntaxHighlightMode::Enable ==> exists|rows: Seq<Seq<OpView>>|
                        {
                            let doc = editor_buffer.doc();
                            let scroll = editor_buffer.scroll_offset;
                            &&& content == #[trigger] rows_flatten(rows, origin, 0)
                                + override_ops(doc, scroll, size, origin, 0)
                            &&& rows.len() == (if scroll.row_index >= doc.len() {
                                0int
                            } else if size.row_count < doc.len() - scroll.row_index {
                                size.row_count as int
                            } else {
                                doc.len() - scroll.row_index
                            })
                            &&& forall|j: int|
                                0 <= j < rows.len() ==> row_ops_ok(
                                    #[trigger] rows[j],
                                    doc[scroll.row_index + j],
                                    scroll.col_index as int,
                                    size.col_count as int,
                                    current_box.maybe_computed_style,
                                )
                        })
                    &&& (old(editor_engine).config_options.syntax_highlight
                        == SyntaxHighlightMode::Enable && (editor_buffer.maybe_file_extension
                        is None || old(editor_engine).theme is None) ==> content
                        == plain_content_ops(
                        editor_buffer.doc(),
                        editor_buffer.scroll_offset,
                        size,
                        current_box.maybe_computed_style,
                        origin,
                        0,
                    ) + override_ops(
                        editor_buffer.doc(),
                        editor_buffer.scroll_offset,
                        size,
                        origin,
                        0,
                    ))
                },
    {
        editor_engine.current_box = current_box;
        if editor_buffer.is_empty() {
            EditorEngineApi::render_empty_state(editor_engine, has_focus)
        } else {
            let size = editor_engine.current_box.style_adjusted_bounds_size;
            let ghost origin = current_box.style_adjusted_origin_pos;
            let ghost doc = editor_buffer.doc();
            let ghost scroll = editor_buffer.scroll_offset;
            let mut render_ops: Vec<RenderOp> = Vec::new();
            let ghost start = ops_view(render_ops@);
            proof {
                assert(start =~= Seq::<OpView>::empty());
            }
            match editor_engine.config_options.syntax_highlight {
                SyntaxHighlightMode::Disable => {
                    crate::render_no_hi::render_content(
                        editor_buffer,
                        size.row_count,
                        &mut render_ops,
                        editor_engine,
                        size.col_count,
                    );
                    proof {
                        lemma_plain_content_row_bounded(
                            doc,
                            scroll,
                            size,
                            current_box.maybe_computed_style,
                            origin,
                            0,
                        );
                        assert(ops_view(render_ops@) =~= plain_content_ops(
                            doc,
                            scroll,
                            size,
                            current_box.maybe_computed_style,
                            origin,
                            0,
                        ));
                    }
                },
                SyntaxHighlightMode::Enable => {
                    crate::render_syntect::render_content(
                        editor_buffer,
                        size.row_count,
                        &mut render_ops,
                        editor_engine,
                        size.col_count,
                    );
                    let ghost mid = ops_view(render_ops@);
                    crate::render_internal_hi::render_content(
                        editor_buffer,
                        size.row_count,
                        &mut render_ops,
                        editor_engine,
                        size.col_count,
                    );
                    proof {
                        lemma_override_ops_row_bounded(doc, scroll, size, origin, 0);
                        lemma_appended_row_bounded_suffix(
                            mid,
                            override_ops(doc, scroll, size, origin, 0),
                            size.row_count as int,
                        );
                        lemma_appended_row_bounded_trans(
                            start,
                            mid,
                            ops_view(render_ops@),
                            size.row_count as int,
                        );
                        assert(ops_row_bounded(ops_view(render_ops@), size.row_count as int)) by {
                            assert forall|i: int|
                                0 <= i < ops_view(render_ops@).len() implies op_row_bounded(
                                #[trigger] ops_view(render_ops@)[i],
                                size.row_count as int,
                            ) by {
                                assert(start.len() == 0);
                            }
                        }
                        assert(ops_row_bounded(mid, size.row_count as int)) by {
                            assert forall|i: int| 0 <= i < mid.len() implies op_row_bounded(
                                #[trigger] mid[i],
                                size.row_count as int,
                            ) by {
                                assert(start.len() == 0);
                            }
                        }
                        assert(ops_view(render_ops@) =~= mid + override_ops(
                            doc,
                            scroll,
                            size,
                            origin,
                            0,
                        ));
                        // Carry the per-row decomposition up from the
                        // grammar strategy.
                        let rows_w = choose|rows: Seq<Seq<OpView>>|
                            {
                                &&& mid == start + #[trigger] rows_flatten(rows, origin, 0)
                                &&& rows.len() == (if scroll.row_index >= doc.len() {
                                    0int
                                } else if size.row_count < doc.len() - scroll.row_index {
                                    size.row_count as int
                                } else {
                                    doc.len() - scroll.row_index
                                })
                                &&& forall|jj: int|
                                    0 <= jj < rows.len() ==> row_ops_ok(
                                        #[trigger] rows[jj],
                                        doc[scroll.row_index + jj],
                                        scroll.col_index as int,
                                        size.col_count as int,
                                        current_box.maybe_computed_style,
                                    )
                            };
                        assert(mid =~= rows_flatten(rows_w, origin, 0));
                        assert(ops_view(render_ops@) == rows_flatten(rows_w, origin, 0)
                            + override_ops(doc, scroll, size, origin, 0));
                        if editor_buffer.maybe_file_extension is None || editor_engine.theme
                            is None {
                            assert(mid =~= plain_content_ops(
                                doc,
                                scroll,
                                size,
                                current_box.maybe_computed_style,
                                origin,
                                0,
                            ));
                        }
                    }
                },
            }
            let ghost content = ops_view(render_ops@);
            EditorEngineApi::render_selection(editor_buffer, editor_engine, &mut render_ops);
            let ghost with_sel = ops_view(render_ops@);
            EditorEngineApi::render_caret(editor_buffer, editor_engine, has_focus, &mut render_ops);
            let ghost all = ops_view(render_ops@);
            let mut pipeline = RenderPipeline::new();
            let ghost ops_final = ops_view(render_ops@);
            pipeline.push(ZOrder::Normal, render_ops);
            proof {
                assert(pipeline.entries@.drop_last() =~= Seq::<(ZOrder, Vec<RenderOp>)>::empty());
                assert(entries_ops(pipeline.entries@.drop_last()) =~= Seq::<OpView>::empty());
                assert(pipeline.entries@.last().1@.map_values(|op: RenderOp| op@) == ops_final);
                assert(entries_ops(pipeline.entries@) =~= ops_final);
                assert(all == content + selection_ops_spec(
                    doc,
                    editor_buffer.selection_map.entries@,
                    scroll,
                    size,
                    origin,
                    0,
                ) + caret_ops_spec(
                    doc,
                    editor_buffer.caret,
                    scroll,
                    size,
                    origin,
                    has_focus.maybe_id == Some(current_box.id),
                ));
                lemma_selection_ops_row_bounded(
                    doc,
                    editor_buffer.selection_map.entries@,
                    scroll,
                    size,
                    origin,
                    0,
                );
                assert(ops_row_bounded(
                    caret_ops_spec(
                        doc,
                        editor_buffer.caret,
                        scroll,
                        size,
                        origin,
                        has_focus.maybe_id == Some(current_box.id),
                    ),
                    size.row_count as int,
                ));
                assert(ops_row_bounded(ops_final, size.row_count as int));
            }
            pipeline
        }
    }
}

/// Selection clipping against the horizontal scroll offset: a selection
/// wholly left of the scroll column renders as an empty slice, and one
/// straddling it renders exactly the portion at or right of the scroll
/// column.
pub proof fn lemma_selection_clipping(l: Seq<SegView>, range: SelectionRange, scroll_col: int)
    ensures
        range.end_display_col_index <= scroll_col ==> visible_selection_text(l, range, scroll_col)
            == Seq::<char>::empty(),
        range.start_display_col_index < scroll_col ==> visible_selection_text(l, range, scroll_col)
            == segs_text(clip_cols_spec(l, scroll_col, range.end_display_col_index as int)),
{
    if range.end_display_col_index <= scroll_col {
        if range.start_display_col_index >= scroll_col {
            lemma_clip_empty_window(
                l,
                0,
                range.start_display_col_index as int,
                range.end_display_col_index as int,
            );
        } else {
            lemma_clip_empty_window(l, 0, scroll_col, range.end_display_col_index as int);
        }
    }
}

/// The snapshots a run of commands records, in order: each command's
/// post state is the fold of the spec transitions, with the selection
/// untouched throughout (buffer commands never change it).
pub open spec fn posts_of_commands(
    doc: Seq<Seq<SegView>>,
    caret: Position,
    sel: Map<usize, SelectionRange>,
    commands: Seq<EditorBufferCommand>,
) -> Seq<SnapView>
    decreases commands.len(),
{
    if commands.len() == 0 {
        Seq::empty()
    } else {
        let stepped = spec_apply_command(doc, caret, commands[0]);
        seq![(SnapView { doc: stepped.0, caret: stepped.1, sel })] + posts_of_commands(
            stepped.0,
            stepped.1,
            sel,
            commands.drop_first(),
        )
    }
}

proof fn lemma_posts_of_commands(
    doc: Seq<Seq<SegView>>,
    caret: Position,
    sel: Map<usize, SelectionRange>,
    commands: Seq<EditorBufferCommand>,
)
    requires
        commands.len() > 0,
    ensures
        posts_of_commands(doc, caret, sel, commands).len() == commands.len(),
        posts_of_commands(doc, caret, sel, commands).last() == (SnapView {
            doc: spec_apply_commands(doc, caret, commands).0,
            caret: spec_apply_commands(doc, caret, commands).1,
            sel,
        }),
    decreases commands.len(),
{
    let stepped = spec_apply_command(doc, caret, commands[0]);
    let posts = posts_of_commands(doc, caret, sel, commands);
    if commands.len() == 1 {
        assert(commands.drop_first().len() == 0);
        assert(posts_of_commands(stepped.0, stepped.1, sel, commands.drop_first())
            =~= Seq::<SnapView>::empty());
        assert(posts =~= seq![(SnapView { doc: stepped.0, caret: stepped.1, sel })]);
        assert(spec_apply_commands(doc, caret, commands) == spec_apply_commands(
            stepped.0,
            stepped.1,
            commands.drop_first(),
        ));
    } else {
        lemma_posts_of_commands(stepped.0, stepped.1, sel, commands.drop_first());
        let rest = posts_of_commands(stepped.0, stepped.1, sel, commands.drop_first());
        assert(posts.last() == rest.last());
        assert(spec_apply_commands(doc, caret, commands) == spec_apply_commands(
            stepped.0,
            stepped.1,
            commands.drop_first(),
        ));
    }
}

/// The undo/redo round trip for any sequence of content-changing
/// commands, at the buffer level, starting from a fresh history. The
/// first command seeds the pre-sequence snapshot, so the recorded history
/// is that snapshot followed by each command's post state; N undos then
/// show exactly the pre-sequence state S0, and N redos return exactly to
/// the final state SN, the fold of the command transitions. Together
/// with the exec contracts — `apply_event`'s history clause is one
/// [`record push`](crate::history::record_push) per content command over
/// these very spec transitions, and `EditorBuffer::undo`/`redo`
/// implement [`spec_undo`](crate::history::spec_undo)/
/// [`spec_redo`](crate::history::spec_redo), restoring the snapshot at
/// the moved cursor — this is the round trip of the testable property,
/// in both directions.
pub proof fn lemma_buffer_undo_redo_round_trip(
    doc: Seq<Seq<SegView>>,
    caret: Position,
    sel: Map<usize, SelectionRange>,
    commands: Seq<EditorBufferCommand>,
)
    requires
        commands.len() > 0,
        forall|i: int| 0 <= i < commands.len() ==> is_content_command(#[trigger] commands[i]),
    ensures
        ({
            let pre = SnapView { doc, caret, sel };
            let posts = posts_of_commands(doc, caret, sel, commands);
            let recorded = views_after_commands(seq![pre], 0, posts);
            let stepped = spec_apply_commands(doc, caret, commands);
            &&& posts.len() == commands.len()
            &&& recorded.0 == seq![pre] + posts
            &&& recorded.1 == commands.len()
            &&& spec_undo_n(recorded, commands.len() as nat) == (recorded.0, 0int)
            &&& recorded.0[0] == pre
            &&& spec_redo_n((recorded.0, 0int), commands.len() as nat) == recorded
            &&& recorded.0[recorded.1] == (SnapView { doc: stepped.0, caret: stepped.1, sel })
        }),
{
    lemma_posts_of_commands(doc, caret, sel, commands);
    let pre = SnapView { doc, caret, sel };
    let posts = posts_of_commands(doc, caret, sel, commands);
    lemma_commands_undo_redo_round_trip(seq![pre], 0, posts);
    assert(seq![pre].take(1int) =~= seq![pre]);
    let recorded = views_after_commands(seq![pre], 0, posts);
    assert(recorded.0 =~= seq![pre] + posts);
    assert(recorded.0[recorded.1] == posts[posts.len() - 1]);
}

} // verus!
