use editor_core::{
    CaretDirection, EditMode, EditorBuffer, EditorBufferCommand, EditorEngine, EditorEngineApi,
    EditorEngineApplyEventResult, EditorEngineConfig, EditorFlexBox, HasFocus, InputEvent, Key,
    KeyPress, Position, RenderOp, RenderPipeline, Size, SpecialKey, SyntaxHighlightMode,
    TerminalLibBackend,
};

fn buffer_with_lines(lines: &[&str]) -> EditorBuffer {
    let mut buffer = EditorBuffer::new();
    let owned: Vec<String> = lines.iter().map(|s| s.to_string()).collect();
    buffer.set_lines(&owned);
    buffer
}

fn engine(mode: SyntaxHighlightMode, edit_mode: EditMode, size: Size) -> (EditorEngine, EditorFlexBox) {
    let the_box = EditorFlexBox::new(1, Position::new(0, 0), size, None);
    let config = EditorEngineConfig { edit_mode, syntax_highlight: mode };
    (EditorEngine::new(config, the_box), the_box)
}

fn all_ops(pipeline: &RenderPipeline) -> Vec<&RenderOp> {
    let mut ops = Vec::new();
    for (_, batch) in pipeline.entries.iter() {
        for op in batch.iter() {
            ops.push(op);
        }
    }
    ops
}

fn painted_texts(pipeline: &RenderPipeline) -> Vec<String> {
    all_ops(pipeline)
        .into_iter()
        .filter_map(|op| match op {
            RenderOp::PaintTextWithAttributes(text, _) => Some(text.clone()),
            _ => None,
        })
        .collect()
}

fn key(c: char) -> InputEvent {
    InputEvent::Keyboard(KeyPress::Plain { key: Key::Character(c) })
}

fn special(k: SpecialKey) -> InputEvent {
    InputEvent::Keyboard(KeyPress::Plain { key: Key::SpecialKey(k) })
}

#[test]
fn empty_buffer_focused_renders_placeholder_and_marker() {
    let buffer = EditorBuffer::new();
    let (mut eng, the_box) = engine(
        SyntaxHighlightMode::Disable,
        EditMode::ReadWrite,
        Size::new(40, 10),
    );
    let focus = HasFocus::new(Some(1));
    let pipeline = EditorEngineApi::render_engine(&mut eng, &buffer, the_box, &focus);
    let texts = painted_texts(&pipeline);
    assert_eq!(texts, vec!["No content added".to_string(), "\u{1F440}".to_string()]);
    // The marker sits one row below the placeholder.
    let moves: Vec<Position> = all_ops(&pipeline)
        .into_iter()
        .filter_map(|op| match op {
            RenderOp::MoveCursorPositionRelTo(_, pos) => Some(*pos),
            _ => None,
        })
        .collect();
    assert_eq!(moves, vec![Position::new(0, 0), Position::new(0, 1)]);
}

#[test]
fn empty_buffer_unfocused_renders_only_placeholder() {
    let buffer = EditorBuffer::new();
    let (mut eng, the_box) = engine(
        SyntaxHighlightMode::Disable,
        EditMode::ReadWrite,
        Size::new(40, 10),
    );
    let focus = HasFocus::new(None);
    let pipeline = EditorEngineApi::render_engine(&mut eng, &buffer, the_box, &focus);
    assert_eq!(painted_texts(&pipeline), vec!["No content added".to_string()]);
}

#[test]
fn plain_render_paints_each_visible_line_clipped() {
    let mut buffer = buffer_with_lines(&["0123456789", "abcdefghij", "row-three"]);
    buffer.scroll_offset = Position::new(2, 0);
    let (mut eng, the_box) = engine(
        SyntaxHighlightMode::Disable,
        EditMode::ReadWrite,
        Size::new(4, 2),
    );
    let focus = HasFocus::new(None);
    let pipeline = EditorEngineApi::render_engine(&mut eng, &buffer, the_box, &focus);
    // Two rows fit; each is clipped to columns [2, 6).
    assert_eq!(painted_texts(&pipeline), vec!["2345".to_string(), "cdef".to_string()]);
}

#[test]
fn no_paint_operation_references_a_row_outside_the_viewport() {
    let mut buffer = buffer_with_lines(&["a", "b", "c", "d", "e", "f", "g"]);
    buffer.selection_map.set(0, editor_core::SelectionRange::new(0, 1));
    buffer.selection_map.set(6, editor_core::SelectionRange::new(0, 1));
    let (mut eng, the_box) = engine(
        SyntaxHighlightMode::Disable,
        EditMode::ReadWrite,
        Size::new(10, 3),
    );
    let focus = HasFocus::new(Some(1));
    let pipeline = EditorEngineApi::render_engine(&mut eng, &buffer, the_box, &focus);
    for op in all_ops(&pipeline) {
        if let RenderOp::MoveCursorPositionRelTo(_, pos) = op {
            assert!(pos.row_index < 3, "row {} escapes the viewport", pos.row_index);
        }
    }
}

#[test]
fn selection_overlay_paints_visible_slice_at_relative_position() {
    let mut buffer = buffer_with_lines(&["hello world"]);
    buffer.selection_map.set(0, editor_core::SelectionRange::new(2, 5));
    buffer.scroll_offset = Position::new(3, 0);
    let (mut eng, the_box) = engine(
        SyntaxHighlightMode::Disable,
        EditMode::ReadWrite,
        Size::new(8, 2),
    );
    let focus = HasFocus::new(None);
    let pipeline = EditorEngineApi::render_engine(&mut eng, &buffer, the_box, &focus);
    let texts = painted_texts(&pipeline);
    // Content row plus the selection slice right of the scroll offset.
    assert!(texts.contains(&"lo".to_string()), "texts: {:?}", texts);
}

#[test]
fn selection_fully_scrolled_out_is_skipped() {
    let mut buffer = buffer_with_lines(&["hello"]);
    buffer.selection_map.set(0, editor_core::SelectionRange::new(0, 2));
    buffer.scroll_offset = Position::new(3, 0);
    let (mut eng, the_box) = engine(
        SyntaxHighlightMode::Disable,
        EditMode::ReadWrite,
        Size::new(8, 2),
    );
    let focus = HasFocus::new(None);
    let pipeline = EditorEngineApi::render_engine(&mut eng, &buffer, the_box, &focus);
    // Only the content paint remains; no selection slice was emitted.
    assert_eq!(painted_texts(&pipeline), vec!["lo".to_string()]);
}

#[test]
fn caret_overlay_paints_cluster_in_reverse_video() {
    let buffer = buffer_with_lines(&["ab"]);
    let (mut eng, the_box) = engine(
        SyntaxHighlightMode::Disable,
        EditMode::ReadWrite,
        Size::new(8, 2),
    );
    let focus = HasFocus::new(Some(1));
    let pipeline = EditorEngineApi::render_engine(&mut eng, &buffer, the_box, &focus);
    let reversed: Vec<String> = all_ops(&pipeline)
        .into_iter()
        .filter_map(|op| match op {
            RenderOp::PaintTextWithAttributes(text, Some(style)) if style.reverse => {
                Some(text.clone())
            }
            _ => None,
        })
        .collect();
    assert_eq!(reversed, vec!["a".to_string()]);
}

#[test]
fn caret_past_end_of_line_paints_placeholder_glyph() {
    let mut buffer = buffer_with_lines(&["a"]);
    buffer.move_caret(CaretDirection::Right);
    let (mut eng, the_box) = engine(
        SyntaxHighlightMode::Disable,
        EditMode::ReadWrite,
        Size::new(8, 2),
    );
    let focus = HasFocus::new(Some(1));
    let pipeline = EditorEngineApi::render_engine(&mut eng, &buffer, the_box, &focus);
    let reversed: Vec<String> = all_ops(&pipeline)
        .into_iter()
        .filter_map(|op| match op {
            RenderOp::PaintTextWithAttributes(text, Some(style)) if style.reverse => {
                Some(text.clone())
            }
            _ => None,
        })
        .collect();
    assert_eq!(reversed, vec!["\u{2588}".to_string()]);
}

#[test]
fn internal_override_repaints_heading_rows() {
    let buffer = buffer_with_lines(&["# Title", "body"]);
    let (mut eng, the_box) = engine(
        SyntaxHighlightMode::Enable,
        EditMode::ReadWrite,
        Size::new(20, 5),
    );
    let focus = HasFocus::new(None);
    let pipeline = EditorEngineApi::render_engine(&mut eng, &buffer, the_box, &focus);
    let texts = painted_texts(&pipeline);
    let title_paints = texts.iter().filter(|t| t.as_str() == "# Title").count();
    let body_paints = texts.iter().filter(|t| t.as_str() == "body").count();
    // The heading is painted by the grammar pass and again by the override.
    assert_eq!(title_paints, 2);
    assert_eq!(body_paints, 1);
}

#[test]
fn syntect_path_with_extension_still_respects_viewport_rows() {
    let mut buffer = EditorBuffer::new_with_file_extension(Some("rs".to_string()));
    buffer.set_lines(&vec!["let a = 1;".to_string(), "let b = 2;".to_string()]);
    let (mut eng, the_box) = engine(
        SyntaxHighlightMode::Enable,
        EditMode::ReadWrite,
        Size::new(10, 1),
    );
    let focus = HasFocus::new(None);
    let pipeline = EditorEngineApi::render_engine(&mut eng, &buffer, the_box, &focus);
    for op in all_ops(&pipeline) {
        if let RenderOp::MoveCursorPositionRelTo(_, pos) = op {
            assert!(pos.row_index < 1);
        }
    }
}

#[test]
fn apply_event_maps_keys_and_records_history() {
    let mut buffer = EditorBuffer::new();
    let (eng, _) = engine(
        SyntaxHighlightMode::Disable,
        EditMode::ReadWrite,
        Size::new(10, 3),
    );
    let r1 = EditorEngineApi::apply_event(&mut buffer, &eng, key('h'));
    assert_eq!(r1, EditorEngineApplyEventResult::Applied);
    let r2 = EditorEngineApi::apply_event(&mut buffer, &eng, key('i'));
    assert_eq!(r2, EditorEngineApplyEventResult::Applied);
    assert_eq!(buffer.get_lines()[0].as_string(), "hi");
    // Two inserts on a fresh history: pre-state plus one snapshot each.
    buffer.undo();
    assert_eq!(buffer.get_lines()[0].as_string(), "h");
    buffer.undo();
    assert!(buffer.is_empty());
}

#[test]
fn apply_event_rejects_unmapped_keys() {
    let mut buffer = buffer_with_lines(&["x"]);
    let (eng, _) = engine(
        SyntaxHighlightMode::Disable,
        EditMode::ReadWrite,
        Size::new(10, 3),
    );
    let r = EditorEngineApi::apply_event(&mut buffer, &eng, special(SpecialKey::Home));
    assert_eq!(r, EditorEngineApplyEventResult::NotApplied);
    assert_eq!(buffer.get_lines()[0].as_string(), "x");
}

#[test]
fn read_only_mode_rejects_edits_but_allows_navigation() {
    let mut buffer = buffer_with_lines(&["ab"]);
    let (eng, _) = engine(
        SyntaxHighlightMode::Disable,
        EditMode::ReadOnly,
        Size::new(10, 3),
    );
    let edit = EditorEngineApi::apply_event(&mut buffer, &eng, key('z'));
    assert_eq!(edit, EditorEngineApplyEventResult::NotApplied);
    assert_eq!(buffer.get_lines()[0].as_string(), "ab");
    let nav = EditorEngineApi::apply_event(&mut buffer, &eng, special(SpecialKey::Right));
    assert_eq!(nav, EditorEngineApplyEventResult::Applied);
    assert_eq!(buffer.get_caret(), Position::new(1, 0));
}

#[test]
fn caret_movement_does_not_push_history() {
    let mut buffer = buffer_with_lines(&["ab"]);
    let (eng, _) = engine(
        SyntaxHighlightMode::Disable,
        EditMode::ReadWrite,
        Size::new(10, 3),
    );
    EditorEngineApi::apply_event(&mut buffer, &eng, special(SpecialKey::Right));
    EditorEngineApi::apply_event(&mut buffer, &eng, special(SpecialKey::Right));
    // Pure caret movement never touches the history: it is still empty,
    // so undo has nothing to restore.
    buffer.undo();
    assert_eq!(buffer.get_lines()[0].as_string(), "ab");
    assert_eq!(buffer.get_caret(), Position::new(2, 0));
}

#[test]
fn leading_caret_move_then_edit_undoes_to_pre_edit_state() {
    let mut buffer = buffer_with_lines(&["ab"]);
    let (eng, _) = engine(
        SyntaxHighlightMode::Disable,
        EditMode::ReadWrite,
        Size::new(10, 3),
    );
    EditorEngineApi::apply_event(&mut buffer, &eng, special(SpecialKey::Right));
    EditorEngineApi::apply_event(&mut buffer, &eng, key('x'));
    assert_eq!(buffer.get_lines()[0].as_string(), "axb");
    buffer.undo();
    // The pre-edit snapshot was taken after the caret move, so undo
    // restores the moved caret, not the buffer's original caret.
    assert_eq!(buffer.get_lines()[0].as_string(), "ab");
    assert_eq!(buffer.get_caret(), Position::new(1, 0));
}

#[test]
fn typing_past_the_viewport_scrolls_minimally() {
    let mut buffer = EditorBuffer::new();
    let (eng, _) = engine(
        SyntaxHighlightMode::Disable,
        EditMode::ReadWrite,
        Size::new(3, 2),
    );
    for c in ['a', 'b', 'c', 'd'] {
        EditorEngineApi::apply_event(&mut buffer, &eng, key(c));
    }
    // Caret at column 4 with a 3-column viewport: offset scrolls to 2.
    assert_eq!(buffer.get_caret(), Position::new(4, 0));
    assert_eq!(buffer.get_scroll_offset(), Position::new(2, 0));
    for _ in 0..3 {
        EditorEngineApi::apply_event(&mut buffer, &eng, special(SpecialKey::Enter));
    }
    // Caret on row 3 with a 2-row viewport: offset scrolls to row 2.
    assert_eq!(buffer.get_caret().row_index, 3);
    assert_eq!(buffer.get_scroll_offset().row_index, 2);
}

#[test]
fn default_backend_is_crossterm() {
    assert!(matches!(
        TerminalLibBackend::default_backend(),
        TerminalLibBackend::Crossterm
    ));
}
