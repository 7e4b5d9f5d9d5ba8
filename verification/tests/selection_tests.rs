use editor_core::{
    copy, cut, paste, EditorBuffer, Position, ScrollOffsetColLocationInRange, SelectionMap,
    SelectionRange,
};

fn buffer_with_lines(lines: &[&str]) -> EditorBuffer {
    let mut buffer = EditorBuffer::new();
    let owned: Vec<String> = lines.iter().map(|s| s.to_string()).collect();
    buffer.set_lines(&owned);
    buffer
}

#[test]
fn selection_map_keeps_rows_in_ascending_order() {
    let mut map = SelectionMap::new();
    map.set(5, SelectionRange::new(0, 2));
    map.set(1, SelectionRange::new(1, 3));
    map.set(3, SelectionRange::new(2, 4));
    assert_eq!(map.get_ordered_indices(), vec![1, 3, 5]);
}

#[test]
fn selection_map_set_replaces_and_clear_removes() {
    let mut map = SelectionMap::new();
    map.set(2, SelectionRange::new(0, 4));
    map.set(2, SelectionRange::new(1, 2));
    assert_eq!(map.get(2), Some(SelectionRange::new(1, 2)));
    map.clear(2);
    assert_eq!(map.get(2), None);
    assert!(map.is_empty());
}

#[test]
fn extend_widens_an_existing_selection() {
    let mut map = SelectionMap::new();
    map.set(0, SelectionRange::new(2, 4));
    map.extend(0, SelectionRange::new(3, 7));
    assert_eq!(map.get(0), Some(SelectionRange::new(2, 7)));
    map.extend(1, SelectionRange::new(5, 6));
    assert_eq!(map.get(1), Some(SelectionRange::new(5, 6)));
}

#[test]
fn clearing_an_absent_row_changes_nothing() {
    let mut map = SelectionMap::new();
    map.set(0, SelectionRange::new(0, 1));
    map.clear(7);
    assert_eq!(map.get_ordered_indices(), vec![0]);
}

#[test]
fn locate_scroll_offset_col_classifies_ranges() {
    let range = SelectionRange::new(4, 9);
    assert_eq!(
        range.locate_scroll_offset_col(Position::new(4, 0)),
        ScrollOffsetColLocationInRange::Underflow
    );
    assert_eq!(
        range.locate_scroll_offset_col(Position::new(5, 0)),
        ScrollOffsetColLocationInRange::Overflow
    );
}

#[test]
fn clip_to_range_takes_the_covered_substring() {
    let buffer = buffer_with_lines(&["hello"]);
    let line = &buffer.get_lines()[0];
    assert_eq!(line.clip_to_range(SelectionRange::new(1, 4)), "ell");
    assert_eq!(line.clip_to_range(SelectionRange::new(0, 99)), "hello");
    assert_eq!(line.clip_to_range(SelectionRange::new(7, 9)), "");
}

#[test]
fn selection_entirely_left_of_scroll_yields_empty_slice() {
    let buffer = buffer_with_lines(&["hello"]);
    let line = &buffer.get_lines()[0];
    let range = SelectionRange::new(0, 2);
    // Scrolled three columns right: the whole selection is off-screen.
    let clipped = range.clipped_to_scroll_col(3);
    assert_eq!(line.clip_to_range(clipped), "");
}

#[test]
fn selection_straddling_scroll_yields_portion_right_of_offset() {
    let buffer = buffer_with_lines(&["hello"]);
    let line = &buffer.get_lines()[0];
    let range = SelectionRange::new(2, 5);
    let clipped = range.clipped_to_scroll_col(3);
    assert_eq!(clipped.start_display_col_index, 3);
    assert_eq!(line.clip_to_range(clipped), "lo");
}

#[test]
fn clip_excludes_partially_visible_wide_chars() {
    let buffer = buffer_with_lines(&["a\u{1F600}b"]);
    let line = &buffer.get_lines()[0];
    // Columns [0,2): the emoji spans [1,3) and is cut, so only "a" shows.
    assert_eq!(line.clip_to_range(SelectionRange::new(0, 2)), "a");
    // Columns [0,3): the emoji fits.
    assert_eq!(line.clip_to_range(SelectionRange::new(0, 3)), "a\u{1F600}");
}

#[test]
fn selected_text_lines_collects_rows_in_ascending_order() {
    let mut buffer = buffer_with_lines(&["hello", "world"]);
    buffer.selection_map.set(1, SelectionRange::new(0, 3));
    buffer.selection_map.set(0, SelectionRange::new(1, 3));
    let texts = editor_core::clipboard::selected_text_lines(&buffer);
    assert_eq!(texts, vec!["el".to_string(), "wor".to_string()]);
}

#[test]
fn selected_rows_past_the_document_are_skipped() {
    let mut buffer = buffer_with_lines(&["only"]);
    buffer.selection_map.set(0, SelectionRange::new(0, 2));
    buffer.selection_map.set(9, SelectionRange::new(0, 2));
    let texts = editor_core::clipboard::selected_text_lines(&buffer);
    assert_eq!(texts, vec!["on".to_string()]);
}

#[test]
fn join_lines_puts_single_newlines_between_rows() {
    let lines = vec!["a".to_string(), "".to_string(), "c".to_string()];
    assert_eq!(editor_core::clipboard::join_lines(&lines), "a\n\nc");
    assert_eq!(editor_core::clipboard::join_lines(&Vec::new()), "");
}

#[test]
fn copy_of_unselected_buffer_does_not_disturb_it() {
    let mut buffer = buffer_with_lines(&["abc"]);
    copy(&buffer);
    assert_eq!(buffer.get_lines().len(), 1);
    buffer.selection_map.set(0, SelectionRange::new(0, 2));
    copy(&buffer);
    assert_eq!(buffer.get_lines()[0].as_string(), "abc");
}

#[test]
fn cut_removes_selected_columns_and_clears_selection() {
    let clipboard_available =
        editor_core::try_to_put_content_into_clipboard(&vec!["probe".to_string()]).is_ok();
    let mut buffer = buffer_with_lines(&["hello", "world"]);
    buffer.selection_map.set(0, SelectionRange::new(1, 4));
    buffer.selection_map.set(1, SelectionRange::new(0, 5));
    cut(&mut buffer);
    if clipboard_available {
        assert_eq!(buffer.get_lines()[0].as_string(), "ho");
        assert_eq!(buffer.get_lines()[1].as_string(), "");
        assert!(buffer.get_selection_map().is_empty());
        let caret = buffer.get_caret();
        assert!(caret.row_index < 2);
    } else {
        // The clipboard refused the text: the whole operation is
        // abandoned and the buffer is unchanged.
        assert_eq!(buffer.get_lines()[0].as_string(), "hello");
        assert_eq!(buffer.get_lines()[1].as_string(), "world");
        assert_eq!(
            buffer.get_selection_map().get(0),
            Some(SelectionRange::new(1, 4))
        );
    }
}

#[test]
fn cut_pushes_a_history_snapshot_and_is_undoable() {
    let clipboard_available =
        editor_core::try_to_put_content_into_clipboard(&vec!["probe".to_string()]).is_ok();
    let mut buffer = buffer_with_lines(&["hello"]);
    buffer.selection_map.set(0, SelectionRange::new(1, 4));
    cut(&mut buffer);
    if clipboard_available {
        assert_eq!(buffer.get_lines()[0].as_string(), "ho");
        buffer.undo();
        assert_eq!(buffer.get_lines()[0].as_string(), "hello");
        assert_eq!(
            buffer.get_selection_map().get(0),
            Some(SelectionRange::new(1, 4))
        );
        buffer.redo();
        assert_eq!(buffer.get_lines()[0].as_string(), "ho");
    } else {
        // Abandoned: nothing was recorded, so undo has nothing to do.
        assert_eq!(buffer.get_lines()[0].as_string(), "hello");
        buffer.undo();
        assert_eq!(buffer.get_lines()[0].as_string(), "hello");
    }
}

#[test]
fn failed_paste_leaves_the_history_untouched() {
    let clipboard_available = editor_core::try_to_get_content_from_clipboard().is_ok();
    if !clipboard_available {
        let mut buffer = buffer_with_lines(&["keep"]);
        paste(&mut buffer);
        // The operation was abandoned: no snapshot appeared, so undo has
        // nothing to restore and the content is untouched.
        assert_eq!(buffer.get_lines()[0].as_string(), "keep");
        buffer.undo();
        assert_eq!(buffer.get_lines()[0].as_string(), "keep");
        buffer.redo();
        assert_eq!(buffer.get_lines()[0].as_string(), "keep");
    }
}

#[test]
fn paste_failure_leaves_buffer_usable() {
    let mut buffer = buffer_with_lines(&["seed"]);
    paste(&mut buffer);
    // Whatever the clipboard held (possibly nothing), the caret invariant
    // still holds and the first row still starts with the seed text or the
    // pasted text; at minimum the buffer must not be corrupted.
    let caret = buffer.get_caret();
    assert!(caret.row_index < buffer.get_lines().len());
}

#[test]
fn clipboard_round_trip_is_not_required_to_succeed() {
    let lines = vec!["alpha".to_string(), "beta".to_string()];
    let put = editor_core::try_to_put_content_into_clipboard(&lines);
    let got = editor_core::try_to_get_content_from_clipboard();
    match (put, got) {
        (Ok(()), Ok(content)) => {
            assert!(content.contains("alpha"));
        }
        _ => {
            // No clipboard in this environment: failures are non-fatal.
        }
    }
}
