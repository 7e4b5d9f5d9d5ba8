use editor_core::{CaretDirection, EditorBuffer, EditorBufferCommand, Position};

fn buffer_with_lines(lines: &[&str]) -> EditorBuffer {
    let mut buffer = EditorBuffer::new();
    let owned: Vec<String> = lines.iter().map(|s| s.to_string()).collect();
    buffer.set_lines(&owned);
    buffer
}

fn line_strings(buffer: &EditorBuffer) -> Vec<String> {
    buffer.get_lines().iter().map(|l| l.as_string()).collect()
}

#[test]
fn new_buffer_is_empty() {
    let buffer = EditorBuffer::new();
    assert!(buffer.is_empty());
    assert_eq!(buffer.get_caret(), Position::new(0, 0));
}

#[test]
fn insert_char_advances_caret_by_one_column() {
    let mut buffer = EditorBuffer::new();
    buffer.insert_char('a');
    assert_eq!(line_strings(&buffer), vec!["a".to_string()]);
    assert_eq!(buffer.get_caret(), Position::new(1, 0));
}

#[test]
fn insert_wide_char_into_empty_line_moves_caret_two_columns() {
    let mut buffer = buffer_with_lines(&[""]);
    buffer.insert_char('\u{1F600}');
    assert_eq!(buffer.get_caret(), Position::new(2, 0));
    assert_eq!(line_strings(&buffer), vec!["\u{1F600}".to_string()]);
}

#[test]
fn backspace_at_end_of_ab_leaves_a() {
    let mut buffer = buffer_with_lines(&["ab"]);
    buffer.move_caret(CaretDirection::Right);
    buffer.move_caret(CaretDirection::Right);
    assert_eq!(buffer.get_caret(), Position::new(2, 0));
    buffer.backspace();
    assert_eq!(line_strings(&buffer), vec!["a".to_string()]);
    assert_eq!(buffer.get_caret(), Position::new(1, 0));
}

#[test]
fn backspace_at_column_zero_joins_with_previous_line() {
    let mut buffer = buffer_with_lines(&["a", "b"]);
    buffer.move_caret(CaretDirection::Down);
    assert_eq!(buffer.get_caret(), Position::new(0, 1));
    buffer.backspace();
    assert_eq!(line_strings(&buffer), vec!["ab".to_string()]);
    assert_eq!(buffer.get_caret(), Position::new(1, 0));
}

#[test]
fn backspace_at_document_start_is_a_no_op() {
    let mut buffer = buffer_with_lines(&["ab"]);
    buffer.backspace();
    assert_eq!(line_strings(&buffer), vec!["ab".to_string()]);
    assert_eq!(buffer.get_caret(), Position::new(0, 0));
}

#[test]
fn insert_then_backspace_restores_lines_and_caret() {
    let mut buffer = buffer_with_lines(&["hello"]);
    buffer.move_caret(CaretDirection::Right);
    buffer.move_caret(CaretDirection::Right);
    let caret_before = buffer.get_caret();
    buffer.insert_char('x');
    buffer.backspace();
    assert_eq!(line_strings(&buffer), vec!["hello".to_string()]);
    assert_eq!(buffer.get_caret(), caret_before);
}

#[test]
fn insert_then_backspace_restores_wide_char_line() {
    let mut buffer = buffer_with_lines(&["\u{1F600}b"]);
    buffer.move_caret(CaretDirection::Right);
    let caret_before = buffer.get_caret();
    assert_eq!(caret_before, Position::new(2, 0));
    buffer.insert_char('\u{1F600}');
    assert_eq!(buffer.get_caret(), Position::new(4, 0));
    buffer.backspace();
    assert_eq!(line_strings(&buffer), vec!["\u{1F600}b".to_string()]);
    assert_eq!(buffer.get_caret(), caret_before);
}

#[test]
fn delete_removes_cluster_at_caret_without_moving() {
    let mut buffer = buffer_with_lines(&["abc"]);
    buffer.move_caret(CaretDirection::Right);
    buffer.delete();
    assert_eq!(line_strings(&buffer), vec!["ac".to_string()]);
    assert_eq!(buffer.get_caret(), Position::new(1, 0));
}

#[test]
fn delete_at_end_of_line_joins_next_line() {
    let mut buffer = buffer_with_lines(&["ab", "cd"]);
    buffer.move_caret(CaretDirection::Right);
    buffer.move_caret(CaretDirection::Right);
    buffer.delete();
    assert_eq!(line_strings(&buffer), vec!["abcd".to_string()]);
    assert_eq!(buffer.get_caret(), Position::new(2, 0));
}

#[test]
fn delete_at_document_end_is_a_no_op() {
    let mut buffer = buffer_with_lines(&["ab"]);
    buffer.move_caret(CaretDirection::Right);
    buffer.move_caret(CaretDirection::Right);
    buffer.delete();
    assert_eq!(line_strings(&buffer), vec!["ab".to_string()]);
}

#[test]
fn insert_newline_char_breaks_the_line() {
    let mut buffer = buffer_with_lines(&["abcd"]);
    buffer.move_caret(CaretDirection::Right);
    buffer.move_caret(CaretDirection::Right);
    buffer.insert_char('\n');
    assert_eq!(line_strings(&buffer), vec!["ab".to_string(), "cd".to_string()]);
    assert_eq!(buffer.get_caret(), Position::new(0, 1));
}

#[test]
fn insert_new_line_splits_current_line_at_caret() {
    let mut buffer = buffer_with_lines(&["abcd"]);
    buffer.move_caret(CaretDirection::Right);
    buffer.move_caret(CaretDirection::Right);
    buffer.insert_new_line();
    assert_eq!(line_strings(&buffer), vec!["ab".to_string(), "cd".to_string()]);
    assert_eq!(buffer.get_caret(), Position::new(0, 1));
}

#[test]
fn insert_str_without_newline_is_a_single_splice() {
    let mut buffer = buffer_with_lines(&["ad"]);
    buffer.move_caret(CaretDirection::Right);
    buffer.insert_str("bc");
    assert_eq!(line_strings(&buffer), vec!["abcd".to_string()]);
    assert_eq!(buffer.get_caret(), Position::new(3, 0));
}

#[test]
fn insert_str_splits_on_newlines() {
    let mut buffer = buffer_with_lines(&["xy"]);
    buffer.move_caret(CaretDirection::Right);
    buffer.insert_str("a\nb");
    assert_eq!(line_strings(&buffer), vec!["xa".to_string(), "by".to_string()]);
    assert_eq!(buffer.get_caret(), Position::new(1, 1));
}

#[test]
fn insert_str_into_empty_buffer_creates_lines() {
    let mut buffer = EditorBuffer::new();
    buffer.insert_str("one\ntwo");
    assert_eq!(line_strings(&buffer), vec!["one".to_string(), "two".to_string()]);
    assert_eq!(buffer.get_caret(), Position::new(3, 1));
}

#[test]
fn move_left_wraps_to_end_of_previous_line() {
    let mut buffer = buffer_with_lines(&["ab", "c"]);
    buffer.move_caret(CaretDirection::Down);
    buffer.move_caret(CaretDirection::Left);
    assert_eq!(buffer.get_caret(), Position::new(2, 0));
}

#[test]
fn move_right_wraps_to_start_of_next_line() {
    let mut buffer = buffer_with_lines(&["a", "b"]);
    buffer.move_caret(CaretDirection::Right);
    buffer.move_caret(CaretDirection::Right);
    assert_eq!(buffer.get_caret(), Position::new(0, 1));
}

#[test]
fn move_up_and_down_clamp_to_shorter_lines() {
    let mut buffer = buffer_with_lines(&["abcd", "x", "efgh"]);
    for _ in 0..4 {
        buffer.move_caret(CaretDirection::Right);
    }
    assert_eq!(buffer.get_caret(), Position::new(4, 0));
    buffer.move_caret(CaretDirection::Down);
    assert_eq!(buffer.get_caret(), Position::new(1, 1));
    buffer.move_caret(CaretDirection::Down);
    assert_eq!(buffer.get_caret(), Position::new(1, 2));
    buffer.move_caret(CaretDirection::Up);
    buffer.move_caret(CaretDirection::Up);
    assert_eq!(buffer.get_caret(), Position::new(1, 0));
}

#[test]
fn move_down_snaps_inside_wide_char_to_left_boundary() {
    let mut buffer = buffer_with_lines(&["abc", "\u{1F600}x"]);
    buffer.move_caret(CaretDirection::Right);
    assert_eq!(buffer.get_caret(), Position::new(1, 0));
    buffer.move_caret(CaretDirection::Down);
    // Column 1 falls inside the two-column emoji; the caret snaps left.
    assert_eq!(buffer.get_caret(), Position::new(0, 1));
}

#[test]
fn apply_commands_runs_in_order() {
    let mut buffer = EditorBuffer::new();
    buffer.apply_commands(vec![
        EditorBufferCommand::InsertChar('a'),
        EditorBufferCommand::InsertChar('b'),
        EditorBufferCommand::MoveCaret(CaretDirection::Left),
        EditorBufferCommand::InsertChar('c'),
    ]);
    assert_eq!(line_strings(&buffer), vec!["acb".to_string()]);
    assert_eq!(buffer.get_caret(), Position::new(2, 0));
}

#[test]
fn caret_stays_valid_after_arbitrary_command_sequences() {
    let commands = [
        EditorBufferCommand::InsertString("wide \u{1F600} text".to_string()),
        EditorBufferCommand::InsertNewLine,
        EditorBufferCommand::MoveCaret(CaretDirection::Up),
        EditorBufferCommand::MoveCaret(CaretDirection::Right),
        EditorBufferCommand::Backspace,
        EditorBufferCommand::MoveCaret(CaretDirection::Down),
        EditorBufferCommand::Delete,
        EditorBufferCommand::MoveCaret(CaretDirection::Left),
        EditorBufferCommand::InsertChar('\u{1F600}'),
    ];
    let mut buffer = EditorBuffer::new();
    for command in commands {
        buffer.apply_command(command);
        let caret = buffer.get_caret();
        let lines = buffer.get_lines();
        assert!(caret.row_index < lines.len().max(1));
        if !lines.is_empty() {
            let line = &lines[caret.row_index];
            // The caret column must be the width of some cluster prefix.
            let mut acc: usize = 0;
            let mut on_boundary = acc == caret.col_index;
            for seg in line.segs.iter() {
                acc += seg.width;
                if acc == caret.col_index {
                    on_boundary = true;
                }
            }
            assert!(on_boundary, "caret column {} off boundary", caret.col_index);
        }
    }
}

#[test]
fn undo_redo_round_trip_over_command_sequence() {
    let mut buffer = EditorBuffer::new();
    buffer.push_history_snapshot();
    let pre = line_strings(&buffer);
    let commands = ['a', 'b', 'c'];
    for c in commands {
        buffer.apply_command(EditorBufferCommand::InsertChar(c));
        buffer.push_history_snapshot();
    }
    let post = line_strings(&buffer);
    for _ in 0..commands.len() {
        buffer.undo();
    }
    assert_eq!(line_strings(&buffer), pre);
    for _ in 0..commands.len() {
        buffer.redo();
    }
    assert_eq!(line_strings(&buffer), post);
    assert_eq!(buffer.get_caret(), Position::new(3, 0));
}

#[test]
fn undo_on_fresh_history_reports_nothing_to_undo() {
    let mut buffer = buffer_with_lines(&["ab"]);
    buffer.undo();
    assert_eq!(line_strings(&buffer), vec!["ab".to_string()]);
    buffer.redo();
    assert_eq!(line_strings(&buffer), vec!["ab".to_string()]);
}

#[test]
fn push_after_undo_discards_redo_entries() {
    let mut buffer = EditorBuffer::new();
    buffer.push_history_snapshot();
    buffer.insert_char('a');
    buffer.push_history_snapshot();
    buffer.insert_char('b');
    buffer.push_history_snapshot();
    buffer.undo();
    assert_eq!(line_strings(&buffer), vec!["a".to_string()]);
    buffer.insert_char('c');
    buffer.push_history_snapshot();
    // The "ab" entry is gone: redo stays on the new branch.
    buffer.redo();
    assert_eq!(line_strings(&buffer), vec!["ac".to_string()]);
}

#[test]
fn multi_line_insert_takes_one_snapshot_per_logical_command() {
    let mut buffer = EditorBuffer::new();
    buffer.push_history_snapshot();
    buffer.insert_str("one\ntwo\nthree");
    buffer.push_history_snapshot();
    let post = line_strings(&buffer);
    assert_eq!(post.len(), 3);
    // One undo steps over the whole paste.
    buffer.undo();
    assert!(buffer.is_empty());
    buffer.redo();
    assert_eq!(line_strings(&buffer), post);
}

#[test]
fn mutate_lines_revalidates_the_caret() {
    let mut buffer = buffer_with_lines(&["hello"]);
    for _ in 0..5 {
        buffer.move_caret(CaretDirection::Right);
    }
    assert_eq!(buffer.get_caret(), Position::new(5, 0));
    buffer.mutate_lines(|mut lines, caret| {
        lines.truncate(1);
        let mut shorter = editor_core::Line::new();
        for seg in lines[0].segs.drain(..2).collect::<Vec<_>>() {
            shorter.segs.push(seg);
        }
        lines[0] = shorter;
        (lines, caret)
    });
    // The line shrank to "he"; the caret is clamped onto it.
    assert_eq!(line_strings(&buffer), vec!["he".to_string()]);
    assert_eq!(buffer.get_caret(), Position::new(2, 0));
}

#[test]
fn mutate_caret_snaps_to_cluster_boundary() {
    let mut buffer = buffer_with_lines(&["\u{1F600}x"]);
    buffer.mutate_caret(|caret| Position::new(1, caret.row_index));
    // Column 1 is inside the wide emoji: snapped left to 0.
    assert_eq!(buffer.get_caret(), Position::new(0, 0));
    buffer.mutate_caret(|_| Position::new(99, 42));
    // Clamped to the last row and the line's end.
    assert_eq!(buffer.get_caret(), Position::new(3, 0));
}

#[test]
fn display_width_counts_wide_clusters_and_clamps() {
    let buffer = buffer_with_lines(&["a\u{1F600}b"]);
    let line = &buffer.get_lines()[0];
    assert_eq!(line.display_width_up_to(0), 0);
    assert_eq!(line.display_width_up_to(1), 1);
    assert_eq!(line.display_width_up_to(2), 3);
    assert_eq!(line.display_width_up_to(3), 4);
    // An out-of-range index clamps to the row's full width.
    assert_eq!(line.display_width_up_to(99), 4);
    assert_eq!(line.display_width(), 4);
}

#[test]
fn zero_width_char_insert_keeps_caret_column() {
    let mut buffer = buffer_with_lines(&["a"]);
    buffer.move_caret(CaretDirection::Right);
    buffer.insert_char('\u{0301}');
    assert_eq!(buffer.get_caret(), Position::new(1, 0));
}
