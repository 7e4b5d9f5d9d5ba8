//! Copy, cut and paste. Everything that computes — collecting the selected
//! text, joining it, splicing pasted text back in — is verified; only the
//! calls that reach the OS clipboard are trusted, and nothing is promised
//! of their success, since the clipboard belongs to the environment.

use vstd::prelude::*;
use copypasta_ext::prelude::ClipboardProvider;
use copypasta_ext::x11_fork::ClipboardContext;
use crate::seg::{SegView, segs_text, grapheme_split, pieces_of};
use crate::line::{clip_cols_spec, drop_cols_spec};
use crate::selection::SelectionMap;
use crate::units::SelectionRange;
use crate::editor_buffer::{EditorBuffer, spec_insert_pieces, clamped_caret};
use crate::history::SnapView;
use crate::doc::doc_wf;

verus! {

/// The clipboard was unreachable or refused the operation. Failures are
/// non-fatal: the operation is abandoned and the buffer is unaffected.
#[derive(Clone, Copy, PartialEq, Eq, Structural, Debug)]
pub struct ClipboardError;

/// Relies on copypasta_ext's `x11_fork::ClipboardContext`: `new` connects
/// to the display server and `set_contents` stores the string, each
/// reporting failure through a `Result`. Whether the call succeeds depends
/// on the environment, so nothing is stated of the outcome.
#[verifier::external_body]
fn clipboard_set_string(content: String) -> (r: bool)
{
    match ClipboardContext::new() {
        Ok(mut ctx) => ctx.set_contents(content).is_ok(),
        Err(_) => false,
    }
}

/// Relies on copypasta_ext's `x11_fork::ClipboardContext`: `new` connects
/// to the display server and `get_contents` reads the stored string. What
/// comes back depends on the environment, so nothing is stated of the
/// outcome.
#[verifier::external_body]
fn clipboard_get_string() -> (r: Option<String>)
{
    match ClipboardContext::new() {
        Ok(mut ctx) => ctx.get_contents().ok(),
        Err(_) => None,
    }
}

/// The selected text, one entry per selected row that exists in the
/// document, in ascending row order, each clipped to its row's bounds.
pub open spec fn selected_texts(
    doc: Seq<Seq<SegView>>,
    entries: Seq<(usize, SelectionRange)>,
) -> Seq<Seq<char>>
    decreases entries.len(),
{
    if entries.len() == 0 {
        Seq::empty()
    } else {
        let head = entries[0];
        let rest = selected_texts(doc, entries.drop_first());
        if head.0 < doc.len() {
            seq![
                segs_text(
                    clip_cols_spec(
                        doc[head.0 as int],
                        head.1.start_display_col_index as int,
                        head.1.end_display_col_index as int,
                    ),
                ),
            ] + rest
        } else {
            rest
        }
    }
}

/// Lines joined with a newline between each pair.
pub open spec fn join_with_newlines(texts: Seq<Seq<char>>) -> Seq<char>
    decreases texts.len(),
{
    if texts.len() == 0 {
        Seq::empty()
    } else if texts.len() == 1 {
        texts[0]
    } else {
        texts[0] + seq!['\n'] + join_with_newlines(texts.drop_first())
    }
}

/// Collects the selected text of every selected row, in row order.
pub fn selected_text_lines(buffer: &EditorBuffer) -> (r: Vec<String>)
    requires
        buffer.wf(),
    ensures
        r.deep_view() == selected_texts(buffer.doc(), buffer.selection_map.entries@),
{
    let ghost doc = buffer.doc();
    let ghost entries = buffer.selection_map.entries@;
    let mut r: Vec<String> = Vec::new();
    let n = buffer.selection_map.len();
    proof {
        assert(entries.skip(0) =~= entries);
    }
    for i in 0..n
        invariant
            buffer.wf(),
            doc == buffer.doc(),
            entries == buffer.selection_map.entries@,
            n == entries.len(),
            selected_texts(doc, entries) =~= r.deep_view() + selected_texts(
                doc,
                entries.skip(i as int),
            ),
    {
        let ghost rem = entries.skip(i as int);
        let (row, range) = buffer.selection_map.entry_at(i);
        proof {
            assert(rem[0] == entries[i as int]);
            assert(rem.drop_first() =~= entries.skip(i + 1));
        }
        if row < buffer.lines.len() {
            let ghost d0 = r.deep_view();
            let text = buffer.lines[row].clip_to_range(range);
            r.push(text);
            proof {
                assert(r.deep_view() =~= d0.push(text@));
            }
        }
    }
    proof {
        assert(selected_texts(doc, entries.skip(n as int)) =~= Seq::<Seq<char>>::empty());
    }
    r
}

/// Joins lines with single newlines, as the clipboard stores them.
pub fn join_lines(lines: &Vec<String>) -> (r: String)
    ensures
        r@ == join_with_newlines(lines.deep_view()),
{
    let mut r = String::new();
    let n = lines.len();
    proof {
        reveal_strlit("\n");
        assert(lines.deep_view().skip(0) =~= lines.deep_view());
    }
    for i in 0..n
        invariant
            n == lines.len(),
            join_with_newlines(lines.deep_view()) =~= r@ + join_with_newlines(
                lines.deep_view().skip(i as int),
            ),
    {
        let ghost rem = lines.deep_view().skip(i as int);
        proof {
            assert(rem[0] == lines.deep_view()[i as int]);
            assert(rem.drop_first() =~= lines.deep_view().skip(i + 1));
        }
        r.append(lines[i].as_str());
        if i + 1 < n {
            r.append("\n");
            proof {
                reveal_strlit("\n");
                assert("\n"@ =~= seq!['\n']);
            }
        } else {
            proof {
                assert(rem.len() == 1);
            }
        }
    }
    proof {
        if n == 0 {
            assert(join_with_newlines(lines.deep_view()) =~= Seq::<char>::empty());
        }
    }
    r
}

/// Hands the given lines to the OS clipboard, joined with newlines. The
/// error reports only that the clipboard refused; the buffer is never
/// affected.
pub fn try_to_put_content_into_clipboard(lines: &Vec<String>) -> (r: Result<(), ClipboardError>)
{
    let content = join_lines(lines);
    if clipboard_set_string(content) {
        Ok(())
    } else {
        Err(ClipboardError)
    }
}

/// Reads the OS clipboard. What comes back depends on the environment.
pub fn try_to_get_content_from_clipboard() -> (r: Result<String, ClipboardError>)
{
    match clipboard_get_string() {
        Some(content) => Ok(content),
        None => Err(ClipboardError),
    }
}

/// Copies the selected text, in row order, to the clipboard. A clipboard
/// failure is absorbed; the buffer is untouched either way.
pub fn copy(buffer: &EditorBuffer)
    requires
        buffer.wf(),
{
    let lines = selected_text_lines(buffer);
    let _ = try_to_put_content_into_clipboard(&lines);
}

/// The document after the selected column ranges are removed from their
/// rows, in entry order.
pub open spec fn spec_delete_selected(
    doc: Seq<Seq<SegView>>,
    entries: Seq<(usize, SelectionRange)>,
) -> Seq<Seq<SegView>>
    decreases entries.len(),
{
    if entries.len() == 0 {
        doc
    } else {
        let head = entries[0];
        let doc2 = if head.0 < doc.len() {
            doc.update(
                head.0 as int,
                drop_cols_spec(
                    doc[head.0 as int],
                    head.1.start_display_col_index as int,
                    head.1.end_display_col_index as int,
                ),
            )
        } else {
            doc
        };
        spec_delete_selected(doc2, entries.drop_first())
    }
}

/// Cuts the selection: hands the selected text to the clipboard and, only
/// when the clipboard accepted it, removes the selected columns from each
/// selected row, clears the selection, re-validates the caret and records
/// the command in the history. A clipboard failure abandons the whole
/// operation and leaves the buffer — history included — unchanged.
pub fn cut(buffer: &mut EditorBuffer)
    requires
        old(buffer).wf(),
    ensures
        final(buffer).wf(),
        (*final(buffer) == *old(buffer)) || ({
            &&& final(buffer).doc() == spec_delete_selected(
                old(buffer).doc(),
                old(buffer).selection_map.entries@,
            )
            &&& final(buffer).caret == clamped_caret(final(buffer).doc(), old(buffer).caret)
            &&& final(buffer).selection_map@ == Map::<usize, SelectionRange>::empty()
            &&& final(buffer).scroll_offset == old(buffer).scroll_offset
            &&& final(buffer).maybe_file_extension == old(buffer).maybe_file_extension
            &&& history_records_command(
                old(buffer).history.views(),
                old(buffer).history.cursor as int,
                (SnapView {
                    doc: old(buffer).doc(),
                    caret: old(buffer).caret,
                    sel: old(buffer).selection_map@,
                }),
                final(buffer).history.views(),
                final(buffer).history.cursor as int,
                (SnapView {
                    doc: final(buffer).doc(),
                    caret: final(buffer).caret,
                    sel: final(buffer).selection_map@,
                }),
            )
        }),
{
    let selected = selected_text_lines(buffer);
    match try_to_put_content_into_clipboard(&selected) {
        Err(_) => {
            return ;
        },
        Ok(()) => {},
    }
    if buffer.history.is_empty() {
        buffer.push_history_snapshot();
    }
    let ghost hist_after_pre = buffer.history;
    let ghost doc0 = buffer.doc();
    let ghost entries = buffer.selection_map.entries@;
    let n = buffer.selection_map.len();
    proof {
        assert(entries.skip(0) =~= entries);
    }
    for i in 0..n
        invariant
            n == entries.len(),
            entries == buffer.selection_map.entries@,
            doc_wf(buffer.doc()),
            spec_delete_selected(doc0, entries) == spec_delete_selected(
                buffer.doc(),
                entries.skip(i as int),
            ),
            buffer.selection_map == old(buffer).selection_map,
            buffer.scroll_offset == old(buffer).scroll_offset,
            buffer.caret == old(buffer).caret,
            buffer.history == hist_after_pre,
            buffer.maybe_file_extension == old(buffer).maybe_file_extension,
            buffer.history.wf(),
            buffer.selection_map.wf(),
    {
        let ghost rem = entries.skip(i as int);
        let (row, range) = buffer.selection_map.entry_at(i);
        proof {
            assert(rem[0] == entries[i as int]);
            assert(rem.drop_first() =~= entries.skip(i + 1));
        }
        if row < buffer.lines.len() {
            let ghost d = buffer.doc();
            let mut l = buffer.lines.remove(row);
            l.retain_outside_cols(range.start_display_col_index, range.end_display_col_index);
            buffer.lines.insert(row, l);
            proof {
                assert(buffer.doc() =~= d.update(
                    row as int,
                    drop_cols_spec(
                        d[row as int],
                        range.start_display_col_index as int,
                        range.end_display_col_index as int,
                    ),
                ));
            }
        }
    }
    proof {
        assert(entries.skip(n as int) =~= Seq::<(usize, SelectionRange)>::empty());
    }
    buffer.selection_map = SelectionMap::new();
    buffer.validate_caret_position();
    buffer.push_history_snapshot();
}

/// Pastes the clipboard's text at the caret, splitting it on line breaks
/// exactly as string insertion does, and records the command in the
/// history. When the clipboard cannot be read the operation is abandoned
/// and the buffer — history included — is wholly unchanged.
pub fn paste(buffer: &mut EditorBuffer)
    requires
        old(buffer).wf(),
    ensures
        final(buffer).wf(),
        (*final(buffer) == *old(buffer)) || ({
            &&& final(buffer).scroll_offset == old(buffer).scroll_offset
            &&& final(buffer).selection_map == old(buffer).selection_map
            &&& final(buffer).maybe_file_extension == old(buffer).maybe_file_extension
            &&& exists|t: Seq<char>|
                (final(buffer).doc(), final(buffer).caret) == spec_insert_pieces(
                    old(buffer).doc(),
                    old(buffer).caret,
                    pieces_of(grapheme_split(t)),
                )
            &&& history_records_command(
                old(buffer).history.views(),
                old(buffer).history.cursor as int,
                (SnapView {
                    doc: old(buffer).doc(),
                    caret: old(buffer).caret,
                    sel: old(buffer).selection_map@,
                }),
                final(buffer).history.views(),
                final(buffer).history.cursor as int,
                (SnapView {
                    doc: final(buffer).doc(),
                    caret: final(buffer).caret,
                    sel: final(buffer).selection_map@,
                }),
            )
        }),
{
    match try_to_get_content_from_clipboard() {
        Ok(content) => {
            if buffer.history.is_empty() {
                buffer.push_history_snapshot();
            }
            let ghost t = content@;
            buffer.insert_str(content.as_str());
            proof {
                assert((buffer.doc(), buffer.caret) == spec_insert_pieces(
                    old(buffer).doc(),
                    old(buffer).caret,
                    pieces_of(grapheme_split(t)),
                ));
                assert(exists|t2: Seq<char>|
                    (buffer.doc(), buffer.caret) == spec_insert_pieces(
                        old(buffer).doc(),
                        old(buffer).caret,
                        pieces_of(grapheme_split(t2)),
                    ));
            }
            buffer.push_history_snapshot();
        },
        Err(_) => {},
    }
}

/// How one content-changing command changes the history: a fresh history
/// first records the pre-command state, then the redo tail is discarded
/// and the post-command state is appended, with the cursor on it.
pub open spec fn history_records_command(
    views0: Seq<SnapView>,
    cursor0: int,
    pre: SnapView,
    views2: Seq<SnapView>,
    cursor2: int,
    post: SnapView,
) -> bool {
    let views1 = if views0.len() == 0 {
        seq![pre]
    } else {
        views0
    };
    let cursor1: int = if views0.len() == 0 {
        0
    } else {
        cursor0
    };
    &&& views2 =~= views1.take(cursor1 + 1).push(post)
    &&& cursor2 == views2.len() - 1
}

} // verus!
