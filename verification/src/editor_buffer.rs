//! The editor buffer: owns the document lines, the caret, the scroll
//! offset, the per-row selections and the undo history. Every mutation
//! funnels through methods that re-establish the caret invariant, and each
//! method's contract states the new document and caret exactly, via the
//! spec-level transition functions in this module.

use vstd::prelude::*;
use crate::seg::{
    Seg, SegView, seg_from_char, char_render_width, seg_views_of_chunks, pieces_of,
    grapheme_split, is_newline_cluster, split_pieces, clone_segs, str_width_of, segs_of_str,
    lemma_split_pieces_nonempty,
};
use crate::col_math::{
    prefix_width, line_width, is_boundary, locate_index, snapped_col, locate_col,
    lemma_locate_boundary, lemma_locate_props, lemma_locate_unique, lemma_prefix_is_take_width,
    lemma_prefix_width_mono, lemma_prefix_width_agree, lemma_snapped_is_boundary, segs_view,
    nearest_valid_caret_col,
};
use crate::line::{Line, lemma_line_width_concat, lemma_line_width_concat3, lemma_line_width_split};
use crate::selection::SelectionMap;
use crate::units::{Position, SelectionRange, Size};
use crate::doc::{doc_view, doc_wf, caret_ok, lemma_zero_is_boundary};
use crate::history::{History, Snapshot, SnapView};
use crate::input_event::{InputEvent, KeyPress, Key, SpecialKey};

verus! {

/// The four caret movement directions.
#[derive(Clone, Copy, PartialEq, Eq, Structural, Debug)]
pub enum CaretDirection {
    Up,
    Down,
    Left,
    Right,
}

/// Commands that can be executed on an [`EditorBuffer`].
#[derive(Debug)]
pub enum EditorBufferCommand {
    InsertChar(char),
    InsertString(String),
    InsertNewLine,
    Delete,
    Backspace,
    MoveCaret(CaretDirection),
}

/// Stores the data for a single editor buffer.
#[derive(Debug)]
pub struct EditorBuffer {
    /// The document being edited, one entry per row.
    pub lines: Vec<Line>,
    /// The caret in display coordinates.
    pub caret: Position,
    /// The top-left display coordinate currently visible.
    pub scroll_offset: Position,
    /// The active selection on each row, if any.
    pub selection_map: SelectionMap,
    /// Snapshots for undo and redo.
    pub history: History,
    /// File extension used to pick a highlighting grammar; fixed at creation.
    pub maybe_file_extension: Option<String>,
}

/// A document with at least one row to insert into: inserting into an empty
/// document first materialises a single empty row.
pub open spec fn materialized(doc: Seq<Seq<SegView>>) -> Seq<Seq<SegView>> {
    if doc.len() == 0 {
        seq![Seq::<SegView>::empty()]
    } else {
        doc
    }
}

/// The document and caret after splicing `segs` into the caret's row at the
/// caret's cluster position. A splice that would make the row too wide to
/// measure is refused and only materialises the empty row.
pub open spec fn spec_insert_segs(
    doc: Seq<Seq<SegView>>,
    caret: Position,
    segs: Seq<SegView>,
) -> (Seq<Seq<SegView>>, Position) {
    let doc0 = materialized(doc);
    let row = caret.row_index as int;
    let l = doc0[row];
    if line_width(l) + line_width(segs) > usize::MAX {
        (doc0, caret)
    } else {
        let k = locate_index(l, caret.col_index as int);
        let l2 = l.take(k) + segs + l.skip(k);
        (
            doc0.update(row, l2),
            (Position {
                col_index: (caret.col_index + line_width(segs)) as usize,
                row_index: caret.row_index,
            }),
        )
    }
}

/// The document and caret after inserting one character: a line-break
/// character breaks the row exactly as string insertion would, and any
/// other character is spliced in as its own cluster.
pub open spec fn spec_insert_char(doc: Seq<Seq<SegView>>, caret: Position, c: char) -> (
    Seq<Seq<SegView>>,
    Position,
) {
    if c == '\n' {
        spec_insert_new_line(doc, caret)
    } else {
        spec_insert_segs(doc, caret, seq![char_seg(c)])
    }
}

/// The document and caret after removing the grapheme cluster immediately
/// before the caret, joining with the previous row when the caret sits at
/// column zero. A join that would make the row too wide is refused.
pub open spec fn spec_backspace(doc: Seq<Seq<SegView>>, caret: Position) -> (
    Seq<Seq<SegView>>,
    Position,
) {
    if doc.len() == 0 {
        (doc, caret)
    } else {
        let row = caret.row_index as int;
        let l = doc[row];
        if caret.col_index > 0 {
            let k = locate_index(l, caret.col_index as int);
            if k <= 0 {
                (doc, caret)
            } else {
                (
                    doc.update(row, l.remove(k - 1)),
                    (Position {
                        col_index: prefix_width(l, k - 1) as usize,
                        row_index: caret.row_index,
                    }),
                )
            }
        } else if caret.row_index > 0 {
            let prev = doc[row - 1];
            if line_width(prev) + line_width(l) > usize::MAX {
                (doc, caret)
            } else {
                (
                    doc.update(row - 1, prev + l).remove(row),
                    (Position {
                        col_index: line_width(prev) as usize,
                        row_index: (caret.row_index - 1) as usize,
                    }),
                )
            }
        } else {
            (doc, caret)
        }
    }
}

impl EditorBuffer {
    /// The mathematical value of the document.
    pub open spec fn doc(&self) -> Seq<Seq<SegView>> {
        doc_view(self.lines@)
    }

    /// The buffer invariant: rows measurable, caret on a cluster boundary
    /// of an existing row, selections sorted, history well formed.
    pub open spec fn wf(&self) -> bool {
        &&& doc_wf(self.doc())
        &&& caret_ok(self.doc(), self.caret)
        &&& self.selection_map.wf()
        &&& self.history.wf()
    }

    pub fn new() -> (r: EditorBuffer)
        ensures
            r.wf(),
            r.doc() =~= Seq::<Seq<SegView>>::empty(),
            r.caret == (Position { col_index: 0, row_index: 0 }),
            r.scroll_offset == (Position { col_index: 0, row_index: 0 }),
            r.selection_map@ == Map::<usize, SelectionRange>::empty(),
            r.history.views() =~= Seq::<SnapView>::empty(),
            r.maybe_file_extension is None,
    {
        EditorBuffer {
            lines: Vec::new(),
            caret: Position::new(0, 0),
            scroll_offset: Position::new(0, 0),
            selection_map: SelectionMap::new(),
            history: History::new(),
            maybe_file_extension: None,
        }
    }

    pub fn is_empty(&self) -> (r: bool)
        ensures
            r <==> self.doc().len() == 0,
    {
        self.lines.len() == 0
    }

    pub fn get_caret(&self) -> (r: Position)
        ensures
            r == self.caret,
    {
        self.caret
    }

    pub fn get_scroll_offset(&self) -> (r: Position)
        ensures
            r == self.scroll_offset,
    {
        self.scroll_offset
    }

    pub fn get_lines(&self) -> (r: &Vec<Line>)
        ensures
            r == &self.lines,
    {
        &self.lines
    }

    pub fn get_selection_map(&self) -> (r: &SelectionMap)
        ensures
            r == &self.selection_map,
    {
        &self.selection_map
    }

    /// Splices a run of segments in at the caret. The shared core of
    /// character and string insertion.
    fn insert_segs_at_caret(&mut self, segs: Vec<Seg>)
        requires
            old(self).wf(),
        ensures
            final(self).wf(),
            (final(self).doc(), final(self).caret) == spec_insert_segs(
                old(self).doc(),
                old(self).caret,
                segs_view(segs@),
            ),
            final(self).scroll_offset == old(self).scroll_offset,
            final(self).selection_map == old(self).selection_map,
            final(self).history == old(self).history,
            final(self).maybe_file_extension == old(self).maybe_file_extension,
    {
        let ghost doc_old = self.doc();
        let ghost ins = segs_view(segs@);
        if self.lines.len() == 0 {
            self.lines.push(Line::new());
            proof {
                assert(self.doc() =~= materialized(doc_old));
            }
        }
        let ghost doc0 = self.doc();
        proof {
            assert(doc0 =~= materialized(doc_old));
            lemma_zero_is_boundary(doc0[self.caret.row_index as int]);
        }
        let row = self.caret.row_index;
        let col = self.caret.col_index;
        let mut l = self.lines.remove(row);
        let ghost lv = l@;
        proof {
            assert(lv == doc0[row as int]);
            assert(is_boundary(lv, col as int));
            lemma_locate_boundary(lv, col as int);
        }
        let (k, _) = locate_col(&l.segs, col);
        let res = l.insert_segs_at(k, segs);
        let ghost lv2 = l@;
        match res {
            Some(w) => {
                proof {
                    lemma_locate_props(lv, col as int);
                    lemma_prefix_width_mono(lv, k as int, lv.len() as int);
                }
                self.caret = Position { col_index: col + w, row_index: row };
            },
            None => {},
        }
        self.lines.insert(row, l);
        proof {
            assert(final(self).doc() =~= doc0.update(row as int, lv2));
            if line_width(lv) + line_width(ins) <= usize::MAX {
                let k = locate_index(lv, col as int);
                assert(lv2 =~= lv.take(k) + ins + lv.skip(k));
                assert(final(self).doc() == spec_insert_segs(doc_old, old(self).caret, ins).0);
                // The caret stays on a boundary: the prefix up to and
                // including the spliced segments is exactly col + w wide.
                let n = ins.len() as int;
                assert(lv2.take(k + n) =~= lv.take(k) + ins);
                lemma_line_width_concat(lv.take(k), ins);
                lemma_prefix_is_take_width(lv, k);
                lemma_prefix_is_take_width(lv2, k + n);
                assert(prefix_width(lv2, k + n) == col + line_width(ins));
                assert(is_boundary(lv2, col as int + line_width(ins)));
            } else {
                assert(final(self).doc() =~= doc0);
            }
        }
    }

    /// Insert a character at the caret into the current line. A line
    /// break character breaks the line, exactly as string insertion
    /// splits its text on newlines.
    pub fn insert_char(&mut self, character: char)
        requires
            old(self).wf(),
        ensures
            final(self).wf(),
            (final(self).doc(), final(self).caret) == spec_insert_char(
                old(self).doc(),
                old(self).caret,
                character,
            ),
            final(self).scroll_offset == old(self).scroll_offset,
            final(self).selection_map == old(self).selection_map,
            final(self).history == old(self).history,
            final(self).maybe_file_extension == old(self).maybe_file_extension,
    {
        if character == '\n' {
            self.insert_new_line();
            return ;
        }
        let seg = seg_from_char(character);
        let mut segs: Vec<Seg> = Vec::new();
        segs.push(seg);
        proof {
            assert(segs_view(segs@) =~= seq![char_seg(character)]);
        }
        self.insert_segs_at_caret(segs);
    }

    /// Remove the grapheme cluster immediately before the caret, or join
    /// this row onto the previous one when the caret is at column zero.
    pub fn backspace(&mut self)
        requires
            old(self).wf(),
        ensures
            final(self).wf(),
            (final(self).doc(), final(self).caret) == spec_backspace(
                old(self).doc(),
                old(self).caret,
            ),
            final(self).scroll_offset == old(self).scroll_offset,
            final(self).selection_map == old(self).selection_map,
            final(self).history == old(self).history,
            final(self).maybe_file_extension == old(self).maybe_file_extension,
    {
        let ghost doc0 = self.doc();
        if self.lines.len() == 0 {
            return ;
        }
        let row = self.caret.row_index;
        let col = self.caret.col_index;
        if col > 0 {
            let mut l = self.lines.remove(row);
            let ghost lv = l@;
            proof {
                assert(lv == doc0[row as int]);
                lemma_locate_boundary(lv, col as int);
            }
            let (k, _) = locate_col(&l.segs, col);
            if k == 0 {
                self.lines.insert(row, l);
                proof {
                    assert(final(self).doc() =~= doc0);
                }
                return ;
            }
            let seg = l.remove_seg_at(k - 1);
            proof {
                assert(prefix_width(lv, k - 1) + lv[k - 1].width == prefix_width(lv, k as int));
            }
            self.caret = Position { col_index: col - seg.width, row_index: row };
            self.lines.insert(row, l);
            proof {
                let lv2 = lv.remove(k - 1);
                assert(final(self).doc() =~= doc0.update(row as int, lv2));
                lemma_prefix_width_agree(lv, lv2, k - 1);
                assert(is_boundary(lv2, prefix_width(lv, k - 1) as int));
                assert(line_width(lv2) <= line_width(lv)) by {
                    assert(lv =~= lv2.take(k - 1) + seq![lv[k - 1]] + lv2.skip(k - 1));
                    lemma_line_width_concat3(lv2.take(k - 1), seq![lv[k - 1]], lv2.skip(k - 1));
                    lemma_line_width_split(lv2, k - 1);
                }
            }
        } else if row > 0 {
            let l = self.lines.remove(row);
            let mut prev = self.lines.remove(row - 1);
            let ghost lv = l@;
            let ghost pv = prev@;
            proof {
                assert(lv == doc0[row as int]);
                assert(pv == doc0[row as int - 1]);
            }
            let w = prev.display_width();
            let ok = prev.append_line(&l);
            if ok {
                self.caret = Position { col_index: w, row_index: row - 1 };
                self.lines.insert(row - 1, prev);
                proof {
                    assert(final(self).doc() =~= doc0.update(row as int - 1, pv + lv).remove(
                        row as int,
                    ));
                    lemma_prefix_width_agree(pv + lv, pv, pv.len() as int);
                    lemma_prefix_is_take_width(pv + lv, pv.len() as int);
                    assert((pv + lv).take(pv.len() as int) =~= pv);
                    assert(is_boundary(pv + lv, line_width(pv) as int));
                }
            } else {
                self.lines.insert(row - 1, prev);
                self.lines.insert(row, l);
                proof {
                    assert(final(self).doc() =~= doc0);
                }
            }
        } else {
            proof {
                assert(final(self).doc() =~= doc0);
            }
        }
    }
}

/// The document and caret after breaking the caret's row in two at the
/// caret's cluster position; the caret moves to the start of the new row.
pub open spec fn spec_insert_new_line(doc: Seq<Seq<SegView>>, caret: Position) -> (
    Seq<Seq<SegView>>,
    Position,
) {
    let doc0 = materialized(doc);
    let row = caret.row_index as int;
    let l = doc0[row];
    let k = locate_index(l, caret.col_index as int);
    (
        doc0.update(row, l.take(k)).insert(row + 1, l.skip(k)),
        (Position { col_index: 0, row_index: (caret.row_index + 1) as usize }),
    )
}

/// The document and caret after removing the grapheme cluster at the caret,
/// joining the next row into this one when the caret sits at end of line.
/// The caret does not move. A join that would make the row too wide is
/// refused.
pub open spec fn spec_delete(doc: Seq<Seq<SegView>>, caret: Position) -> (
    Seq<Seq<SegView>>,
    Position,
) {
    if doc.len() == 0 {
        (doc, caret)
    } else {
        let row = caret.row_index as int;
        let l = doc[row];
        let k = locate_index(l, caret.col_index as int);
        if k < l.len() {
            (doc.update(row, l.remove(k)), caret)
        } else if row + 1 < doc.len() {
            let next = doc[row + 1];
            if line_width(l) + line_width(next) > usize::MAX {
                (doc, caret)
            } else {
                (doc.update(row, l + next).remove(row + 1), caret)
            }
        } else {
            (doc, caret)
        }
    }
}

/// The caret after one movement. Left and Right step one cluster and wrap
/// across line ends; Up and Down keep the display column where the adjacent
/// row allows it, snapping left onto a cluster boundary and clamping to the
/// row's end otherwise.
pub open spec fn spec_move_caret(
    doc: Seq<Seq<SegView>>,
    caret: Position,
    direction: CaretDirection,
) -> Position {
    if doc.len() == 0 {
        caret
    } else {
        let row = caret.row_index as int;
        let l = doc[row];
        match direction {
            CaretDirection::Left => {
                if caret.col_index > 0 {
                    let k = locate_index(l, caret.col_index as int);
                    if k <= 0 {
                        caret
                    } else {
                        Position {
                            col_index: prefix_width(l, k - 1) as usize,
                            row_index: caret.row_index,
                        }
                    }
                } else if caret.row_index > 0 {
                    Position {
                        col_index: line_width(doc[row - 1]) as usize,
                        row_index: (caret.row_index - 1) as usize,
                    }
                } else {
                    caret
                }
            },
            CaretDirection::Right => {
                let k = locate_index(l, caret.col_index as int);
                if k < l.len() {
                    Position {
                        col_index: prefix_width(l, k + 1) as usize,
                        row_index: caret.row_index,
                    }
                } else if row + 1 < doc.len() {
                    Position { col_index: 0, row_index: (caret.row_index + 1) as usize }
                } else {
                    caret
                }
            },
            CaretDirection::Up => {
                if caret.row_index == 0 {
                    caret
                } else {
                    Position {
                        col_index: snapped_col(doc[row - 1], caret.col_index as int) as usize,
                        row_index: (caret.row_index - 1) as usize,
                    }
                }
            },
            CaretDirection::Down => {
                if row + 1 >= doc.len() {
                    caret
                } else {
                    Position {
                        col_index: snapped_col(doc[row + 1], caret.col_index as int) as usize,
                        row_index: (caret.row_index + 1) as usize,
                    }
                }
            },
        }
    }
}

/// The caret a validation pass produces: the row clamped into the document
/// and the column snapped onto a cluster boundary of that row.
pub open spec fn clamped_caret(doc: Seq<Seq<SegView>>, caret: Position) -> Position {
    if doc.len() == 0 {
        Position { col_index: 0, row_index: 0 }
    } else {
        let row = if caret.row_index < doc.len() {
            caret.row_index as int
        } else {
            doc.len() - 1
        };
        Position {
            col_index: snapped_col(doc[row], caret.col_index as int) as usize,
            row_index: row as usize,
        }
    }
}

impl EditorBuffer {
    /// Breaks the caret's row in two at the caret.
    pub fn insert_new_line(&mut self)
        requires
            old(self).wf(),
        ensures
            final(self).wf(),
            (final(self).doc(), final(self).caret) == spec_insert_new_line(
                old(self).doc(),
                old(self).caret,
            ),
            final(self).scroll_offset == old(self).scroll_offset,
            final(self).selection_map == old(self).selection_map,
            final(self).history == old(self).history,
            final(self).maybe_file_extension == old(self).maybe_file_extension,
    {
        let ghost doc_old = self.doc();
        if self.lines.len() == 0 {
            self.lines.push(Line::new());
            proof {
                assert(self.doc() =~= materialized(doc_old));
            }
        }
        let ghost doc0 = self.doc();
        proof {
            assert(doc0 =~= materialized(doc_old));
            lemma_zero_is_boundary(doc0[self.caret.row_index as int]);
        }
        let row = self.caret.row_index;
        let col = self.caret.col_index;
        let mut l = self.lines.remove(row);
        let ghost lv = l@;
        proof {
            assert(lv == doc0[row as int]);
            lemma_locate_boundary(lv, col as int);
        }
        let (k, _) = locate_col(&l.segs, col);
        let tail = l.split_off_at(k);
        self.lines.insert(row, l);
        self.lines.insert(row + 1, tail);
        self.caret = Position { col_index: 0, row_index: row + 1 };
        proof {
            assert(final(self).doc() =~= doc0.update(row as int, lv.take(k as int)).insert(
                row as int + 1,
                lv.skip(k as int),
            ));
            lemma_zero_is_boundary(lv.skip(k as int));
        }
    }

    /// Removes the grapheme cluster at the caret, or joins the next row
    /// into this one when the caret is at end of line. The caret stays.
    pub fn delete(&mut self)
        requires
            old(self).wf(),
        ensures
            final(self).wf(),
            (final(self).doc(), final(self).caret) == spec_delete(old(self).doc(), old(self).caret),
            final(self).scroll_offset == old(self).scroll_offset,
            final(self).selection_map == old(self).selection_map,
            final(self).history == old(self).history,
            final(self).maybe_file_extension == old(self).maybe_file_extension,
    {
        let ghost doc0 = self.doc();
        if self.lines.len() == 0 {
            return ;
        }
        let row = self.caret.row_index;
        let col = self.caret.col_index;
        let mut l = self.lines.remove(row);
        let ghost lv = l@;
        proof {
            assert(lv == doc0[row as int]);
            lemma_locate_boundary(lv, col as int);
            lemma_locate_props(lv, col as int);
        }
        let (k, _) = locate_col(&l.segs, col);
        if k < l.segs.len() {
            let _ = l.remove_seg_at(k);
            self.lines.insert(row, l);
            proof {
                let lv2 = lv.remove(k as int);
                assert(final(self).doc() =~= doc0.update(row as int, lv2));
                lemma_prefix_width_agree(lv, lv2, k as int);
                assert(is_boundary(lv2, col as int));
            }
        } else if row < self.lines.len() {
            // With the caret's row taken out, a line at `row` is the next
            // row of the document: join it into this one.
            let next = self.lines.remove(row);
            let ghost nv = next@;
            proof {
                assert(nv == doc0[row as int + 1]);
            }
            let ok = l.append_line(&next);
            if ok {
                self.lines.insert(row, l);
                proof {
                    assert(final(self).doc() =~= doc0.update(row as int, lv + nv).remove(
                        row as int + 1,
                    ));
                    lemma_prefix_width_agree(lv + nv, lv, k as int);
                    assert(is_boundary(lv + nv, col as int));
                }
            } else {
                self.lines.insert(row, l);
                self.lines.insert(row + 1, next);
                proof {
                    assert(final(self).doc() =~= doc0);
                }
            }
        } else {
            self.lines.insert(row, l);
            proof {
                assert(final(self).doc() =~= doc0);
            }
        }
    }

    /// Move one grapheme cluster left or right, or one row up or down.
    /// Scroll-offset recomputation follows wherever the viewport is known;
    /// the engine performs it after every applied event.
    pub fn move_caret(&mut self, direction: CaretDirection)
        requires
            old(self).wf(),
        ensures
            final(self).wf(),
            final(self).doc() == old(self).doc(),
            final(self).caret == spec_move_caret(old(self).doc(), old(self).caret, direction),
            final(self).lines == old(self).lines,
            final(self).scroll_offset == old(self).scroll_offset,
            final(self).selection_map == old(self).selection_map,
            final(self).history == old(self).history,
            final(self).maybe_file_extension == old(self).maybe_file_extension,
    {
        let ghost doc0 = self.doc();
        if self.lines.len() == 0 {
            return ;
        }
        let row = self.caret.row_index;
        let col = self.caret.col_index;
        let ghost lv = doc0[row as int];
        match direction {
            CaretDirection::Left => {
                if col > 0 {
                    proof {
                        lemma_locate_boundary(lv, col as int);
                    }
                    let (k, _) = locate_col(&self.lines[row].segs, col);
                    if k > 0 {
                        let w = self.lines[row].segs[k - 1].width;
                        proof {
                            assert(prefix_width(lv, k - 1) + lv[k - 1].width == prefix_width(
                                lv,
                                k as int,
                            ));
                        }
                        self.caret = Position { col_index: col - w, row_index: row };
                        proof {
                            assert(is_boundary(lv, prefix_width(lv, k - 1) as int));
                        }
                    }
                } else if row > 0 {
                    proof {
                        assert(line_width(doc0[row as int - 1]) <= usize::MAX);
                    }
                    let w = self.lines[row - 1].display_width();
                    self.caret = Position { col_index: w, row_index: row - 1 };
                    proof {
                        assert(is_boundary(doc0[row as int - 1], w as int)) by {
                            assert(prefix_width(doc0[row as int - 1], doc0[row as int - 1].len() as int)
                                == w);
                        }
                    }
                }
            },
            CaretDirection::Right => {
                proof {
                    lemma_locate_boundary(lv, col as int);
                    lemma_locate_props(lv, col as int);
                }
                let (k, _) = locate_col(&self.lines[row].segs, col);
                if k < self.lines[row].segs.len() {
                    proof {
                        lemma_prefix_width_mono(lv, k + 1, lv.len() as int);
                        assert(prefix_width(lv, k + 1) == prefix_width(lv, k as int) + lv[k as int].width);
                    }
                    let w = self.lines[row].segs[k].width;
                    self.caret = Position { col_index: col + w, row_index: row };
                    proof {
                        assert(is_boundary(lv, col + w));
                    }
                } else if row + 1 < self.lines.len() {
                    self.caret = Position { col_index: 0, row_index: row + 1 };
                    proof {
                        lemma_zero_is_boundary(doc0[row as int + 1]);
                    }
                }
            },
            CaretDirection::Up => {
                if row > 0 {
                    let c = nearest_valid_caret_col(&self.lines[row - 1].segs, col);
                    self.caret = Position { col_index: c, row_index: row - 1 };
                }
            },
            CaretDirection::Down => {
                if row + 1 < self.lines.len() {
                    let c = nearest_valid_caret_col(&self.lines[row + 1].segs, col);
                    self.caret = Position { col_index: c, row_index: row + 1 };
                }
            },
        }
    }

    /// Clamps the caret's row into the document and snaps its column onto a
    /// cluster boundary. Runs unconditionally after every funnelled
    /// mutation, so the caret invariant is enforced in exactly one place.
    pub(crate) fn validate_caret_position(&mut self)
        requires
            doc_wf(old(self).doc()),
        ensures
            final(self).lines == old(self).lines,
            final(self).caret == clamped_caret(old(self).doc(), old(self).caret),
            caret_ok(final(self).doc(), final(self).caret),
            final(self).scroll_offset == old(self).scroll_offset,
            final(self).selection_map == old(self).selection_map,
            final(self).history == old(self).history,
            final(self).maybe_file_extension == old(self).maybe_file_extension,
    {
        if self.lines.len() == 0 {
            self.caret = Position { col_index: 0, row_index: 0 };
            return ;
        }
        let row = if self.caret.row_index < self.lines.len() {
            self.caret.row_index
        } else {
            self.lines.len() - 1
        };
        let col = nearest_valid_caret_col(&self.lines[row].segs, self.caret.col_index);
        self.caret = Position { col_index: col, row_index: row };
    }
}

/// The one-cluster segment an inserted character becomes.
pub open spec fn char_seg(c: char) -> SegView {
    SegView { text: seq![c], width: char_render_width(c) }
}

/// The document and caret after inserting a multi-line text: each piece is
/// spliced into the current row, and every piece but the last is followed
/// by a line break.
pub open spec fn spec_insert_pieces(
    doc: Seq<Seq<SegView>>,
    caret: Position,
    pieces: Seq<Seq<SegView>>,
) -> (Seq<Seq<SegView>>, Position)
    decreases pieces.len(),
{
    if pieces.len() == 0 {
        (doc, caret)
    } else {
        let first = spec_insert_segs(doc, caret, pieces[0]);
        if pieces.len() == 1 {
            first
        } else {
            let broken = spec_insert_new_line(first.0, first.1);
            spec_insert_pieces(broken.0, broken.1, pieces.drop_first())
        }
    }
}

/// The document and caret a command produces.
pub open spec fn spec_apply_command(
    doc: Seq<Seq<SegView>>,
    caret: Position,
    command: EditorBufferCommand,
) -> (Seq<Seq<SegView>>, Position) {
    match command {
        EditorBufferCommand::InsertChar(c) => spec_insert_char(doc, caret, c),
        EditorBufferCommand::InsertString(s) => spec_insert_pieces(
            doc,
            caret,
            pieces_of(grapheme_split(s@)),
        ),
        EditorBufferCommand::InsertNewLine => spec_insert_new_line(doc, caret),
        EditorBufferCommand::Delete => spec_delete(doc, caret),
        EditorBufferCommand::Backspace => spec_backspace(doc, caret),
        EditorBufferCommand::MoveCaret(d) => (doc, spec_move_caret(doc, caret, d)),
    }
}

/// The document and caret after a whole command sequence.
pub open spec fn spec_apply_commands(
    doc: Seq<Seq<SegView>>,
    caret: Position,
    commands: Seq<EditorBufferCommand>,
) -> (Seq<Seq<SegView>>, Position)
    decreases commands.len(),
{
    if commands.len() == 0 {
        (doc, caret)
    } else {
        let first = spec_apply_command(doc, caret, commands[0]);
        spec_apply_commands(first.0, first.1, commands.drop_first())
    }
}

/// One scroll axis adjusted by the minimum amount that brings `pos` into
/// the window of `count` cells starting at `offset`.
pub open spec fn scrolled_axis(offset: usize, pos: usize, count: usize) -> usize {
    if count == 0 {
        offset
    } else if pos < offset {
        pos
    } else if pos >= offset + count {
        (pos - (count - 1)) as usize
    } else {
        offset
    }
}

impl EditorBuffer {
    /// Insert a string at the caret, splitting it on line breaks.
    pub fn insert_str(&mut self, chunk: &str)
        requires
            old(self).wf(),
        ensures
            final(self).wf(),
            (final(self).doc(), final(self).caret) == spec_insert_pieces(
                old(self).doc(),
                old(self).caret,
                pieces_of(grapheme_split(chunk@)),
            ),
            final(self).scroll_offset == old(self).scroll_offset,
            final(self).selection_map == old(self).selection_map,
            final(self).history == old(self).history,
            final(self).maybe_file_extension == old(self).maybe_file_extension,
    {
        let segs = segs_of_str(chunk);
        let ghost chunks = grapheme_split(chunk@);
        let nl = "\n".to_owned();
        let crnl = "\r\n".to_owned();
        proof {
            reveal_strlit("\n");
            reveal_strlit("\r\n");
            assert(nl@ =~= seq!['\n']);
            assert(crnl@ =~= seq!['\r', '\n']);
        }
        let mut pieces: Vec<Vec<Seg>> = Vec::new();
        let mut cur: Vec<Seg> = Vec::new();
        let n = segs.len();
        for i in 0..n
            invariant
                n == segs.len(),
                segs@.map_values(|g: Seg| g@) == seg_views_of_chunks(chunks),
                chunks.len() == n,
                nl@ == seq!['\n'],
                crnl@ == seq!['\r', '\n'],
                split_pieces(chunks.take(i as int)).len() == pieces@.len() + 1,
                forall|j: int|
                    0 <= j < pieces@.len() ==> (#[trigger] pieces@[j])@.map_values(|g: Seg| g@)
                        == seg_views_of_chunks(split_pieces(chunks.take(i as int))[j]),
                cur@.map_values(|g: Seg| g@) == seg_views_of_chunks(
                    split_pieces(chunks.take(i as int)).last(),
                ),
        {
            let ghost pre = chunks.take(i as int);
            let ghost now = chunks.take(i + 1);
            proof {
                assert(now.drop_last() =~= pre);
                assert(now.last() == chunks[i as int]);
                assert(segs@.map_values(|g: Seg| g@)[i as int] == seg_views_of_chunks(chunks)[i as int]);
                assert(segs@[i as int]@.text == chunks[i as int]);
                lemma_split_pieces_nonempty(pre);
            }
            let is_nl = segs[i].text == nl || segs[i].text == crnl;
            proof {
                assert(is_nl == is_newline_cluster(chunks[i as int]));
            }
            if is_nl {
                pieces.push(cur);
                cur = Vec::new();
                proof {
                    assert(split_pieces(now) == split_pieces(pre).push(Seq::empty()));
                    assert(cur@.map_values(|g: Seg| g@) =~= seg_views_of_chunks(
                        split_pieces(now).last(),
                    ));
                    assert forall|j: int| 0 <= j < pieces@.len() implies (
                    #[trigger] pieces@[j])@.map_values(|g: Seg| g@) == seg_views_of_chunks(
                        split_pieces(now)[j],
                    ) by {
                        assert(split_pieces(now)[j] == split_pieces(pre)[j]);
                    }
                }
            } else {
                let ghost cur0 = cur@.map_values(|g: Seg| g@);
                cur.push(segs[i].clone_seg());
                proof {
                    let p = split_pieces(pre);
                    assert(split_pieces(now) == p.update(
                        p.len() - 1,
                        p.last().push(chunks[i as int]),
                    ));
                    assert(cur@.map_values(|g: Seg| g@) =~= cur0.push(segs@[i as int]@));
                    assert(seg_views_of_chunks(p.last().push(chunks[i as int])) =~= seg_views_of_chunks(
                        p.last(),
                    ).push(SegView { text: chunks[i as int], width: str_width_of(chunks[i as int]) }));
                    assert(segs@[i as int]@ == (SegView {
                        text: chunks[i as int],
                        width: str_width_of(chunks[i as int]),
                    }));
                    assert forall|j: int| 0 <= j < pieces@.len() implies (
                    #[trigger] pieces@[j])@.map_values(|g: Seg| g@) == seg_views_of_chunks(
                        split_pieces(now)[j],
                    ) by {
                        assert(split_pieces(now)[j] == split_pieces(pre)[j]);
                    }
                }
            }
        }
        pieces.push(cur);
        proof {
            assert(chunks.take(n as int) =~= chunks);
        }
        let ghost all = pieces_of(chunks);
        proof {
            assert(all.len() == pieces@.len());
        }
        let ghost doc0 = self.doc();
        let ghost caret0 = self.caret;
        proof {
            assert(all.skip(0) =~= all);
        }
        let m = pieces.len();
        for j in 0..m
            invariant
                m == pieces.len(),
                m == all.len(),
                forall|jj: int|
                    0 <= jj < all.len() ==> (#[trigger] pieces@[jj])@.map_values(|g: Seg| g@)
                        == all[jj],
                self.wf(),
                spec_insert_pieces(doc0, caret0, all) == spec_insert_pieces(
                    self.doc(),
                    self.caret,
                    all.skip(j as int),
                ),
                self.scroll_offset == old(self).scroll_offset,
                self.selection_map == old(self).selection_map,
                self.history == old(self).history,
                self.maybe_file_extension == old(self).maybe_file_extension,
        {
            let ghost rem = all.skip(j as int);
            let p = clone_segs(&pieces[j]);
            proof {
                assert(rem[0] == all[j as int]);
                assert(segs_view(p@) == all[j as int]);
            }
            self.insert_segs_at_caret(p);
            if j + 1 < m {
                self.insert_new_line();
            }
            proof {
                assert(rem.drop_first() =~= all.skip(j + 1));
            }
        }
        proof {
            assert(all.skip(m as int) =~= Seq::<Seq<SegView>>::empty());
        }
    }

    /// Applies one editing command to the buffer.
    pub fn apply_command(&mut self, command: EditorBufferCommand)
        requires
            old(self).wf(),
        ensures
            final(self).wf(),
            (final(self).doc(), final(self).caret) == spec_apply_command(
                old(self).doc(),
                old(self).caret,
                command,
            ),
            final(self).scroll_offset == old(self).scroll_offset,
            final(self).selection_map == old(self).selection_map,
            final(self).history == old(self).history,
            final(self).maybe_file_extension == old(self).maybe_file_extension,
    {
        match command {
            EditorBufferCommand::InsertChar(character) => self.insert_char(character),
            EditorBufferCommand::InsertNewLine => self.insert_new_line(),
            EditorBufferCommand::Delete => self.delete(),
            EditorBufferCommand::Backspace => self.backspace(),
            EditorBufferCommand::MoveCaret(direction) => self.move_caret(direction),
            EditorBufferCommand::InsertString(string) => self.insert_str(string.as_str()),
        }
    }

    /// Applies a command sequence in order.
    pub fn apply_commands(&mut self, commands: Vec<EditorBufferCommand>)
        requires
            old(self).wf(),
        ensures
            final(self).wf(),
            (final(self).doc(), final(self).caret) == spec_apply_commands(
                old(self).doc(),
                old(self).caret,
                commands@,
            ),
            final(self).scroll_offset == old(self).scroll_offset,
            final(self).selection_map == old(self).selection_map,
            final(self).history == old(self).history,
            final(self).maybe_file_extension == old(self).maybe_file_extension,
    {
        let ghost all = commands@;
        let ghost doc0 = self.doc();
        let ghost caret0 = self.caret;
        let mut rest = commands;
        loop
            invariant
                self.wf(),
                spec_apply_commands(doc0, caret0, all) == spec_apply_commands(
                    self.doc(),
                    self.caret,
                    rest@,
                ),
                self.scroll_offset == old(self).scroll_offset,
                self.selection_map == old(self).selection_map,
                self.history == old(self).history,
                self.maybe_file_extension == old(self).maybe_file_extension,
            ensures
                rest@.len() == 0,
            decreases rest@.len(),
        {
            if rest.len() == 0 {
                break;
            }
            let ghost rem = rest@;
            let command = rest.remove(0);
            proof {
                assert(rest@ =~= rem.drop_first());
            }
            self.apply_command(command);
        }
    }

    /// Steps the buffer back to the previous history snapshot, or leaves it
    /// unchanged with nothing to undo.
    pub fn undo(&mut self)
        requires
            old(self).wf(),
        ensures
            final(self).wf(),
            old(self).history.can_undo() ==> {
                let snap = old(self).history.views()[old(self).history.cursor - 1];
                &&& final(self).doc() == snap.doc
                &&& final(self).caret == snap.caret
                &&& final(self).selection_map@ == snap.sel
                &&& final(self).history.views() == old(self).history.views()
                &&& final(self).history.cursor == old(self).history.cursor - 1
            },
            !old(self).history.can_undo() ==> *final(self) == *old(self),
            final(self).scroll_offset == old(self).scroll_offset,
            final(self).maybe_file_extension == old(self).maybe_file_extension,
    {
        match self.history.undo() {
            Some(snap) => {
                let Snapshot { lines, caret, selection } = snap;
                self.lines = lines;
                self.caret = caret;
                self.selection_map = selection;
            },
            None => {},
        }
    }

    /// Steps the buffer forward to the next history snapshot, or leaves it
    /// unchanged with nothing to redo.
    pub fn redo(&mut self)
        requires
            old(self).wf(),
        ensures
            final(self).wf(),
            old(self).history.can_redo() ==> {
                let snap = old(self).history.views()[old(self).history.cursor + 1];
                &&& final(self).doc() == snap.doc
                &&& final(self).caret == snap.caret
                &&& final(self).selection_map@ == snap.sel
                &&& final(self).history.views() == old(self).history.views()
                &&& final(self).history.cursor == old(self).history.cursor + 1
            },
            !old(self).history.can_redo() ==> *final(self) == *old(self),
            final(self).scroll_offset == old(self).scroll_offset,
            final(self).maybe_file_extension == old(self).maybe_file_extension,
    {
        match self.history.redo() {
            Some(snap) => {
                let Snapshot { lines, caret, selection } = snap;
                self.lines = lines;
                self.caret = caret;
                self.selection_map = selection;
            },
            None => {},
        }
    }

    /// Takes a snapshot of the current content, caret and selection and
    /// pushes it onto the history, discarding any redo entries.
    pub fn push_history_snapshot(&mut self)
        requires
            old(self).wf(),
        ensures
            final(self).wf(),
            final(self).history.views() =~= (if old(self).history.views().len() == 0 {
                Seq::<SnapView>::empty()
            } else {
                old(self).history.views().take(old(self).history.cursor + 1)
            }).push(
                (SnapView {
                    doc: old(self).doc(),
                    caret: old(self).caret,
                    sel: old(self).selection_map@,
                }),
            ),
            final(self).history.cursor == final(self).history.views().len() - 1,
            final(self).doc() == old(self).doc(),
            final(self).caret == old(self).caret,
            final(self).lines == old(self).lines,
            final(self).selection_map == old(self).selection_map,
            final(self).scroll_offset == old(self).scroll_offset,
            final(self).maybe_file_extension == old(self).maybe_file_extension,
    {
        let snap = Snapshot {
            lines: crate::doc::clone_doc(&self.lines),
            caret: self.caret,
            selection: self.selection_map.clone_map(),
        };
        proof {
            assert(snap@ =~= (SnapView {
                doc: self.doc(),
                caret: self.caret,
                sel: self.selection_map@,
            }));
        }
        self.history.push_snapshot(snap);
    }

    /// Hands the lines and caret to the mutator and re-validates the caret
    /// afterwards, so the caret invariant is enforced exactly once per
    /// mutation. The mutator must keep every row narrow enough to measure.
    pub fn mutate_lines<F: FnOnce(Vec<Line>, Position) -> (Vec<Line>, Position)>(
        &mut self,
        mutator: F,
    )
        requires
            old(self).wf(),
            mutator.requires((old(self).lines, old(self).caret)),
            forall|args: (Vec<Line>, Position), out: (Vec<Line>, Position)|
                #[trigger] mutator.ensures(args, out) ==> doc_wf(doc_view(out.0@)),
        ensures
            final(self).wf(),
            exists|out: (Vec<Line>, Position)|
                {
                    &&& #[trigger] mutator.ensures((old(self).lines, old(self).caret), out)
                    &&& final(self).doc() == doc_view(out.0@)
                    &&& final(self).caret == clamped_caret(doc_view(out.0@), out.1)
                },
            final(self).scroll_offset == old(self).scroll_offset,
            final(self).selection_map == old(self).selection_map,
            final(self).history == old(self).history,
            final(self).maybe_file_extension == old(self).maybe_file_extension,
    {
        let mut lines: Vec<Line> = Vec::new();
        core::mem::swap(&mut lines, &mut self.lines);
        let (lines2, caret2) = mutator(lines, self.caret);
        self.lines = lines2;
        self.caret = caret2;
        self.validate_caret_position();
    }

    /// Hands the caret to the mutator and re-validates it afterwards.
    pub fn mutate_caret<F: FnOnce(Position) -> Position>(&mut self, mutator: F)
        requires
            old(self).wf(),
            mutator.requires((old(self).caret,)),
        ensures
            final(self).wf(),
            exists|out: Position|
                {
                    &&& #[trigger] mutator.ensures((old(self).caret,), out)
                    &&& final(self).caret == clamped_caret(old(self).doc(), out)
                },
            final(self).lines == old(self).lines,
            final(self).scroll_offset == old(self).scroll_offset,
            final(self).selection_map == old(self).selection_map,
            final(self).history == old(self).history,
            final(self).maybe_file_extension == old(self).maybe_file_extension,
    {
        let caret2 = mutator(self.caret);
        self.caret = caret2;
        self.validate_caret_position();
    }

    /// Scrolls by the minimum amount that brings the caret back into the
    /// viewport.
    pub fn adjust_scroll(&mut self, viewport: Size)
        requires
            old(self).wf(),
        ensures
            final(self).wf(),
            final(self).scroll_offset.col_index == scrolled_axis(
                old(self).scroll_offset.col_index,
                old(self).caret.col_index,
                viewport.col_count,
            ),
            final(self).scroll_offset.row_index == scrolled_axis(
                old(self).scroll_offset.row_index,
                old(self).caret.row_index,
                viewport.row_count,
            ),
            viewport.col_count > 0 ==> final(self).scroll_offset.col_index
                <= final(self).caret.col_index < final(self).scroll_offset.col_index
                + viewport.col_count,
            viewport.row_count > 0 ==> final(self).scroll_offset.row_index
                <= final(self).caret.row_index < final(self).scroll_offset.row_index
                + viewport.row_count,
            final(self).lines == old(self).lines,
            final(self).caret == old(self).caret,
            final(self).selection_map == old(self).selection_map,
            final(self).history == old(self).history,
            final(self).maybe_file_extension == old(self).maybe_file_extension,
    {
        let col = scroll_one_axis(self.scroll_offset.col_index, self.caret.col_index, viewport.col_count);
        let row = scroll_one_axis(self.scroll_offset.row_index, self.caret.row_index, viewport.row_count);
        self.scroll_offset = Position { col_index: col, row_index: row };
    }

    pub fn get_maybe_file_extension(&self) -> (r: Option<&String>)
        ensures
            r == match self.maybe_file_extension {
                Some(ref ext) => Some(ext),
                None => Option::<&String>::None,
            },
    {
        match self.maybe_file_extension {
            Some(ref ext) => Some(ext),
            None => None,
        }
    }

    /// A fresh buffer whose highlighting grammar is picked by the given
    /// file extension.
    pub fn new_with_file_extension(maybe_file_extension: Option<String>) -> (r: EditorBuffer)
        ensures
            r.wf(),
            r.doc() =~= Seq::<Seq<SegView>>::empty(),
            r.caret == (Position { col_index: 0, row_index: 0 }),
            r.scroll_offset == (Position { col_index: 0, row_index: 0 }),
            r.selection_map@ == Map::<usize, SelectionRange>::empty(),
            r.history.views() =~= Seq::<SnapView>::empty(),
            r.maybe_file_extension == maybe_file_extension,
    {
        let mut r = EditorBuffer::new();
        r.maybe_file_extension = maybe_file_extension;
        r
    }

    /// Replaces the whole document, resetting caret, scroll, selection and
    /// history, as when a buffer is created pre-populated. A row too wide
    /// to measure is replaced by an empty row.
    pub fn set_lines(&mut self, lines: &Vec<String>)
        ensures
            final(self).wf(),
            final(self).doc().len() == lines@.len(),
            forall|i: int|
                0 <= i < lines@.len() ==> #[trigger] final(self).doc()[i] == (
                if line_width(seg_views_of_chunks(grapheme_split(lines@[i]@))) <= usize::MAX {
                    seg_views_of_chunks(grapheme_split(lines@[i]@))
                } else {
                    Seq::<SegView>::empty()
                }),
            final(self).caret == (Position { col_index: 0, row_index: 0 }),
            final(self).scroll_offset == (Position { col_index: 0, row_index: 0 }),
            final(self).selection_map@ == Map::<usize, SelectionRange>::empty(),
            final(self).history.views() =~= Seq::<SnapView>::empty(),
            final(self).maybe_file_extension == old(self).maybe_file_extension,
    {
        let mut new_lines: Vec<Line> = Vec::new();
        let n = lines.len();
        for i in 0..n
            invariant
                n == lines.len(),
                new_lines@.len() == i,
                forall|j: int|
                    0 <= j < i ==> #[trigger] new_lines@[j]@ == (
                    if line_width(seg_views_of_chunks(grapheme_split(lines@[j]@))) <= usize::MAX {
                        seg_views_of_chunks(grapheme_split(lines@[j]@))
                    } else {
                        Seq::<SegView>::empty()
                    }),
                forall|j: int| 0 <= j < i ==> line_width(#[trigger] new_lines@[j]@) <= usize::MAX,
        {
            let segs = segs_of_str(lines[i].as_str());
            match crate::line::segs_total_width(&segs) {
                Some(_) => {
                    let l = Line { segs };
                    proof {
                        assert(l@ == seg_views_of_chunks(grapheme_split(lines@[i as int]@)));
                    }
                    new_lines.push(l);
                },
                None => {
                    new_lines.push(Line::new());
                },
            }
        }
        self.lines = new_lines;
        self.caret = Position { col_index: 0, row_index: 0 };
        self.scroll_offset = Position { col_index: 0, row_index: 0 };
        self.selection_map = SelectionMap::new();
        self.history = History::new();
        proof {
            if self.doc().len() > 0 {
                lemma_zero_is_boundary(self.doc()[0]);
            }
        }
    }
}

/// One scroll axis, adjusted by the minimum amount that brings `pos` into
/// view.
fn scroll_one_axis(offset: usize, pos: usize, count: usize) -> (r: usize)
    ensures
        r == scrolled_axis(offset, pos, count),
        count > 0 ==> r <= pos < r + count,
{
    if count == 0 {
        offset
    } else if pos < offset {
        pos
    } else if count <= usize::MAX - offset && pos >= offset + count {
        pos - (count - 1)
    } else {
        offset
    }
}

/// The command a recognised input event maps to: a plain character inserts
/// itself, Enter breaks the line, Delete and Backspace erase, and the
/// arrow keys move the caret. Anything else is not applicable.
pub open spec fn spec_command_of_input_event(ev: InputEvent) -> Option<EditorBufferCommand> {
    match ev {
        InputEvent::Keyboard(KeyPress::Plain { key: Key::Character(c) }) => Some(
            EditorBufferCommand::InsertChar(c),
        ),
        InputEvent::Keyboard(KeyPress::Plain { key: Key::SpecialKey(sk) }) => match sk {
            SpecialKey::Enter => Some(EditorBufferCommand::InsertNewLine),
            SpecialKey::Delete => Some(EditorBufferCommand::Delete),
            SpecialKey::Backspace => Some(EditorBufferCommand::Backspace),
            SpecialKey::Up => Some(EditorBufferCommand::MoveCaret(CaretDirection::Up)),
            SpecialKey::Down => Some(EditorBufferCommand::MoveCaret(CaretDirection::Down)),
            SpecialKey::Left => Some(EditorBufferCommand::MoveCaret(CaretDirection::Left)),
            SpecialKey::Right => Some(EditorBufferCommand::MoveCaret(CaretDirection::Right)),
            _ => None,
        },
        _ => None,
    }
}

impl EditorBufferCommand {
    /// Derives the command for an input event, or reports that no command
    /// matches, leaving the buffer untouched.
    pub fn try_convert_input_event(input_event: &InputEvent) -> (r: Option<EditorBufferCommand>)
        ensures
            r == spec_command_of_input_event(*input_event),
    {
        match input_event {
            InputEvent::Keyboard(KeyPress::Plain { key: Key::Character(c) }) => Some(
                EditorBufferCommand::InsertChar(*c),
            ),
            InputEvent::Keyboard(KeyPress::Plain { key: Key::SpecialKey(sk) }) => match sk {
                SpecialKey::Enter => Some(EditorBufferCommand::InsertNewLine),
                SpecialKey::Delete => Some(EditorBufferCommand::Delete),
                SpecialKey::Backspace => Some(EditorBufferCommand::Backspace),
                SpecialKey::Up => Some(EditorBufferCommand::MoveCaret(CaretDirection::Up)),
                SpecialKey::Down => Some(EditorBufferCommand::MoveCaret(CaretDirection::Down)),
                SpecialKey::Left => Some(EditorBufferCommand::MoveCaret(CaretDirection::Left)),
                SpecialKey::Right => Some(EditorBufferCommand::MoveCaret(CaretDirection::Right)),
                _ => None,
            },
            _ => None,
        }
    }
}

/// Inserting a character whose rendered width is positive and then
/// immediately backspacing returns the document and the caret to their
/// prior state. (Inserting into an empty document first materialises a
/// row, and a zero-width character backspaces onto the cluster before it,
/// so both are left out here.)
pub proof fn lemma_insert_backspace_inverse(doc: Seq<Seq<SegView>>, caret: Position, c: char)
    requires
        doc_wf(doc),
        caret_ok(doc, caret),
        doc.len() > 0,
        char_render_width(c) >= 1,
        line_width(doc[caret.row_index as int]) + char_render_width(c) <= usize::MAX,
    ensures
        ({
            let seg = SegView { text: seq![c], width: char_render_width(c) };
            let (d1, c1) = spec_insert_segs(doc, caret, seq![seg]);
            spec_backspace(d1, c1) == (doc, caret)
        }),
{
    let seg = SegView { text: seq![c], width: char_render_width(c) };
    let segs = seq![seg];
    let w = char_render_width(c);
    let row = caret.row_index as int;
    let col = caret.col_index as int;
    let l = doc[row];
    assert(line_width(segs) == w) by {
        reveal_with_fuel(prefix_width, 2);
    }
    lemma_locate_boundary(l, col);
    lemma_locate_props(l, col);
    let k = locate_index(l, col);
    let l2 = l.take(k) + segs + l.skip(k);
    let (d1, c1) = spec_insert_segs(doc, caret, segs);
    assert(d1 == doc.update(row, l2));
    assert(c1.col_index == col + w);
    assert(c1.row_index == caret.row_index);

    // The caret's new column locates exactly after the inserted segment.
    lemma_prefix_is_take_width(l, k);
    lemma_prefix_is_take_width(l2, k + 1);
    assert(l2.take(k + 1) =~= l.take(k) + segs);
    lemma_line_width_concat(l.take(k), segs);
    assert(prefix_width(l2, k + 1) == col + w);
    if k + 1 < l2.len() {
        assert(l2[k + 1] == l[k]);
        assert(prefix_width(l, k + 1) == prefix_width(l, k) + l[k].width);
        assert(l[k].width > 0);
        assert(prefix_width(l2, k + 2) == prefix_width(l2, k + 1) + l2[k + 1].width);
    }
    lemma_locate_unique(l2, col + w, k + 1);

    // Backspacing removes exactly the inserted segment.
    let (d2, c2) = spec_backspace(d1, c1);
    assert(l2.remove(k) =~= l);
    lemma_prefix_width_agree(l2, l, k);
    assert(d2 =~= doc);
    assert(c2.col_index == prefix_width(l2, k));
    assert(prefix_width(l2, k) == col);
}

} // verus!
