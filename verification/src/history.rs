//! Linear undo history: a stack of immutable snapshots of the document,
//! caret and selection, with a cursor into the stack. Pushing after an undo
//! discards the redo tail, as in classic linear-undo editors.

use vstd::prelude::*;
use crate::seg::SegView;
use crate::line::Line;
use crate::selection::SelectionMap;
use crate::units::{Position, SelectionRange};
use crate::doc::{doc_view, doc_wf, caret_ok, clone_doc};

verus! {

/// An immutable copy of everything undo must restore.
#[derive(Debug)]
pub struct Snapshot {
    pub lines: Vec<Line>,
    pub caret: Position,
    pub selection: SelectionMap,
}

/// The mathematical value of a snapshot.
pub struct SnapView {
    pub doc: Seq<Seq<SegView>>,
    pub caret: Position,
    pub sel: Map<usize, SelectionRange>,
}

impl View for Snapshot {
    type V = SnapView;

    open spec fn view(&self) -> SnapView {
        SnapView { doc: doc_view(self.lines@), caret: self.caret, sel: self.selection@ }
    }
}

impl Snapshot {
    /// A snapshot is only ever taken of a well-formed buffer state.
    pub open spec fn wf(&self) -> bool {
        &&& doc_wf(self@.doc)
        &&& caret_ok(self@.doc, self.caret)
        &&& self.selection.wf()
    }

    pub fn clone_snapshot(&self) -> (r: Snapshot)
        ensures
            r@ == self@,
            r.selection.wf() == self.selection.wf(),
    {
        let r = Snapshot {
            lines: clone_doc(&self.lines),
            caret: self.caret,
            selection: self.selection.clone_map(),
        };
        proof {
            assert(r@ =~= self@);
        }
        r
    }
}

/// The snapshot stack plus the cursor of the snapshot the buffer currently
/// shows. `cursor` indexes into `snapshots` whenever the stack is
/// non-empty.
#[derive(Debug)]
pub struct History {
    pub snapshots: Vec<Snapshot>,
    pub cursor: usize,
}

impl History {
    pub open spec fn views(&self) -> Seq<SnapView> {
        self.snapshots@.map_values(|s: Snapshot| s@)
    }

    pub open spec fn wf(&self) -> bool {
        &&& self.snapshots@.len() == 0 ==> self.cursor == 0
        &&& self.snapshots@.len() > 0 ==> self.cursor < self.snapshots@.len()
        &&& forall|i: int| 0 <= i < self.snapshots@.len() ==> (#[trigger] self.snapshots@[i]).wf()
    }

    pub fn new() -> (r: History)
        ensures
            r.wf(),
            r.views() =~= Seq::<SnapView>::empty(),
            r.cursor == 0,
    {
        History { snapshots: Vec::new(), cursor: 0 }
    }

    pub fn is_empty(&self) -> (r: bool)
        ensures
            r <==> self.views().len() == 0,
    {
        self.snapshots.len() == 0
    }

    pub open spec fn can_undo(&self) -> bool {
        self.cursor > 0
    }

    pub open spec fn can_redo(&self) -> bool {
        self.snapshots@.len() > 0 && self.cursor < self.snapshots@.len() - 1
    }

    /// Appends a snapshot after the cursor, discarding any redo entries
    /// beyond it, and moves the cursor onto the new entry.
    pub fn push_snapshot(&mut self, snap: Snapshot)
        requires
            old(self).wf(),
            snap.wf(),
        ensures
            final(self).wf(),
            final(self).views() =~= (if old(self).views().len() == 0 {
                Seq::<SnapView>::empty()
            } else {
                old(self).views().take(old(self).cursor + 1)
            }).push(snap@),
            final(self).cursor == final(self).views().len() - 1,
            final(self).views()[final(self).cursor as int] == snap@,
    {
        let ghost old_views = self.views();
        if self.snapshots.len() > 0 {
            self.snapshots.truncate(self.cursor + 1);
            proof {
                assert(self.snapshots@ =~= old(self).snapshots@.take(old(self).cursor + 1));
            }
        }
        self.snapshots.push(snap);
        self.cursor = self.snapshots.len() - 1;
        proof {
            if old_views.len() == 0 {
                assert(final(self).views() =~= Seq::<SnapView>::empty().push(snap@));
            } else {
                assert(final(self).views() =~= old_views.take(old(self).cursor + 1).push(snap@));
            }
        }
    }

    /// Steps the cursor back one entry and hands out a copy of the snapshot
    /// to restore, or reports that there is nothing to undo.
    pub fn undo(&mut self) -> (r: Option<Snapshot>)
        requires
            old(self).wf(),
        ensures
            final(self).wf(),
            final(self).views() == old(self).views(),
            old(self).can_undo() ==> {
                &&& final(self).cursor == old(self).cursor - 1
                &&& r is Some
                &&& r->Some_0@ == old(self).views()[old(self).cursor - 1]
                &&& r->Some_0.wf()
            },
            !old(self).can_undo() ==> *final(self) == *old(self) && r is None,
    {
        if self.cursor > 0 {
            self.cursor = self.cursor - 1;
            let snap = self.snapshots[self.cursor].clone_snapshot();
            proof {
                assert(self.snapshots@[self.cursor as int].wf());
            }
            Some(snap)
        } else {
            None
        }
    }

    /// Steps the cursor forward one entry and hands out a copy of the
    /// snapshot to restore, or reports that there is nothing to redo.
    pub fn redo(&mut self) -> (r: Option<Snapshot>)
        requires
            old(self).wf(),
        ensures
            final(self).wf(),
            final(self).views() == old(self).views(),
            old(self).can_redo() ==> {
                &&& final(self).cursor == old(self).cursor + 1
                &&& r is Some
                &&& r->Some_0@ == old(self).views()[old(self).cursor + 1]
                &&& r->Some_0.wf()
            },
            !old(self).can_redo() ==> *final(self) == *old(self) && r is None,
    {
        if self.snapshots.len() > 0 && self.cursor < self.snapshots.len() - 1 {
            self.cursor = self.cursor + 1;
            let snap = self.snapshots[self.cursor].clone_snapshot();
            proof {
                assert(self.snapshots@[self.cursor as int].wf());
            }
            Some(snap)
        } else {
            None
        }
    }
}

/// One undo step on the abstract history: the stack is untouched and the
/// cursor moves back one entry when it can. This is exactly what
/// [`History::undo`] ensures.
pub open spec fn spec_undo(h: (Seq<SnapView>, int)) -> (Seq<SnapView>, int) {
    if h.1 > 0 {
        (h.0, h.1 - 1)
    } else {
        h
    }
}

/// One redo step on the abstract history, the inverse of [`spec_undo`].
pub open spec fn spec_redo(h: (Seq<SnapView>, int)) -> (Seq<SnapView>, int) {
    if h.1 < h.0.len() - 1 {
        (h.0, h.1 + 1)
    } else {
        h
    }
}

pub open spec fn spec_undo_n(h: (Seq<SnapView>, int), n: nat) -> (Seq<SnapView>, int)
    decreases n,
{
    if n == 0 {
        h
    } else {
        spec_undo_n(spec_undo(h), (n - 1) as nat)
    }
}

pub open spec fn spec_redo_n(h: (Seq<SnapView>, int), n: nat) -> (Seq<SnapView>, int)
    decreases n,
{
    if n == 0 {
        h
    } else {
        spec_redo_n(spec_redo(h), (n - 1) as nat)
    }
}

/// Undo/redo round trip at the cursor level: undoing N times steps the
/// cursor back N entries and redoing N times returns it, with the stack
/// untouched throughout.
pub proof fn lemma_undo_redo_round_trip(views: Seq<SnapView>, cursor: int, n: nat)
    requires
        0 <= cursor < views.len(),
        n <= cursor,
    ensures
        spec_undo_n((views, cursor), n) == (views, cursor - n),
        spec_redo_n((views, cursor - n), n) == (views, cursor),
    decreases n,
{
    if n > 0 {
        lemma_undo_redo_round_trip(views, cursor - 1, (n - 1) as nat);
        lemma_undo_redo_round_trip(views, cursor, (n - 1) as nat);
        assert(spec_undo((views, cursor)) == (views, cursor - 1));
        assert(spec_redo((views, cursor - n)) == (views, cursor - n + 1));
    }
}

/// The history one applied content-changing command leaves behind: the
/// redo tail past the cursor is discarded, the post-command snapshot is
/// appended, and the cursor moves onto it. This is exactly the history
/// clause of the command layer's per-command contract, once a fresh
/// history has been seeded with the pre-sequence snapshot.
pub open spec fn record_push(views: Seq<SnapView>, cursor: int, post: SnapView) -> (
    Seq<SnapView>,
    int,
) {
    (views.take(cursor + 1).push(post), views.take(cursor + 1).len() as int)
}

/// The history after a whole run of content-changing commands, each
/// recording its post-command snapshot in turn.
pub open spec fn views_after_commands(
    views: Seq<SnapView>,
    cursor: int,
    posts: Seq<SnapView>,
) -> (Seq<SnapView>, int)
    decreases posts.len(),
{
    if posts.len() == 0 {
        (views, cursor)
    } else {
        let stepped = record_push(views, cursor, posts[0]);
        views_after_commands(stepped.0, stepped.1, posts.drop_first())
    }
}

proof fn lemma_views_after_commands_shape(views: Seq<SnapView>, cursor: int, posts: Seq<SnapView>)
    requires
        0 <= cursor < views.len(),
        posts.len() > 0,
    ensures
        views_after_commands(views, cursor, posts) == (
            views.take(cursor + 1) + posts,
            cursor + posts.len(),
        ),
    decreases posts.len(),
{
    let stepped = record_push(views, cursor, posts[0]);
    assert(stepped.0 =~= views.take(cursor + 1) + seq![posts[0]]);
    assert(stepped.1 == cursor + 1);
    assert(views_after_commands(views, cursor, posts) == views_after_commands(
        stepped.0,
        stepped.1,
        posts.drop_first(),
    ));
    if posts.len() == 1 {
        assert(posts.drop_first().len() == 0);
        assert(views_after_commands(stepped.0, stepped.1, posts.drop_first()) == stepped);
        assert(views.take(cursor + 1) + posts =~= stepped.0);
        assert(views_after_commands(views, cursor, posts).0 =~= views.take(cursor + 1) + posts);
        assert(views_after_commands(views, cursor, posts).1 == cursor + posts.len());
    } else {
        lemma_views_after_commands_shape(stepped.0, stepped.1, posts.drop_first());
        assert(stepped.0.take(stepped.1 + 1) =~= stepped.0);
        assert(stepped.0 + posts.drop_first() =~= views.take(cursor + 1) + posts);
        assert(views_after_commands(views, cursor, posts).0 == stepped.0.take(stepped.1 + 1)
            + posts.drop_first());
        assert(views_after_commands(views, cursor, posts).0 =~= views.take(cursor + 1) + posts);
        assert(views_after_commands(views, cursor, posts).1 == stepped.1 + posts.drop_first().len());
    }
}

/// Undo/redo round trip over a whole command sequence, as the testable
/// property states it of the buffer. Starting from the snapshot at
/// `cursor` (the pre-sequence state — on a fresh history the first
/// content command seeds it, so it is the state the commands started
/// from), a run of N content-changing commands records its N post states
/// in order. N undos then show exactly the pre-sequence snapshot again,
/// and N redos return exactly to the last post-sequence snapshot; the
/// stack itself never changes under undo or redo. Together with the exec
/// contracts — `EditorEngineApi::apply_event`'s history clause is
/// [`record_push`] per content command, and `EditorBuffer::undo`/`redo`
/// implement [`spec_undo`]/[`spec_redo`], restoring the snapshot at the
/// new cursor — this is the undo/redo round trip for any sequence of
/// content-changing commands.
pub proof fn lemma_commands_undo_redo_round_trip(
    views: Seq<SnapView>,
    cursor: int,
    posts: Seq<SnapView>,
)
    requires
        0 <= cursor < views.len(),
        posts.len() > 0,
    ensures
        ({
            let recorded = views_after_commands(views, cursor, posts);
            &&& recorded.0 == views.take(cursor + 1) + posts
            &&& recorded.1 == cursor + posts.len()
            &&& spec_undo_n(recorded, posts.len()) == (recorded.0, cursor)
            &&& recorded.0[cursor] == views[cursor]
            &&& spec_redo_n((recorded.0, cursor), posts.len()) == recorded
            &&& recorded.0[recorded.1] == posts.last()
        }),
{
    lemma_views_after_commands_shape(views, cursor, posts);
    let recorded = views_after_commands(views, cursor, posts);
    lemma_undo_redo_round_trip(recorded.0, recorded.1, posts.len());
    assert(recorded.0[cursor] == views.take(cursor + 1)[cursor]);
    assert(recorded.0[recorded.1] == posts[posts.len() - 1]);
}

} // verus!
