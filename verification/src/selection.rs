//! Per-row selections: a mapping from row index to the selected
//! display-column range on that row, kept sorted by row so that iteration
//! is in ascending row order.

use vstd::prelude::*;
use crate::units::SelectionRange;

verus! {

/// The mapping a sorted entry list stands for. Later entries would win, but
/// a well-formed list has each row at most once.
pub open spec fn sel_map_of(s: Seq<(usize, SelectionRange)>) -> Map<usize, SelectionRange>
    decreases s.len(),
{
    if s.len() == 0 {
        Map::empty()
    } else {
        sel_map_of(s.drop_last()).insert(s.last().0, s.last().1)
    }
}

/// Entries strictly ascending by row index, every range half-open.
pub open spec fn sel_entries_wf(s: Seq<(usize, SelectionRange)>) -> bool {
    &&& forall|i: int, j: int| 0 <= i < j < s.len() ==> s[i].0 < s[j].0
    &&& forall|i: int| 0 <= i < s.len() ==> (#[trigger] s[i].1).wf()
}

/// Mapping from row index to the selection range active on that row.
/// Absence of a row means no selection there.
#[derive(Debug)]
pub struct SelectionMap {
    pub entries: Vec<(usize, SelectionRange)>,
}

impl View for SelectionMap {
    type V = Map<usize, SelectionRange>;

    open spec fn view(&self) -> Map<usize, SelectionRange> {
        sel_map_of(self.entries@)
    }
}

proof fn lemma_sel_map_domain(s: Seq<(usize, SelectionRange)>)
    ensures
        forall|row: usize|
            #[trigger] sel_map_of(s).contains_key(row) <==> exists|i: int|
                0 <= i < s.len() && s[i].0 == row,
    decreases s.len(),
{
    if s.len() > 0 {
        lemma_sel_map_domain(s.drop_last());
        assert forall|row: usize| sel_map_of(s).contains_key(row) implies exists|i: int|
            0 <= i < s.len() && s[i].0 == row by {
            if row == s.last().0 {
                assert(s[s.len() - 1].0 == row);
            } else {
                assert(sel_map_of(s.drop_last()).contains_key(row));
                let i = choose|i: int|
                    0 <= i < s.drop_last().len() && #[trigger] s.drop_last()[i].0 == row;
                assert(s.drop_last()[i] == s[i]);
                assert(s[i].0 == row);
            }
        }
        assert forall|row: usize|
            (exists|i: int| 0 <= i < s.len() && s[i].0 == row) implies sel_map_of(
            s,
        ).contains_key(row) by {
            let i = choose|i: int| 0 <= i < s.len() && #[trigger] s[i].0 == row;
            if i < s.len() - 1 {
                assert(s.drop_last()[i].0 == row);
                assert(sel_map_of(s.drop_last()).contains_key(row));
            } else {
                assert(s.last().0 == row);
            }
        }
    }
}

/// With unique keys, the entry at `i` is what the map holds for its row.
proof fn lemma_sel_map_at(s: Seq<(usize, SelectionRange)>, i: int)
    requires
        forall|a: int, b: int| 0 <= a < b < s.len() ==> s[a].0 != s[b].0,
        0 <= i < s.len(),
    ensures
        sel_map_of(s).contains_key(s[i].0),
        sel_map_of(s)[s[i].0] == s[i].1,
    decreases s.len(),
{
    if i == s.len() - 1 {
        lemma_sel_map_domain(s.drop_last());
        assert(s.last() == s[i]);
    } else {
        lemma_sel_map_at(s.drop_last(), i);
        assert(s.drop_last()[i] == s[i]);
        assert(s.last().0 != s[i].0);
    }
}

/// Removing the entry at `i` removes exactly its row from the map.
proof fn lemma_sel_map_remove(s: Seq<(usize, SelectionRange)>, i: int)
    requires
        forall|a: int, b: int| 0 <= a < b < s.len() ==> s[a].0 != s[b].0,
        0 <= i < s.len(),
    ensures
        sel_map_of(s.remove(i)) == sel_map_of(s).remove(s[i].0),
    decreases s.len(),
{
    lemma_sel_map_domain(s.remove(i));
    lemma_sel_map_domain(s);
    if i == s.len() - 1 {
        assert(s.remove(i) =~= s.drop_last());
        assert(!sel_map_of(s.drop_last()).contains_key(s[i].0));
        assert(sel_map_of(s.drop_last()) =~= sel_map_of(s).remove(s[i].0));
    } else {
        lemma_sel_map_remove(s.drop_last(), i);
        assert(s.remove(i).drop_last() =~= s.drop_last().remove(i));
        assert(s.remove(i).last() == s.last());
        assert(sel_map_of(s.remove(i)) == sel_map_of(s.drop_last().remove(i)).insert(
            s.last().0,
            s.last().1,
        ));
        assert(sel_map_of(s.remove(i)) =~= sel_map_of(s).remove(s[i].0));
    }
}

/// Inserting an entry for a row the list does not hold inserts exactly that
/// row into the map.
proof fn lemma_sel_map_insert(s: Seq<(usize, SelectionRange)>, i: int, kv: (usize, SelectionRange))
    requires
        0 <= i <= s.len(),
        forall|a: int| 0 <= a < s.len() ==> s[a].0 != kv.0,
    ensures
        sel_map_of(s.insert(i, kv)) == sel_map_of(s).insert(kv.0, kv.1),
    decreases s.len(),
{
    let s2 = s.insert(i, kv);
    if i == s.len() {
        assert(s2.drop_last() =~= s);
        assert(s2.last() == kv);
    } else {
        lemma_sel_map_insert(s.drop_last(), i, kv);
        assert(s2.drop_last() =~= s.drop_last().insert(i, kv));
        assert(s2.last() == s.last());
        assert(sel_map_of(s2) == sel_map_of(s.drop_last().insert(i, kv)).insert(
            s.last().0,
            s.last().1,
        ));
        assert(sel_map_of(s2) =~= sel_map_of(s).insert(kv.0, kv.1));
    }
}

impl SelectionMap {
    pub open spec fn wf(&self) -> bool {
        sel_entries_wf(self.entries@)
    }

    pub fn new() -> (r: SelectionMap)
        ensures
            r.wf(),
            r@ == Map::<usize, SelectionRange>::empty(),
    {
        SelectionMap { entries: Vec::new() }
    }

    pub fn clone_map(&self) -> (r: SelectionMap)
        ensures
            r@ == self@,
            r.entries@ == self.entries@,
    {
        let mut entries: Vec<(usize, SelectionRange)> = Vec::new();
        let n = self.entries.len();
        for i in 0..n
            invariant
                n == self.entries.len(),
                entries@ =~= self.entries@.take(i as int),
        {
            entries.push(self.entries[i]);
            proof {
                assert(entries@ =~= self.entries@.take(i + 1));
            }
        }
        proof {
            assert(self.entries@.take(n as int) =~= self.entries@);
        }
        SelectionMap { entries }
    }

    pub fn is_empty(&self) -> (r: bool)
        ensures
            r <==> self.entries@.len() == 0,
    {
        self.entries.len() == 0
    }

    pub fn len(&self) -> (r: usize)
        ensures
            r == self.entries@.len(),
    {
        self.entries.len()
    }

    /// The entry at position `i` in ascending row order.
    pub fn entry_at(&self, i: usize) -> (r: (usize, SelectionRange))
        requires
            i < self.entries@.len(),
        ensures
            r == self.entries@[i as int],
            self.wf() ==> self@.contains_key(r.0) && self@[r.0] == r.1,
    {
        proof {
            if self.wf() {
                lemma_sel_map_at(self.entries@, i as int);
            }
        }
        self.entries[i]
    }

    /// The selection on `row`, if any.
    pub fn get(&self, row: usize) -> (r: Option<SelectionRange>)
        requires
            self.wf(),
        ensures
            r == if self@.contains_key(row) {
                Some(self@[row])
            } else {
                Option::<SelectionRange>::None
            },
    {
        proof {
            lemma_sel_map_domain(self.entries@);
        }
        let n = self.entries.len();
        for i in 0..n
            invariant
                n == self.entries@.len(),
                self.wf(),
                forall|j: int| 0 <= j < i ==> self.entries@[j].0 != row,
        {
            let (r0, range) = self.entries[i];
            if r0 == row {
                proof {
                    lemma_sel_map_at(self.entries@, i as int);
                }
                return Some(range);
            }
        }
        None
    }

    /// The row indices carrying a selection, ascending.
    pub fn get_ordered_indices(&self) -> (r: Vec<usize>)
        ensures
            r@.len() == self.entries@.len(),
            forall|i: int| 0 <= i < r@.len() ==> r@[i] == self.entries@[i].0,
    {
        let mut r: Vec<usize> = Vec::new();
        let n = self.entries.len();
        for i in 0..n
            invariant
                n == self.entries@.len(),
                r@.len() == i,
                forall|j: int| 0 <= j < i ==> r@[j] == self.entries@[j].0,
        {
            r.push(self.entries[i].0);
        }
        r
    }

    /// The position before which an entry for `row` belongs: the first index
    /// whose row is at least `row`.
    fn lower_bound(&self, row: usize) -> (r: usize)
        requires
            self.wf(),
        ensures
            r <= self.entries@.len(),
            forall|j: int| 0 <= j < r ==> self.entries@[j].0 < row,
            forall|j: int| r <= j < self.entries@.len() ==> self.entries@[j].0 >= row,
    {
        let n = self.entries.len();
        let mut i: usize = 0;
        loop
            invariant
                n == self.entries@.len(),
                self.wf(),
                0 <= i <= n,
                forall|j: int| 0 <= j < i ==> self.entries@[j].0 < row,
            ensures
                i <= n,
                forall|j: int| 0 <= j < i ==> self.entries@[j].0 < row,
                i < n ==> self.entries@[i as int].0 >= row,
            decreases n - i,
        {
            if i >= n {
                break;
            }
            if self.entries[i].0 >= row {
                break;
            }
            i = i + 1;
        }
        proof {
            assert forall|j: int| i <= j < self.entries@.len() implies self.entries@[j].0
                >= row by {
                if j > i {
                    assert(self.entries@[i as int].0 < self.entries@[j].0);
                }
            }
        }
        i
    }

    /// Replaces or creates the selection on `row`.
    pub fn set(&mut self, row: usize, range: SelectionRange)
        requires
            old(self).wf(),
            range.wf(),
        ensures
            final(self).wf(),
            final(self)@ == old(self)@.insert(row, range),
    {
        self.clear(row);
        let i = self.lower_bound(row);
        let ghost s = self.entries@;
        self.entries.insert(i, (row, range));
        proof {
            assert(final(self).entries@ =~= s.insert(i as int, (row, range)));
            lemma_sel_map_insert(s, i as int, (row, range));
            assert(final(self)@ =~= old(self)@.insert(row, range));
        }
    }

    /// Widens the selection on `row` so that it also covers `range`,
    /// creating it when the row had none.
    pub fn extend(&mut self, row: usize, range: SelectionRange)
        requires
            old(self).wf(),
            range.wf(),
        ensures
            final(self).wf(),
            final(self)@ == old(self)@.insert(
                row,
                if old(self)@.contains_key(row) {
                    let existing = old(self)@[row];
                    SelectionRange {
                        start_display_col_index: if existing.start_display_col_index
                            < range.start_display_col_index {
                            existing.start_display_col_index
                        } else {
                            range.start_display_col_index
                        },
                        end_display_col_index: if existing.end_display_col_index
                            > range.end_display_col_index {
                            existing.end_display_col_index
                        } else {
                            range.end_display_col_index
                        },
                    }
                } else {
                    range
                },
            ),
    {
        let merged = match self.get(row) {
            Some(existing) => {
                let start = if existing.start_display_col_index < range.start_display_col_index {
                    existing.start_display_col_index
                } else {
                    range.start_display_col_index
                };
                let end = if existing.end_display_col_index > range.end_display_col_index {
                    existing.end_display_col_index
                } else {
                    range.end_display_col_index
                };
                SelectionRange { start_display_col_index: start, end_display_col_index: end }
            },
            None => range,
        };
        self.set(row, merged);
    }

    /// Removes the selection on `row`, if any.
    pub fn clear(&mut self, row: usize)
        requires
            old(self).wf(),
        ensures
            final(self).wf(),
            final(self)@ == old(self)@.remove(row),
            forall|j: int|
                0 <= j < final(self).entries@.len() ==> (#[trigger] final(self).entries@[j]).0
                    != row,
    {
        let i = self.lower_bound(row);
        let ghost s = self.entries@;
        if i < self.entries.len() {
            let (r0, _) = self.entries[i];
            if r0 == row {
                self.entries.remove(i);
                proof {
                    assert(final(self).entries@ =~= s.remove(i as int));
                    lemma_sel_map_remove(s, i as int);
                    assert forall|j: int|
                        0 <= j < final(self).entries@.len() implies (
                    #[trigger] final(self).entries@[j]).0 != row by {
                        if j < i {
                            assert(s[j].0 < row);
                        } else {
                            assert(final(self).entries@[j] == s[j + 1]);
                            assert(s[i as int].0 < s[j + 1].0);
                        }
                    }
                }
                return ;
            }
        }
        proof {
            lemma_sel_map_domain(s);
            assert(!self@.contains_key(row));
            assert(final(self)@ =~= old(self)@.remove(row));
        }
    }
}

} // verus!
