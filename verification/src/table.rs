//! The table of throws received in the current round: one row per player
//! name, in the order in which the names first arrived.

use crate::types::{RoundWindow, ThrowResult};
use vstd::prelude::*;

verus! {

/// A player's name with the throw last received under it.
#[derive(Debug)]
pub struct Entry {
    pub name: String,
    pub result: ThrowResult,
}

impl View for Entry {
    type V = (Seq<char>, ThrowResult);

    open spec fn view(&self) -> (Seq<char>, ThrowResult) {
        (self.name@, self.result)
    }
}

impl Clone for Entry {
    fn clone(&self) -> (copy: Self)
        ensures
            copy@ == self@,
    {
        Entry { name: self.name.clone(), result: self.result }
    }
}

/// The rows that a vector of entries stands for.
pub open spec fn rows_of(entries: Seq<Entry>) -> Seq<(Seq<char>, ThrowResult)> {
    Seq::new(entries.len(), |i: int| entries[i]@)
}

/// No name heads two rows.
pub open spec fn names_distinct(rows: Seq<(Seq<char>, ThrowResult)>) -> bool {
    forall|i: int, j: int| 0 <= i < j < rows.len() ==> rows[i].0 != rows[j].0
}

/// Some row is headed by `name`.
pub open spec fn names(rows: Seq<(Seq<char>, ThrowResult)>, name: Seq<char>) -> bool {
    exists|i: int| 0 <= i < rows.len() && (#[trigger] rows[i]).0 == name
}

/// The index of a row headed by `name`, where there is one.
pub open spec fn row_of(rows: Seq<(Seq<char>, ThrowResult)>, name: Seq<char>) -> int {
    choose|i: int| 0 <= i < rows.len() && (#[trigger] rows[i]).0 == name
}

/// The throw recorded under `name`, if any.
pub open spec fn lookup(rows: Seq<(Seq<char>, ThrowResult)>, name: Seq<char>) -> Option<
    ThrowResult,
> {
    if names(rows, name) {
        Some(rows[row_of(rows, name)].1)
    } else {
        None
    }
}

/// Recording a throw: a known name keeps its row and gets the new throw, a
/// new name is added behind all others.
pub open spec fn put(
    rows: Seq<(Seq<char>, ThrowResult)>,
    name: Seq<char>,
    result: ThrowResult,
) -> Seq<(Seq<char>, ThrowResult)> {
    if names(rows, name) {
        rows.update(row_of(rows, name), (name, result))
    } else {
        rows.push((name, result))
    }
}

/// The rows that count for a round with the given window, in their order.
pub open spec fn survivors(rows: Seq<(Seq<char>, ThrowResult)>, window: RoundWindow) -> Seq<
    (Seq<char>, ThrowResult),
> {
    rows.filter(|row: (Seq<char>, ThrowResult)| row.1.counts_in(window))
}

/// Row `i` wins: no row has a higher value, and every row before it has a
/// lower one, so among equal best throws the earliest row wins.
pub open spec fn leads(rows: Seq<(Seq<char>, ThrowResult)>, i: int) -> bool {
    &&& 0 <= i < rows.len()
    &&& forall|j: int| 0 <= j < rows.len() ==> (#[trigger] rows[j]).1.spec_value() <= rows[i].1.spec_value()
    &&& forall|j: int| 0 <= j < i ==> (#[trigger] rows[j]).1.spec_value() < rows[i].1.spec_value()
}

/// The throws of the current round, one per player name: at all times no
/// name heads two rows.
#[derive(Debug)]
pub struct ResultTable {
    entries: Vec<Entry>,
}

impl View for ResultTable {
    type V = Seq<(Seq<char>, ThrowResult)>;

    closed spec fn view(&self) -> Seq<(Seq<char>, ThrowResult)> {
        rows_of(self.entries@)
    }
}

impl ResultTable {
    /// A name has at most one row.
    #[verifier::type_invariant]
    spec fn distinct(&self) -> bool {
        names_distinct(rows_of(self.entries@))
    }

    /// An empty table.
    pub fn new() -> (table: Self)
        ensures
            names_distinct(table@),
            table@.len() == 0,
    {
        ResultTable { entries: Vec::new() }
    }

    /// The number of rows, each of them under a name of its own.
    pub fn len(&self) -> (n: usize)
        ensures
            n == self@.len(),
            names_distinct(self@),
    {
        proof {
            use_type_invariant(self);
        }
        self.entries.len()
    }

    /// Whether the table holds no row.
    pub fn is_empty(&self) -> (empty: bool)
        ensures
            empty == (self@.len() == 0),
    {
        self.entries.len() == 0
    }

    /// The row at a position, as a copy.
    pub fn entry(&self, i: usize) -> (row: Entry)
        requires
            i < self@.len(),
        ensures
            row@ == self@[i as int],
    {
        self.entries[i].clone()
    }

    /// All rows in order, as copies. No two of them have the same name.
    pub fn entries(&self) -> (rows: Vec<Entry>)
        ensures
            rows_of(rows@) == self@,
            names_distinct(self@),
    {
        proof {
            use_type_invariant(self);
        }
        let mut rows: Vec<Entry> = Vec::new();
        let mut i: usize = 0;
        while i < self.entries.len()
            invariant
                i <= self.entries.len(),
                rows.len() == i,
                forall|k: int| 0 <= k < i ==> (#[trigger] rows[k])@ == self.entries[k]@,
            decreases self.entries.len() - i,
        {
            rows.push(self.entries[i].clone());
            i = i + 1;
        }
        assert(rows_of(rows@) =~= self@);
        rows
    }

    /// The throw recorded under a name.
    pub fn get(&self, name: &String) -> (found: Option<ThrowResult>)
        ensures
            found == lookup(self@, name@),
    {
        proof {
            use_type_invariant(self);
        }
        let mut i: usize = 0;
        while i < self.entries.len()
            invariant
                i <= self.entries.len(),
                names_distinct(self@),
                forall|k: int| 0 <= k < i ==> (#[trigger] self@[k]).0 != name@,
            decreases self.entries.len() - i,
        {
            if self.entries[i].name == *name {
                proof {
                    let row = self@[i as int];
                    assert(row.0 == name@);
                    assert(row_of(self@, name@) == i);
                }
                return Some(self.entries[i].result);
            }
            i = i + 1;
        }
        None
    }

    /// Records a throw under a name; a throw already recorded under that name
    /// gives way to the new one.
    pub fn insert(&mut self, name: String, result: ThrowResult)
        ensures
            names_distinct(final(self)@),
            final(self)@ == put(old(self)@, name@, result),
    {
        proof {
            use_type_invariant(&*self);
        }
        let mut entries: Vec<Entry> = Vec::new();
        core::mem::swap(&mut self.entries, &mut entries);
        let ghost rows = rows_of(entries@);
        let mut i: usize = 0;
        while i < entries.len()
            invariant
                i <= entries.len(),
                rows == rows_of(entries@),
                rows == old(self)@,
                names_distinct(rows),
                forall|k: int| 0 <= k < i ==> (#[trigger] rows[k]).0 != name@,
            decreases entries.len() - i,
        {
            if entries[i].name == name {
                proof {
                    let row = rows[i as int];
                    assert(row.0 == name@);
                    assert(row_of(rows, name@) == i);
                }
                entries.set(i, Entry { name, result });
                assert(rows_of(entries@) =~= put(rows, name@, result));
                self.entries = entries;
                return ;
            }
            i = i + 1;
        }
        entries.push(Entry { name, result });
        assert(rows_of(entries@) =~= put(rows, name@, result));
        self.entries = entries;
    }

    /// Empties the table.
    pub fn clear(&mut self)
        ensures
            names_distinct(final(self)@),
            final(self)@.len() == 0,
    {
        self.entries = Vec::new();
    }

    /// Drops every row that does not count for the window and keeps the
    /// others in their order.
    pub fn retain_window(&mut self, window: &RoundWindow)
        ensures
            names_distinct(final(self)@),
            final(self)@ == survivors(old(self)@, *window),
    {
        proof {
            use_type_invariant(&*self);
        }
        let ghost keep = |row: (Seq<char>, ThrowResult)| row.1.counts_in(*window);
        let mut kept: Vec<Entry> = Vec::new();
        let mut i: usize = 0;
        while i < self.entries.len()
            invariant
                i <= self.entries.len(),
                *self == *old(self),
                names_distinct(self@),
                keep == |row: (Seq<char>, ThrowResult)| row.1.counts_in(*window),
                rows_of(kept@) == self@.take(i as int).filter(keep),
                names_distinct(rows_of(kept@)),
                forall|k: int|
                    0 <= k < kept.len() ==> exists|j: int|
                        0 <= j < i && self@[j] == #[trigger] rows_of(kept@)[k],
            decreases self.entries.len() - i,
        {
            proof {
                reveal(Seq::filter);
                assert(self@.take(i + 1).drop_last() =~= self@.take(i as int));
            }
            let ghost before = rows_of(kept@);
            if self.entries[i].result.survives(window) {
                kept.push(self.entries[i].clone());
                proof {
                    assert(rows_of(kept@) =~= before.push(self@[i as int]));
                    assert forall|a: int, b: int| 0 <= a < b < kept.len() implies rows_of(kept@)[a].0
                        != rows_of(kept@)[b].0 by {
                        if b == kept.len() - 1 {
                            let j = choose|j: int| 0 <= j < i && self@[j] == before[a];
                            assert(self@[j].0 != self@[i as int].0);
                        }
                    }
                    assert forall|k: int| 0 <= k < kept.len() implies exists|j: int|
                        0 <= j < i + 1 && self@[j] == #[trigger] rows_of(kept@)[k] by {
                        if k == kept.len() - 1 {
                            assert(self@[i as int] == rows_of(kept@)[k]);
                        } else {
                            let j = choose|j: int| 0 <= j < i && self@[j] == before[k];
                            assert(self@[j] == rows_of(kept@)[k]);
                        }
                    }
                }
            }
            i = i + 1;
        }
        assert(self@.take(i as int) =~= self@);
        self.entries = kept;
    }

    /// The position of the winning row: the first among those with the
    /// highest value. An empty table has no winner.
    pub fn leader(&self) -> (best: Option<usize>)
        ensures
            best.is_none() <==> self@.len() == 0,
            best.is_some() ==> leads(self@, best.unwrap() as int),
    {
        if self.entries.len() == 0 {
            return None;
        }
        let mut best: usize = 0;
        let mut i: usize = 1;
        while i < self.entries.len()
            invariant
                1 <= i <= self.entries.len(),
                leads(self@.take(i as int), best as int),
            decreases self.entries.len() - i,
        {
            if self.entries[i].result.value() > self.entries[best].result.value() {
                best = i;
            }
            i = i + 1;
            assert forall|j: int| 0 <= j < i implies (#[trigger] self@.take(i as int)[j]).1.spec_value()
                <= self@.take(i as int)[best as int].1.spec_value() by {
                if j < i - 1 {
                    assert(self@.take(i - 1)[j] == self@[j]);
                }
            }
            assert forall|j: int| 0 <= j < best implies (#[trigger] self@.take(i as int)[j]).1.spec_value()
                < self@.take(i as int)[best as int].1.spec_value() by {
                assert(self@.take(i - 1)[j] == self@[j]);
            }
        }
        assert(self@.take(i as int) =~= self@);
        Some(best)
    }
}

/// After a throw is recorded under a name, that throw is what the table holds
/// under the name, each other name holds what it held, and no name has two rows.
pub proof fn put_is_last_write_wins(
    rows: Seq<(Seq<char>, ThrowResult)>,
    name: Seq<char>,
    result: ThrowResult,
)
    requires
        names_distinct(rows),
    ensures
        names_distinct(put(rows, name, result)),
        lookup(put(rows, name, result), name) == Some(result),
        forall|other: Seq<char>|
            other != name ==> #[trigger] lookup(put(rows, name, result), other) == lookup(rows, other),
        put(rows, name, result).len() == if names(rows, name) {
            rows.len()
        } else {
            rows.len() + 1
        },
{
    let after = put(rows, name, result);
    let at = if names(rows, name) {
        row_of(rows, name)
    } else {
        rows.len() as int
    };
    assert(after[at] == (name, result));
    assert(after.len() > at >= 0);
    assert(forall|k: int| 0 <= k < rows.len() && k != at ==> after[k] == rows[k]);
    assert(forall|k: int| 0 <= k < after.len() && k != at ==> after[k].0 != name);
    assert(names_distinct(after));
    assert(names(after, name));
    assert(row_of(after, name) == at);
    assert forall|other: Seq<char>| other != name implies #[trigger] lookup(after, other) == lookup(
        rows,
        other,
    ) by {
        if names(rows, other) {
            let k = row_of(rows, other);
            assert(after[k].0 == other);
            assert(names(after, other));
            let m = row_of(after, other);
            assert(m != at);
            assert(rows[m].0 == other);
            assert(m == k);
        } else if names(after, other) {
            let m = row_of(after, other);
            assert(m != at);
            assert(rows[m].0 == other);
        }
    }
}

/// Every row that survives a round's window counts in it: a causal throw among
/// the survivors has its logical time strictly between the window's ends. The
/// survivors are rows of the table, and every row that counts survives.
pub proof fn survivors_lie_in_window(rows: Seq<(Seq<char>, ThrowResult)>, window: RoundWindow)
    ensures
        forall|i: int|
            0 <= i < survivors(rows, window).len() ==> (#[trigger] survivors(
                rows,
                window,
            )[i]).1.counts_in(window),
        forall|i: int|
            0 <= i < survivors(rows, window).len() ==> match (#[trigger] survivors(
                rows,
                window,
            )[i]).1.spec_logical_time() {
                Some(lc) => window.lc_start < lc < window.lc_stop,
                None => true,
            },
        forall|i: int|
            0 <= i < survivors(rows, window).len() ==> rows.contains(
                #[trigger] survivors(rows, window)[i],
            ),
        forall|i: int|
            0 <= i < rows.len() && (#[trigger] rows[i]).1.counts_in(window) ==> survivors(
                rows,
                window,
            ).contains(rows[i]),
        survivors(rows, window).len() <= rows.len(),
{
    let keep = |row: (Seq<char>, ThrowResult)| row.1.counts_in(window);
    let kept = rows.filter(keep);
    broadcast use vstd::seq_lib::group_filter_ensures;
    assert forall|i: int| 0 <= i < kept.len() implies (#[trigger] kept[i]).1.counts_in(window) by {
        rows.lemma_filter_pred(keep, i);
    }
    assert forall|i: int| 0 <= i < kept.len() implies rows.contains(#[trigger] kept[i]) by {
        rows.lemma_filter_pred(keep, i);
        assert(kept.contains(kept[i]));
        filter_keeps_members(rows, window, kept[i]);
    }
    assert forall|i: int| 0 <= i < rows.len() && (#[trigger] rows[i]).1.counts_in(window) implies kept.contains(
        rows[i],
    ) by {
        rows.lemma_filter_contains(keep, i);
    }
    rows.lemma_filter_len(keep);
}

/// A row among the survivors is a row of the table.
proof fn filter_keeps_members(
    rows: Seq<(Seq<char>, ThrowResult)>,
    window: RoundWindow,
    row: (Seq<char>, ThrowResult),
)
    requires
        survivors(rows, window).contains(row),
    ensures
        rows.contains(row),
    decreases rows.len(),
{
    reveal(Seq::filter);
    if rows.len() > 0 {
        let front = rows.drop_last();
        if survivors(front, window).contains(row) {
            filter_keeps_members(front, window, row);
            let k = choose|k: int| 0 <= k < front.len() && front[k] == row;
            assert(rows[k] == row);
        } else {
            assert(row == rows.last());
        }
    }
}

/// A table has at most one winning row.
pub proof fn leader_is_unique(rows: Seq<(Seq<char>, ThrowResult)>, i: int, j: int)
    requires
        leads(rows, i),
        leads(rows, j),
    ensures
        i == j,
{
    let a = rows[i];
    let b = rows[j];
    assert(a.1.spec_value() == b.1.spec_value());
}

} // verus!
