//! An in-memory model of the target store, covering exactly the two
//! capabilities the engine needs from it: create-if-absent for a
//! table, and appending a batch of rows to a table.
//!
//! The model is the reference semantics the engine is verified
//! against; it also serves as a drop-in target when exercising the
//! engine without a live store.

use vstd::prelude::*;

use crate::batch::Batch;
use crate::value::Row;

verus! {

/// One table in the target store: its name and its rows, in the order
/// the batches delivered them.
#[derive(Debug, PartialEq, Eq)]
pub struct TargetTable {
    pub name: String,
    pub rows: Vec<Row>,
}

/// The whole target store.
#[derive(Debug, PartialEq, Eq)]
pub struct TargetStoreModel {
    pub tables: Vec<TargetTable>,
}

/// A table of this name exists.
pub open spec fn has_table(ts: Seq<TargetTable>, name: Seq<char>) -> bool {
    exists|i: int| 0 <= i < ts.len() && ts[i].name@ == name
}

/// The index of the table of this name (unique under `model_wf`).
pub open spec fn table_at(ts: Seq<TargetTable>, name: Seq<char>) -> int {
    choose|i: int| 0 <= i < ts.len() && ts[i].name@ == name
}

/// No two tables share a name: creating a schema object twice must
/// not produce a duplicate.
pub open spec fn model_wf(ts: Seq<TargetTable>) -> bool {
    forall|i: int, j: int| 0 <= i < j < ts.len() ==> ts[i].name@ != ts[j].name@
}

/// What create-if-absent does to the store: nothing when a table of
/// that name exists, otherwise the new table appears at the end.
pub open spec fn apply_create(ts: Seq<TargetTable>, t: TargetTable) -> Seq<TargetTable> {
    if has_table(ts, t.name@) {
        ts
    } else {
        ts.push(t)
    }
}

/// Re-running schema creation is harmless: the second run changes
/// nothing, whatever the store held before, so no error and no
/// duplicate schema object can arise from a repeat.
pub proof fn lemma_create_idempotent(ts: Seq<TargetTable>, t1: TargetTable, t2: TargetTable)
    requires
        t1.name@ == t2.name@,
    ensures
        apply_create(apply_create(ts, t1), t2) == apply_create(ts, t1),
{
    if !has_table(ts, t1.name@) {
        let ts1 = ts.push(t1);
        assert(ts1[ts.len() as int].name@ == t2.name@);
        assert(has_table(ts1, t2.name@));
    }
}

/// Creating a table preserves name uniqueness.
pub proof fn lemma_create_preserves_wf(ts: Seq<TargetTable>, t: TargetTable)
    requires
        model_wf(ts),
    ensures
        model_wf(apply_create(ts, t)),
{
    if !has_table(ts, t.name@) {
        let ts1 = ts.push(t);
        assert forall|i: int, j: int| 0 <= i < j < ts1.len() implies ts1[i].name@ != ts1[j].name@ by {
            if j < ts.len() {
            } else {
                assert(ts1[j] == t);
                assert(!(0 <= i < ts.len() && ts[i].name@ == t.name@));
            }
        }
    }
}

impl TargetStoreModel {
    /// An empty target store.
    pub fn new() -> (r: TargetStoreModel)
        ensures
            r.tables@.len() == 0,
    {
        TargetStoreModel { tables: Vec::new() }
    }

    /// Looks a table up by name; yields the first index that matches.
    pub fn find_table(&self, name: &String) -> (r: Option<usize>)
        ensures
            r matches Some(i) ==> i < self.tables@.len() && self.tables@[i as int].name@ == name@
                && (forall|j: int| 0 <= j < i ==> self.tables@[j].name@ != name@),
            r is None ==> !has_table(self.tables@, name@),
    {
        let n = self.tables.len();
        for i in 0..n
            invariant
                n == self.tables@.len(),
                forall|j: int| 0 <= j < i ==> self.tables@[j].name@ != name@,
        {
            if self.tables[i].name == *name {
                return Some(i);
            }
        }
        None
    }

    /// Creates a table if absent; a repeat run leaves the store
    /// exactly as it was, with no error and no duplicate object.
    pub fn create_table(&mut self, name: &String)
        ensures
            has_table(old(self).tables@, name@) ==> *final(self) == *old(self),
            !has_table(old(self).tables@, name@) ==> {
                &&& final(self).tables@.len() == old(self).tables@.len() + 1
                &&& forall|j: int| 0 <= j < old(self).tables@.len() ==> final(self).tables@[j]
                    == old(self).tables@[j]
                &&& final(self).tables@.last().name@ == name@
                &&& final(self).tables@.last().rows@.len() == 0
            },
            has_table(final(self).tables@, name@),
            model_wf(old(self).tables@) ==> model_wf(final(self).tables@),
    {
        match self.find_table(name) {
            Some(i) => {
                proof {
                    assert(has_table(self.tables@, name@));
                }
            },
            None => {
                let ghost ts = self.tables@;
                self.tables.push(TargetTable { name: name.clone(), rows: Vec::new() });
                proof {
                    assert(self.tables@.last().name@ == name@);
                    assert(has_table(self.tables@, name@));
                    if model_wf(ts) {
                        lemma_create_preserves_wf(ts, self.tables@.last());
                        assert(apply_create(ts, self.tables@.last()) =~= self.tables@);
                    }
                }
            },
        }
    }

    /// Appends one batch's rows, in order, to the named table.
    /// Nothing else in the store changes.
    pub fn append_batch(&mut self, name: &String, batch: Batch)
        requires
            has_table(old(self).tables@, name@),
            model_wf(old(self).tables@),
        ensures
            final(self).tables@.len() == old(self).tables@.len(),
            model_wf(final(self).tables@),
            ({
                let k = table_at(old(self).tables@, name@);
                &&& final(self).tables@[k].name == old(self).tables@[k].name
                &&& final(self).tables@[k].rows@ == old(self).tables@[k].rows@ + batch.rows@
                &&& forall|j: int| 0 <= j < old(self).tables@.len() && j != k
                    ==> final(self).tables@[j] == old(self).tables@[j]
            }),
    {
        let ghost k = table_at(old(self).tables@, name@);
        match self.find_table(name) {
            Some(i) => {
                proof {
                    assert(0 <= k < self.tables@.len() && self.tables@[k].name@ == name@);
                    assert(i as int == k);
                }
                let mut rest = batch.rows;
                let ghost brows = rest@;
                let n0 = rest.len();
                proof {
                    assert(brows.len() == n0);
                }
                let mut taken: usize = 0;
                while rest.len() > 0
                    invariant
                        0 <= k < self.tables@.len(),
                        brows.len() <= usize::MAX,
                        taken + rest@.len() == brows.len(),
                        rest@ == brows.skip(taken as int),
                        self.tables@.len() == old(self).tables@.len(),
                        self.tables@[k].name == old(self).tables@[k].name,
                        self.tables@[k].rows@ == old(self).tables@[k].rows@ + brows.take(
                            taken as int,
                        ),
                        forall|j: int| 0 <= j < old(self).tables@.len() && j != k ==> self.tables@[j]
                            == old(self).tables@[j],
                        i as int == k,
                    decreases rest@.len(),
                {
                    let row = rest.remove(0);
                    proof {
                        assert(rest@ =~= brows.skip(taken as int + 1));
                        assert(row == brows[taken as int]);
                    }
                    push_row(&mut self.tables, i, row);
                    proof {
                        assert(self.tables@[k].rows@ =~= old(self).tables@[k].rows@ + brows.take(
                            taken as int + 1,
                        ));
                    }
                    taken = taken + 1;
                }
                proof {
                    assert(brows.take(brows.len() as int) =~= brows);
                    assert(self.tables@[k].rows@ =~= old(self).tables@[k].rows@ + brows);
                }
            },
            None => {
                proof {
                    assert(false);
                }
            },
        }
    }

    /// The rows currently held for the table at index `i`.
    pub fn rows_of(&self, i: usize) -> (r: &Vec<Row>)
        requires
            i < self.tables@.len(),
        ensures
            r@ == self.tables@[i as int].rows@,
    {
        &self.tables[i].rows
    }

    /// How many tables the store holds.
    pub fn table_count(&self) -> (n: usize)
        ensures
            n == self.tables@.len(),
    {
        self.tables.len()
    }
}

/// Appends one row to the rows of the table at index `i`.
fn push_row(tables: &mut Vec<TargetTable>, i: usize, row: Row)
    requires
        i < old(tables)@.len(),
    ensures
        final(tables)@.len() == old(tables)@.len(),
        final(tables)@[i as int].name == old(tables)@[i as int].name,
        final(tables)@[i as int].rows@ == old(tables)@[i as int].rows@.push(row),
        forall|j: int| 0 <= j < old(tables)@.len() && j != i ==> final(tables)@[j] == old(
            tables,
        )@[j],
{
    let mut t = tables.remove(i);
    t.rows.push(row);
    tables.insert(i, t);
    proof {
        assert forall|j: int| 0 <= j < old(tables)@.len() && j != i implies tables@[j] == old(
            tables,
        )@[j] by {
            if j < i {
                assert(tables@[j] == old(tables)@.remove(i as int)[j]);
            } else {
                assert(tables@[j] == old(tables)@.remove(i as int)[j - 1]);
            }
        }
    }
}

} // verus!
