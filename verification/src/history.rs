//! The bookkeeping side of the engine: the shape of a `_schema_history` row,
//! the documented schema of the table, and an in-memory model of the store
//! with the transactional behaviour the driver relies on.
use vstd::prelude::*;

verus! {

/// One row of the `_schema_history` table: a record of one apply attempt.
/// The `kind` field is the `type` column of the table; the timestamp is
/// carried as microseconds since the Unix epoch.
#[derive(Debug, Clone, PartialEq)]
pub struct SchemaHistoryRow {
    pub installed_rank: i32,
    pub version: Option<String>,
    pub description: String,
    pub kind: String,
    pub script: String,
    pub checksum: i32,
    pub installed_by: String,
    pub installed_on_micros: i64,
    pub execution_time: i32,
    pub success: bool,
}

/// The mathematical value of a history row.
pub struct SchemaHistoryRowView {
    pub installed_rank: int,
    pub version: Option<Seq<char>>,
    pub description: Seq<char>,
    pub kind: Seq<char>,
    pub script: Seq<char>,
    pub checksum: int,
    pub installed_by: Seq<char>,
    pub installed_on_micros: int,
    pub execution_time: int,
    pub success: bool,
}

impl View for SchemaHistoryRow {
    type V = SchemaHistoryRowView;

    open spec fn view(&self) -> SchemaHistoryRowView {
        SchemaHistoryRowView {
            installed_rank: self.installed_rank as int,
            version: match self.version {
                Some(v) => Some(v@),
                None => None,
            },
            description: self.description@,
            kind: self.kind@,
            script: self.script@,
            checksum: self.checksum as int,
            installed_by: self.installed_by@,
            installed_on_micros: self.installed_on_micros as int,
            execution_time: self.execution_time as int,
            success: self.success,
        }
    }
}

/// A row as the driver hands it to the store: everything but the rank,
/// which the store assigns.
#[derive(Debug, Clone)]
pub struct NewHistoryRow {
    pub version: Option<String>,
    pub description: String,
    pub kind: String,
    pub script: String,
    pub checksum: i32,
    pub installed_by: String,
    pub installed_on_micros: i64,
    pub execution_time: i32,
    pub success: bool,
}

/// The history row a new-row payload becomes once the store assigns it
/// a rank.
pub open spec fn spec_row_with_rank(row: NewHistoryRow, rank: i32) -> SchemaHistoryRow {
    SchemaHistoryRow {
        installed_rank: rank,
        version: row.version,
        description: row.description,
        kind: row.kind,
        script: row.script,
        checksum: row.checksum,
        installed_by: row.installed_by,
        installed_on_micros: row.installed_on_micros,
        execution_time: row.execution_time,
        success: row.success,
    }
}

/// The `installed_rank` column strictly increases with position.
pub open spec fn spec_ranks_increasing(rows: Seq<SchemaHistoryRow>) -> bool {
    forall|i: int, j: int|
        0 <= i < j < rows.len() ==> (#[trigger] rows[i].installed_rank) < (
        #[trigger] rows[j].installed_rank)
}

/// An in-memory model of the `_schema_history` store with the transaction
/// protocol the driver uses: rows appended inside a transaction become
/// visible on commit and vanish on rollback; the store assigns each row the
/// next rank, and — like the serial column it models — a rank consumed by a
/// rolled-back transaction is never reused.
pub struct HistoryStoreModel {
    pub committed: Vec<SchemaHistoryRow>,
    pub pending: Vec<SchemaHistoryRow>,
    pub in_tx: bool,
    pub next_rank: i32,
}

impl HistoryStoreModel {
    /// The store is consistent: ranks strictly increase across the
    /// committed rows followed by the pending ones, every rank is below the
    /// next to be assigned, and nothing is pending outside a transaction.
    pub open spec fn wf(&self) -> bool {
        &&& spec_ranks_increasing(self.committed@ + self.pending@)
        &&& forall|i: int|
            0 <= i < (self.committed@ + self.pending@).len() ==> (#[trigger] (self.committed@
                + self.pending@)[i].installed_rank) < self.next_rank
        &&& (!self.in_tx ==> self.pending@.len() == 0)
    }

    /// The committed history, in rank order.
    pub open spec fn rows(&self) -> Seq<SchemaHistoryRow> {
        self.committed@
    }

    /// An empty store: no history, the first rank to assign is 1.
    pub fn new() -> (r: HistoryStoreModel)
        ensures
            r.wf(),
            r.rows() == Seq::<SchemaHistoryRow>::empty(),
            !r.in_tx,
            r.next_rank == 1,
    {
        let r = HistoryStoreModel {
            committed: Vec::new(),
            pending: Vec::new(),
            in_tx: false,
            next_rank: 1,
        };
        proof {
            assert(r.committed@ + r.pending@ =~= Seq::<SchemaHistoryRow>::empty());
        }
        r
    }

    /// Opens a transaction.
    pub fn begin(&mut self)
        requires
            old(self).wf(),
            !old(self).in_tx,
        ensures
            final(self).wf(),
            final(self).in_tx,
            final(self).rows() == old(self).rows(),
            final(self).pending@.len() == 0,
            final(self).next_rank == old(self).next_rank,
    {
        self.in_tx = true;
    }

    /// Appends one row inside the open transaction; the store assigns the
    /// row the next rank.
    pub fn append(&mut self, row: NewHistoryRow)
        requires
            old(self).wf(),
            old(self).in_tx,
            old(self).next_rank < i32::MAX,
        ensures
            final(self).wf(),
            final(self).in_tx,
            final(self).rows() == old(self).rows(),
            final(self).pending@ == old(self).pending@.push(
                spec_row_with_rank(row, old(self).next_rank),
            ),
            final(self).next_rank == old(self).next_rank + 1,
    {
        let assigned = SchemaHistoryRow {
            installed_rank: self.next_rank,
            version: row.version,
            description: row.description,
            kind: row.kind,
            script: row.script,
            checksum: row.checksum,
            installed_by: row.installed_by,
            installed_on_micros: row.installed_on_micros,
            execution_time: row.execution_time,
            success: row.success,
        };
        let ghost before = self.committed@ + self.pending@;
        self.pending.push(assigned);
        self.next_rank = self.next_rank + 1;
        proof {
            assert(self.committed@ + self.pending@ =~= before.push(assigned));
            assert forall|i: int, j: int|
                0 <= i < j < (self.committed@ + self.pending@).len() implies (
            #[trigger] (self.committed@ + self.pending@)[i].installed_rank) < (
            #[trigger] (self.committed@ + self.pending@)[j].installed_rank) by {
                if j < before.len() as int {
                } else {
                    assert((self.committed@ + self.pending@)[j] == assigned);
                }
            }
        }
    }

    /// Commits the open transaction: the pending rows become part of the
    /// history, after everything already committed.
    pub fn commit(&mut self)
        requires
            old(self).wf(),
            old(self).in_tx,
        ensures
            final(self).wf(),
            !final(self).in_tx,
            final(self).rows() == old(self).rows() + old(self).pending@,
            final(self).next_rank == old(self).next_rank,
    {
        let mut moved: Vec<SchemaHistoryRow> = Vec::new();
        core::mem::swap(&mut moved, &mut self.pending);
        self.committed.append(&mut moved);
        self.in_tx = false;
        proof {
            assert(self.committed@ + self.pending@ =~= self.committed@);
        }
    }

    /// Rolls the open transaction back: the pending rows are discarded and
    /// the committed history is exactly what it was.
    pub fn rollback(&mut self)
        requires
            old(self).wf(),
            old(self).in_tx,
        ensures
            final(self).wf(),
            !final(self).in_tx,
            final(self).rows() == old(self).rows(),
            final(self).next_rank == old(self).next_rank,
    {
        self.pending = Vec::new();
        self.in_tx = false;
        proof {
            assert(self.committed@ + self.pending@ =~= self.committed@);
            assert(old(self).committed@ + old(self).pending@ =~= old(self).committed@
                + old(self).pending@);
            assert forall|i: int, j: int|
                0 <= i < j < (self.committed@ + self.pending@).len() implies (
            #[trigger] (self.committed@ + self.pending@)[i].installed_rank) < (
            #[trigger] (self.committed@ + self.pending@)[j].installed_rank) by {
                assert((old(self).committed@ + old(self).pending@)[i] == self.committed@[i]);
                assert((old(self).committed@ + old(self).pending@)[j] == self.committed@[j]);
            }
            assert forall|i: int|
                0 <= i < (self.committed@ + self.pending@).len() implies (
            #[trigger] (self.committed@ + self.pending@)[i].installed_rank) < self.next_rank by {
                assert((old(self).committed@ + old(self).pending@)[i] == self.committed@[i]);
            }
        }
    }

    /// The committed history, in rank order.
    pub fn read_all(&self) -> (r: &Vec<SchemaHistoryRow>)
        ensures
            r@ == self.rows(),
    {
        &self.committed
    }
}

/// In every consistent store state the committed history's rank strictly
/// increases with position: the order the rows were applied in.
pub proof fn lemma_installed_rank_strictly_increases(m: &HistoryStoreModel)
    requires
        m.wf(),
    ensures
        spec_ranks_increasing(m.rows()),
{
    assert forall|i: int, j: int| 0 <= i < j < m.rows().len() implies (
    #[trigger] m.rows()[i].installed_rank) < (#[trigger] m.rows()[j].installed_rank) by {
        assert((m.committed@ + m.pending@)[i] == m.rows()[i]);
        assert((m.committed@ + m.pending@)[j] == m.rows()[j]);
    }
}

} // verus!
