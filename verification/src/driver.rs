//! The migration driver as a state machine. One run walks the to-apply list
//! in order; for each file it opens a transaction, inserts the history row,
//! executes the expanded script, and commits — or rolls back and stops at
//! the first failure, so a failed migration leaves neither schema change nor
//! history row behind. The caller performs each returned action against the
//! database and feeds the outcome back in.
use vstd::prelude::*;
use vstd::string::StringExecFns;

use crate::error::Error;
use crate::files::file_views_of;
use crate::files::views_of;
use crate::files::classify_files;
use crate::files::filter_v_files;
use crate::files::lemma_v_filter_multiset_eq;
use crate::files::lemma_v_filter_sorted;
use crate::files::sort_sql_files;
use crate::files::spec_v_subset;
use crate::files::spec_views_sorted;
use crate::files::SqlFile;
use crate::files::SqlInnerFile;
use crate::files::SqlInnerFileView;
use crate::history::NewHistoryRow;
use crate::history::SchemaHistoryRow;
use crate::placeholders::Placeholders;
use crate::reconcile::filter_out_and_verify_previous_migrations;
use crate::reconcile::row_views_of;
use crate::reconcile::spec_common_len;
use crate::reconcile::spec_first_mismatch;
use crate::template::fill_template;
use crate::template::spec_expand;

verus! {

/// Relies on chrono's Utc::now: the current wall-clock time in UTC, as
/// microseconds since the Unix epoch. Nothing is assumed of the value.
#[verifier::external_body]
fn now_utc_micros() -> i64 {
    chrono::Utc::now().timestamp_micros()
}

/// Where a run stands. Per file the phases go Pending, InTx, RowInserted,
/// Executed and back to Pending for the next file; any failure passes
/// through Failing (the transaction still has to be rolled back) into
/// Failed. Done and Failed are terminal.
pub enum RunPhase {
    /// The next file's transaction has not begun.
    Pending,
    /// BEGIN has been acknowledged; the history row is to be inserted.
    InTx,
    /// The history row is in; the expanded script it carries is to be run.
    RowInserted(String),
    /// The script ran; the transaction is to be committed.
    Executed,
    /// A step failed; the transaction is to be rolled back.
    Failing(Error),
    /// Every file in the list was applied and committed.
    Done,
    /// The run ended in this error; nothing further is attempted.
    Failed(Error),
}

/// What the caller must do next against the database.
pub enum MigrationAction {
    /// Open a transaction.
    Begin,
    /// Insert this row into the history table.
    InsertRow(NewHistoryRow),
    /// Execute this expanded script as a single batch.
    Execute(String),
    /// Commit the open transaction.
    Commit,
    /// Roll the open transaction back.
    Rollback,
    /// The run is over; release the client.
    Stop,
}

/// What the database answered to the last action.
pub enum MigrationEvent {
    Succeeded,
    DbError(String),
}

/// The payload of the history row recorded for a file: its version string,
/// description, kind prefix and file name, its checksum, the fixed
/// `installed_by` marker, a zero execution time and success set in advance
/// (the row only survives if the transaction commits).
pub open spec fn spec_row_for_file(row: NewHistoryRow, f: SqlInnerFileView) -> bool {
    &&& (match row.version {
        Some(v) => f.version == Some(v@),
        None => f.version is None,
    })
    &&& row.description@ == f.description
    &&& row.kind@ == f.prefix
    &&& row.script@ == f.file_name
    &&& row.checksum as int == f.checksum
    &&& row.installed_by@ == "installed_by"@
    &&& row.execution_time == 0
    &&& row.success == true
}

/// One migration run over a to-apply list.
pub struct MigrationRun {
    pub to_apply: Vec<SqlInnerFile>,
    pub placeholders: Placeholders,
    pub applied: usize,
    pub phase: RunPhase,
}

impl MigrationRun {
    /// The run is consistent: the applied count is within the list, every
    /// in-flight phase points at a real file, a terminal Done means the
    /// whole list went through, and a script held in RowInserted is the
    /// expansion of the current file's content.
    pub open spec fn wf(&self) -> bool {
        &&& self.applied <= self.to_apply@.len()
        &&& (match self.phase {
            RunPhase::Pending => self.applied < self.to_apply@.len(),
            RunPhase::InTx => self.applied < self.to_apply@.len(),
            RunPhase::RowInserted(s) => self.applied < self.to_apply@.len() && spec_expand(
                self.to_apply@[self.applied as int]@.content,
                self.placeholders@,
            ) == Ok::<Seq<char>, Seq<char>>(s@),
            RunPhase::Executed => self.applied < self.to_apply@.len(),
            RunPhase::Failing(_) => true,
            RunPhase::Done => self.applied == self.to_apply@.len(),
            RunPhase::Failed(_) => true,
        })
    }

    /// The migrations this run has applied and committed so far, in order.
    pub open spec fn committed(&self) -> Seq<SqlInnerFileView> {
        views_of(self.to_apply@).take(self.applied as int)
    }

    /// A run over a to-apply list: Done at once when the list is empty.
    pub fn new(to_apply: Vec<SqlInnerFile>, placeholders: Placeholders) -> (r: MigrationRun)
        ensures
            r.wf(),
            r.to_apply@ == to_apply@,
            r.placeholders@ == placeholders@,
            r.applied == 0,
            to_apply@.len() == 0 ==> r.phase is Done,
            to_apply@.len() > 0 ==> r.phase is Pending,
    {
        let phase = if to_apply.len() == 0 {
            RunPhase::Done
        } else {
            RunPhase::Pending
        };
        MigrationRun { to_apply, placeholders, applied: 0, phase }
    }

    /// What the caller must do next, given where the run stands. In InTx
    /// the action carries the history row for the current file, stamped
    /// with the wall clock; in RowInserted it carries the expanded script.
    pub fn next_action(&self) -> (a: MigrationAction)
        requires
            self.wf(),
        ensures
            match self.phase {
                RunPhase::Pending => a is Begin,
                RunPhase::InTx => a matches MigrationAction::InsertRow(row)
                    && spec_row_for_file(row, self.to_apply@[self.applied as int]@),
                RunPhase::RowInserted(s) => a matches MigrationAction::Execute(sql) && sql@
                    == s@,
                RunPhase::Executed => a is Commit,
                RunPhase::Failing(_) => a is Rollback,
                RunPhase::Done => a is Stop,
                RunPhase::Failed(_) => a is Stop,
            },
    {
        match &self.phase {
            RunPhase::Pending => MigrationAction::Begin,
            RunPhase::InTx => {
                let file = &self.to_apply[self.applied];
                let version = match &file.version {
                    Some(v) => Some(v.clone()),
                    None => None,
                };
                MigrationAction::InsertRow(
                    NewHistoryRow {
                        version,
                        description: file.description.clone(),
                        kind: file.prefix.clone(),
                        script: file.file_name.clone(),
                        checksum: file.checksum,
                        installed_by: String::from_str("installed_by"),
                        installed_on_micros: now_utc_micros(),
                        execution_time: 0,
                        success: true,
                    },
                )
            },
            RunPhase::RowInserted(s) => MigrationAction::Execute(s.clone()),
            RunPhase::Executed => MigrationAction::Commit,
            RunPhase::Failing(_) => MigrationAction::Rollback,
            RunPhase::Done => MigrationAction::Stop,
            RunPhase::Failed(_) => MigrationAction::Stop,
        }
    }

    /// Advances the run on the database's answer to the last action. A
    /// database error in any in-flight phase sends the run through Failing
    /// — the transaction is rolled back first — into Failed; an error
    /// answering the Rollback itself surfaces in its place. A missing
    /// placeholder discovered when the current file's content is expanded
    /// fails the run the same way. The applied count grows exactly when a
    /// commit is acknowledged.
    pub fn on_event(&mut self, ev: MigrationEvent)
        requires
            old(self).wf(),
            !(old(self).phase is Done),
            !(old(self).phase is Failed),
        ensures
            final(self).wf(),
            final(self).to_apply@ == old(self).to_apply@,
            final(self).placeholders@ == old(self).placeholders@,
            match (old(self).phase, ev) {
                (RunPhase::Pending, MigrationEvent::Succeeded) => final(self).phase is InTx
                    && final(self).applied == old(self).applied,
                (RunPhase::InTx, MigrationEvent::Succeeded) => final(self).applied
                    == old(self).applied && (match spec_expand(
                    old(self).to_apply@[old(self).applied as int]@.content,
                    old(self).placeholders@,
                ) {
                    Ok(sql) => final(self).phase matches RunPhase::RowInserted(s) && s@ == sql,
                    Err(name) => final(self).phase matches RunPhase::Failing(
                        Error::MissingVariableTemplateError(me),
                    ) && me.name@ == name,
                }),
                (RunPhase::RowInserted(_), MigrationEvent::Succeeded) => final(self).phase
                    is Executed && final(self).applied == old(self).applied,
                (RunPhase::Executed, MigrationEvent::Succeeded) => final(self).applied
                    == old(self).applied + 1 && (if old(self).applied + 1 == old(
                    self).to_apply@.len() {
                    final(self).phase is Done
                } else {
                    final(self).phase is Pending
                }),
                (RunPhase::Failing(e), MigrationEvent::Succeeded) => final(self).phase
                    matches RunPhase::Failed(e2) && e2 == e && final(self).applied
                    == old(self).applied,
                (RunPhase::Failing(_), MigrationEvent::DbError(m)) => final(self).phase
                    matches RunPhase::Failed(Error::Database(m2)) && m2@ == m@
                    && final(self).applied == old(self).applied,
                (_, MigrationEvent::DbError(m)) => final(self).phase matches RunPhase::Failing(
                    Error::Database(m2),
                ) && m2@ == m@ && final(self).applied == old(self).applied,
                _ => false,
            },
    {
        let mut ph = RunPhase::Done;
        core::mem::swap(&mut ph, &mut self.phase);
        let next = match (ph, ev) {
            (RunPhase::Pending, MigrationEvent::Succeeded) => RunPhase::InTx,
            (RunPhase::InTx, MigrationEvent::Succeeded) => {
                let file = &self.to_apply[self.applied];
                match fill_template(file.content.as_str(), &self.placeholders) {
                    Ok(sql) => RunPhase::RowInserted(sql),
                    Err(e) => RunPhase::Failing(e),
                }
            },
            (RunPhase::RowInserted(_), MigrationEvent::Succeeded) => RunPhase::Executed,
            (RunPhase::Executed, MigrationEvent::Succeeded) => {
                let n = self.to_apply.len();
                assert(self.applied < n);
                self.applied = self.applied + 1;
                if self.applied == self.to_apply.len() {
                    RunPhase::Done
                } else {
                    RunPhase::Pending
                }
            },
            (RunPhase::Failing(e), MigrationEvent::Succeeded) => RunPhase::Failed(e),
            (RunPhase::Done, MigrationEvent::Succeeded) => RunPhase::Done,
            (RunPhase::Failed(e), MigrationEvent::Succeeded) => RunPhase::Failed(e),
            (RunPhase::Failing(_), MigrationEvent::DbError(m)) => RunPhase::Failed(
                Error::Database(m),
            ),
            (_, MigrationEvent::DbError(m)) => RunPhase::Failing(Error::Database(m)),
        };
        self.phase = next;
    }
}

/// Prepares a directory's worth of loaded scripts for a run: classifies
/// them (unclassifiable names are silently excluded), sorts them into the
/// migration order, and retains only the forward-versioned migrations. The
/// result holds exactly the forward-versioned subset of the input, sorted.
pub fn prepare_sql_files(files: Vec<SqlFile>) -> (r: Vec<SqlInnerFile>)
    ensures
        views_of(r@).to_multiset() == spec_v_subset(file_views_of(files@)).to_multiset(),
        spec_views_sorted(views_of(r@)),
{
    let ghost fv = file_views_of(files@);
    let classified = classify_files(files);
    let sorted = sort_sql_files(classified);
    let ghost sorted_views = views_of(sorted@);
    let r = filter_v_files(sorted);
    proof {
        lemma_v_filter_multiset_eq(sorted_views, crate::files::spec_classified(fv));
        lemma_v_filter_sorted(sorted_views);
    }
    r
}

/// Everything the driver decides before the first transaction: classify,
/// sort and filter the loaded scripts, then reconcile them against the
/// history read in rank order. On success the returned run stands at the
/// first unapplied migration; a fresh database (empty history) always
/// succeeds, with the whole forward-versioned subset to apply.
pub fn start_run(
    files: Vec<SqlFile>,
    history: &Vec<SchemaHistoryRow>,
    placeholders: Placeholders,
) -> (r: Result<MigrationRun, Error>)
    ensures
        match r {
            Ok(run) => {
                &&& run.wf()
                &&& run.applied == 0
                &&& run.placeholders@ == placeholders@
                &&& spec_views_sorted(views_of(run.to_apply@))
                &&& history@.len() == 0 ==> views_of(run.to_apply@).to_multiset()
                    == spec_v_subset(file_views_of(files@)).to_multiset()
                &&& exists|sorted: Seq<SqlInnerFileView>| {
                    &&& #[trigger] sorted.to_multiset() == spec_v_subset(
                        file_views_of(files@),
                    ).to_multiset()
                    &&& spec_views_sorted(sorted)
                    &&& spec_first_mismatch(sorted, row_views_of(history@)) is None
                    &&& views_of(run.to_apply@) == sorted.skip(
                        spec_common_len(sorted, row_views_of(history@)),
                    )
                }
            },
            Err(e) => exists|sorted: Seq<SqlInnerFileView>| {
                &&& #[trigger] sorted.to_multiset() == spec_v_subset(
                    file_views_of(files@),
                ).to_multiset()
                &&& spec_views_sorted(sorted)
                &&& spec_first_mismatch(sorted, row_views_of(history@)) matches Some(im)
                    && e matches Error::ChecksumMismatchError(c) && c.file_name@
                    == sorted[im].file_name && c.file_checksum as int == sorted[im].checksum
                    && c.applied_checksum as int == row_views_of(history@)[im].checksum
            },
        },
{
    let ghost fv = file_views_of(files@);
    let prepared = prepare_sql_files(files);
    let ghost pv = views_of(prepared@);
    match filter_out_and_verify_previous_migrations(prepared, history) {
        Ok(rest) => {
            proof {
                let hv = row_views_of(history@);
                assert(views_of(rest@) == pv.skip(spec_common_len(pv, hv)));
                assert forall|i: int, j: int| 0 <= i < j < views_of(rest@).len() implies
                    #[trigger] crate::files::spec_file_le(
                    views_of(rest@)[i].file_name,
                    views_of(rest@)[j].file_name,
                ) by {
                    let c = spec_common_len(pv, hv);
                    assert(views_of(rest@)[i] == pv[i + c]);
                    assert(views_of(rest@)[j] == pv[j + c]);
                }
                if history@.len() == 0 {
                    assert(hv.len() == 0);
                    assert(spec_common_len(pv, hv) == 0);
                    assert(views_of(rest@) =~= pv);
                }
            }
            Ok(MigrationRun::new(rest, placeholders))
        },
        Err(e) => {
            proof {
                let hv = row_views_of(history@);
                if hv.len() == 0 {
                    assert(spec_common_len(pv, hv) == 0);
                    assert(spec_first_mismatch(pv, hv) is None);
                }
            }
            Err(e)
        },
    }
}

/// A run that reached Done applied every migration it was given; started on
/// a fresh database, that is exactly the forward-versioned subset of the
/// input directories, in version order.
pub proof fn lemma_complete_run_applies_v_subset(
    run: MigrationRun,
    files: Seq<crate::files::SqlFileView>,
)
    requires
        run.wf(),
        run.phase is Done,
        views_of(run.to_apply@).to_multiset() == spec_v_subset(files).to_multiset(),
        spec_views_sorted(views_of(run.to_apply@)),
    ensures
        run.committed().to_multiset() == spec_v_subset(files).to_multiset(),
        spec_views_sorted(run.committed()),
{
    assert(run.applied == run.to_apply@.len());
    assert(run.committed() =~= views_of(run.to_apply@));
}

/// Only forward-versioned migrations are ever applied: every migration a
/// consistent run has committed is V-kinded, whenever the run's to-apply
/// list holds the forward-versioned subset of some input.
pub proof fn lemma_only_v_migrations_are_applied(
    run: MigrationRun,
    files: Seq<crate::files::SqlFileView>,
)
    requires
        run.wf(),
        views_of(run.to_apply@).to_multiset() == spec_v_subset(files).to_multiset(),
    ensures
        forall|i: int|
            0 <= i < run.committed().len() ==> crate::files::spec_is_v(
                #[trigger] run.committed()[i].file_name,
            ),
{
    broadcast use vstd::seq_lib::group_to_multiset_ensures;

    let ta = views_of(run.to_apply@);
    let vs = spec_v_subset(files);
    assert forall|i: int| 0 <= i < run.committed().len() implies crate::files::spec_is_v(
        #[trigger] run.committed()[i].file_name,
    ) by {
        let e = run.committed()[i];
        assert(e == ta[i]);
        assert(ta.contains(e));
        assert(ta.to_multiset().count(e) > 0);
        assert(vs.contains(e));
        let k = choose|k: int| 0 <= k < vs.len() && vs[k] == e;
        crate::files::spec_classified(files).lemma_filter_pred(
            |fv: SqlInnerFileView| crate::files::spec_is_v(fv.file_name),
            k,
        );
    }
}

} // verus!
