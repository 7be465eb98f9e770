//! The rename executor model.
//!
//! Committing a batch performs one filesystem rename per job.  A job whose
//! source vanished before the commit is failed with a fixed reason and no
//! rename is attempted; an operating-system error fails the job with the
//! system's own message; a task that ends abnormally is failed as an
//! executor fault rather than dropped; every job gets exactly one outcome
//! and failures never spill over to sibling jobs.  The filesystem calls
//! themselves happen outside the library; it decides each job's outcome
//! from what was observed and aggregates the failures.

use vstd::prelude::*;

verus! {

/// One file's pending rename: the path it has now and the path it should
/// get.
#[derive(Debug, Clone)]
pub struct RenameJob {
    pub source: String,
    pub target: String,
}

/// One failed rename: the path that could not be renamed and the reason.
#[derive(Debug, Clone)]
pub struct RenameError {
    pub old_path: String,
    pub error: String,
}

/// What was observed for one job: the source was gone before the rename,
/// the rename went through, the system refused it, or the task performing
/// it ended abnormally without reporting either way.
#[derive(Debug, Clone)]
pub enum RenameEvent {
    SourceMissing,
    Renamed,
    OsError(String),
    Aborted,
}

/// A job's terminal state for one commit.
#[derive(Debug, Clone)]
pub enum RenameOutcome {
    Succeeded,
    Failed(String),
}

/// The fixed reason reported when a job's source vanished before commit.
pub open spec fn source_missing_reason() -> Seq<char> {
    "source no longer exists"@
}

/// The fixed reason reported when a job's task ended abnormally: an
/// infrastructure failure, distinct from a missing source and from any
/// filesystem refusal.
pub open spec fn executor_fault_reason() -> Seq<char> {
    "executor fault"@
}

/// Decide a job's outcome from what was observed.  A missing source fails
/// with the fixed reason; a refusal fails with the system's message,
/// verbatim; an aborted task fails as an executor fault rather than
/// disappearing from the results.
pub fn outcome_of(event: &RenameEvent) -> (r: RenameOutcome)
    ensures
        event is SourceMissing ==> (r matches RenameOutcome::Failed(reason) && reason@
            == source_missing_reason()),
        event is Renamed ==> r is Succeeded,
        event matches RenameEvent::OsError(e) ==> (r matches RenameOutcome::Failed(reason)
            && reason@ == e@),
        event is Aborted ==> (r matches RenameOutcome::Failed(reason) && reason@
            == executor_fault_reason()),
{
    match event {
        RenameEvent::SourceMissing => RenameOutcome::Failed(
            String::from_str("source no longer exists"),
        ),
        RenameEvent::Renamed => RenameOutcome::Succeeded,
        RenameEvent::OsError(e) => RenameOutcome::Failed(e.clone()),
        RenameEvent::Aborted => RenameOutcome::Failed(String::from_str("executor fault")),
    }
}

/// The failure list of a batch: one entry per failed job, in job order,
/// carrying the job's source path and the failure reason.
pub open spec fn failures_spec(jobs: Seq<RenameJob>, outcomes: Seq<RenameOutcome>) -> Seq<
    RenameError,
>
    decreases jobs.len(),
{
    if jobs.len() == 0 || outcomes.len() == 0 {
        Seq::empty()
    } else {
        failures_spec(jobs.drop_last(), outcomes.drop_last()) + (match outcomes.last() {
            RenameOutcome::Succeeded => Seq::empty(),
            RenameOutcome::Failed(reason) => seq![
                RenameError { old_path: jobs.last().source, error: reason },
            ],
        })
    }
}

/// How many jobs of a batch succeeded.
pub open spec fn count_succeeded(outcomes: Seq<RenameOutcome>) -> int
    decreases outcomes.len(),
{
    if outcomes.len() == 0 {
        0
    } else {
        count_succeeded(outcomes.drop_last()) + (if outcomes.last() is Succeeded {
            1int
        } else {
            0int
        })
    }
}

/// Every job gets exactly one outcome: the failures reported and the jobs
/// that succeeded together account for the whole batch, and no job is in
/// both.
pub proof fn lemma_outcome_partition(jobs: Seq<RenameJob>, outcomes: Seq<RenameOutcome>)
    requires
        jobs.len() == outcomes.len(),
    ensures
        failures_spec(jobs, outcomes).len() + count_succeeded(outcomes) == jobs.len(),
    decreases jobs.len(),
{
    if jobs.len() > 0 {
        lemma_outcome_partition(jobs.drop_last(), outcomes.drop_last());
    }
}

/// A batch in which every job succeeded reports no failure at all.
pub proof fn lemma_all_succeeded_no_failures(jobs: Seq<RenameJob>, outcomes: Seq<RenameOutcome>)
    requires
        jobs.len() == outcomes.len(),
        forall|j: int| 0 <= j < outcomes.len() ==> outcomes[j] is Succeeded,
    ensures
        failures_spec(jobs, outcomes).len() == 0,
    decreases jobs.len(),
{
    if jobs.len() > 0 {
        lemma_all_succeeded_no_failures(jobs.drop_last(), outcomes.drop_last());
    }
}

/// A lone job whose source vanished yields exactly one failure, with the
/// fixed reason and that job's path, and no failure for any sibling job.
pub proof fn lemma_single_missing_source(
    jobs: Seq<RenameJob>,
    outcomes: Seq<RenameOutcome>,
    k: int,
)
    requires
        jobs.len() == outcomes.len(),
        0 <= k < outcomes.len(),
        outcomes[k] matches RenameOutcome::Failed(reason) && reason@ == source_missing_reason(),
        forall|j: int| 0 <= j < outcomes.len() && j != k ==> outcomes[j] is Succeeded,
    ensures
        failures_spec(jobs, outcomes).len() == 1,
        failures_spec(jobs, outcomes)[0].old_path == jobs[k].source,
        failures_spec(jobs, outcomes)[0].error@ == source_missing_reason(),
    decreases jobs.len(),
{
    if k == jobs.len() - 1 {
        lemma_all_succeeded_no_failures(jobs.drop_last(), outcomes.drop_last());
    } else {
        lemma_single_missing_source(jobs.drop_last(), outcomes.drop_last(), k);
    }
}

/// Gather the failures of a batch, one entry per failed job, in job order.
pub fn collect_failures(jobs: &Vec<RenameJob>, outcomes: &Vec<RenameOutcome>) -> (r: Vec<
    RenameError,
>)
    requires
        jobs@.len() == outcomes@.len(),
    ensures
        r@ == failures_spec(jobs@, outcomes@),
{
    let n: usize = jobs.len();
    let mut r: Vec<RenameError> = Vec::new();
    let mut i: usize = 0;
    proof {
        assert(jobs@.take(0).len() == 0);
    }
    while i < n
        invariant
            n == jobs@.len(),
            n == outcomes@.len(),
            i <= n,
            r@ == failures_spec(jobs@.take(i as int), outcomes@.take(i as int)),
        decreases n - i,
    {
        match &outcomes[i] {
            RenameOutcome::Succeeded => {
                proof {
                    assert(r@ + Seq::<RenameError>::empty() =~= r@);
                }
            },
            RenameOutcome::Failed(reason) => {
                r.push(RenameError { old_path: jobs[i].source.clone(), error: reason.clone() });
            },
        }
        proof {
            assert(jobs@.take(i + 1).drop_last() =~= jobs@.take(i as int));
            assert(outcomes@.take(i + 1).drop_last() =~= outcomes@.take(i as int));
            assert(jobs@.take(i + 1).last() == jobs@[i as int]);
            assert(outcomes@.take(i + 1).last() == outcomes@[i as int]);
        }
        i += 1;
    }
    proof {
        assert(jobs@.take(n as int) =~= jobs@);
        assert(outcomes@.take(n as int) =~= outcomes@);
    }
    r
}

/// Fold a commit's outcomes back into the batch: a job that succeeded now
/// lives at its target, so the target becomes the new source; a failed job
/// keeps its old source, preserving retry-ability.  Targets are untouched.
pub fn reconcile(jobs: &mut Vec<RenameJob>, outcomes: &Vec<RenameOutcome>)
    requires
        old(jobs)@.len() == outcomes@.len(),
    ensures
        final(jobs)@.len() == old(jobs)@.len(),
        forall|k: int|
            0 <= k < old(jobs)@.len() ==> final(jobs)@[k].target@ == old(jobs)@[k].target@ && (
            outcomes@[k] is Succeeded ==> final(jobs)@[k].source@ == old(jobs)@[k].target@) && (
            outcomes@[k] is Failed ==> final(jobs)@[k].source@ == old(jobs)@[k].source@),
{
    let n: usize = jobs.len();
    let mut out: Vec<RenameJob> = Vec::new();
    let mut i: usize = 0;
    while i < n
        invariant
            n == jobs@.len(),
            n == outcomes@.len(),
            i <= n,
            out@.len() == i,
            forall|k: int|
                0 <= k < i ==> out@[k].target@ == jobs@[k].target@ && (outcomes@[k] is Succeeded
                    ==> out@[k].source@ == jobs@[k].target@) && (outcomes@[k] is Failed
                    ==> out@[k].source@ == jobs@[k].source@),
        decreases n - i,
    {
        let source = match &outcomes[i] {
            RenameOutcome::Succeeded => jobs[i].target.clone(),
            RenameOutcome::Failed(_) => jobs[i].source.clone(),
        };
        out.push(RenameJob { source, target: jobs[i].target.clone() });
        i += 1;
    }
    *jobs = out;
}

} // verus!
