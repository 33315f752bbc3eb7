//! The rollback step: undoes the successful operations of an execution, the last one first.

use vstd::prelude::*;
use std::sync::Arc;
use crate::apply::given;
use crate::clock::{elapsed_ms, start_clock};
use crate::domain::{RunStatus, VerifyItem};
use crate::execution::{
    completed_or_partial, OperationAction, OperationResult, WorkflowError, WorkflowResult,
};
use crate::order::{by_sequence_desc, rollback_order};
use crate::ports::{FileMutator, RollbackStore};

verus! {

/// What the file system answered while one operation was rolled back. Answers that were
/// never asked for on the path taken play no part in the outcome.
pub ghost struct RollbackObservation {
    pub target_exists: bool,
    pub target_size: Option<u64>,
    pub source_exists: bool,
    pub source_size: Option<u64>,
    pub target_deleted: Result<(), Seq<char>>,
    pub moved_back: Result<(), Seq<char>>,
    pub copied_back: Result<(), Seq<char>>,
    pub target_size_after_copy: Result<u64, Seq<char>>,
    pub source_size_after_copy: Result<u64, Seq<char>>,
    pub target_deleted_after_copy: Result<(), Seq<char>>,
}

/// The target still holds what apply left there: it exists and, when a size was recorded,
/// still has that size.
pub open spec fn target_unchanged(item: VerifyItem, obs: RollbackObservation) -> bool {
    &&& obs.target_exists
    &&& match item.expected_size {
        Some(size) => obs.target_size == Some(size),
        None => true,
    }
}

/// For a copy whose source was kept: the source still exists with the recorded size.
pub open spec fn source_unchanged(item: VerifyItem, obs: RollbackObservation) -> bool {
    &&& obs.source_exists
    &&& match item.expected_size {
        Some(size) => obs.source_size == Some(size),
        None => true,
    }
}

/// A reverse copy is confirmed when it succeeded and both sizes read back equal.
pub open spec fn reverse_copy_confirmed(obs: RollbackObservation) -> bool {
    &&& obs.copied_back is Ok
    &&& obs.target_size_after_copy is Ok
    &&& obs.source_size_after_copy is Ok
    &&& obs.target_size_after_copy->Ok_0 == obs.source_size_after_copy->Ok_0
}

/// The result and error code of rolling back one operation, given what the file system
/// answered.
pub open spec fn rollback_outcome(
    item: VerifyItem,
    dry_run: bool,
    obs: RollbackObservation,
) -> (OperationResult, Option<Seq<char>>) {
    if item.target is None {
        (OperationResult::Skipped, Some("target_missing_in_log"@))
    } else if !obs.target_exists {
        (OperationResult::Failed, Some("target_missing"@))
    } else if !target_unchanged(item, obs) {
        (OperationResult::Failed, Some("target_changed_since_apply"@))
    } else if item.action == OperationAction::CopySourceRetained {
        if !source_unchanged(item, obs) {
            (OperationResult::Failed, Some("source_changed_after_partial_copy"@))
        } else if dry_run {
            (OperationResult::Success, None)
        } else if obs.target_deleted is Ok {
            (OperationResult::Success, None)
        } else {
            (OperationResult::Failed, Some("partial_copy_cleanup_failed"@))
        }
    } else if obs.source_exists {
        (OperationResult::Skipped, Some("source_already_exists"@))
    } else if dry_run {
        (OperationResult::Success, None)
    } else if item.action == OperationAction::Move {
        if obs.moved_back is Ok {
            (OperationResult::Success, None)
        } else {
            (OperationResult::Failed, Some("reverse_move_failed"@))
        }
    } else if reverse_copy_confirmed(obs) {
        if obs.target_deleted_after_copy is Ok {
            (OperationResult::Success, None)
        } else {
            (OperationResult::Failed, Some("reverse_target_delete_failed"@))
        }
    } else {
        (OperationResult::Failed, Some("reverse_copy_verify_failed"@))
    }
}

/// The characters of an optional static text.
pub open spec fn opt_str_view(s: Option<&'static str>) -> Option<Seq<char>> {
    match s {
        Some(t) => Some(t@),
        None => None,
    }
}

/// The two observations agree on every query (they may differ in mutation results).
pub open spec fn same_queries(a: RollbackObservation, b: RollbackObservation) -> bool {
    &&& a.target_exists == b.target_exists
    &&& a.target_size == b.target_size
    &&& a.source_exists == b.source_exists
    &&& a.source_size == b.source_size
}

/// A dry run decides from queries alone: no mutation result plays a part in it.
pub proof fn law_dry_run_rollback_decides_from_queries(
    item: VerifyItem,
    a: RollbackObservation,
    b: RollbackObservation,
)
    requires
        same_queries(a, b),
    ensures
        rollback_outcome(item, true, a) == rollback_outcome(item, true, b),
{
}

/// A target that is gone or changed since apply is reported failed and left alone.
pub proof fn law_changed_target_fails(item: VerifyItem, dry_run: bool, obs: RollbackObservation)
    requires
        item.target is Some,
        !target_unchanged(item, obs),
    ensures
        rollback_outcome(item, dry_run, obs).0 == OperationResult::Failed,
{
}

/// A source that exists again is never overwritten by rolling back a move or a completed
/// copy: the operation is skipped.
pub proof fn law_existing_source_is_kept(item: VerifyItem, dry_run: bool, obs: RollbackObservation)
    requires
        item.target is Some,
        target_unchanged(item, obs),
        item.action != OperationAction::CopySourceRetained,
        obs.source_exists,
    ensures
        rollback_outcome(item, dry_run, obs) == (
            OperationResult::Skipped,
            Some("source_already_exists"@),
        ),
{
}

/// Removes the partial copy left by a failed cross-volume apply; only callable for a real
/// run whose target and kept source are both unchanged.
fn delete_partial_copy<F: FileMutator>(
    files: &F,
    item: &VerifyItem,
    target: &str,
    dry_run: bool,
    Ghost(obs): Ghost<RollbackObservation>,
) -> Result<(), String>
    requires
        !dry_run,
        item.action == OperationAction::CopySourceRetained,
        item.target matches Some(t) && t@ == target@,
        target_unchanged(*item, obs),
        source_unchanged(*item, obs),
{
    files.delete_file(target)
}

/// Moves a target back to its source; only callable for a real run whose target is
/// unchanged and whose source is free.
fn move_back<F: FileMutator>(
    files: &F,
    item: &VerifyItem,
    target: &str,
    dry_run: bool,
    Ghost(obs): Ghost<RollbackObservation>,
) -> Result<(), String>
    requires
        !dry_run,
        target_unchanged(*item, obs),
        !obs.source_exists,
{
    files.move_file(target, item.source.as_str())
}

/// Copies a target back to its source; only callable for a real run whose target is
/// unchanged and whose source is free.
fn copy_back<F: FileMutator>(
    files: &F,
    item: &VerifyItem,
    target: &str,
    dry_run: bool,
    Ghost(obs): Ghost<RollbackObservation>,
) -> Result<(), String>
    requires
        !dry_run,
        target_unchanged(*item, obs),
        !obs.source_exists,
{
    files.copy_file(target, item.source.as_str())
}

/// Deletes a target after it was copied back; only callable when both sizes read back equal.
fn delete_target_after_copy<F: FileMutator>(
    files: &F,
    target: &str,
    dry_run: bool,
    target_size: u64,
    source_size: u64,
) -> Result<(), String>
    requires
        !dry_run,
        target_size == source_size,
{
    files.delete_file(target)
}

fn size_opt<F: FileMutator>(files: &F, path: &str) -> Option<u64> {
    match files.size(path) {
        Ok(n) => Some(n),
        Err(_) => None,
    }
}

/// What the file system answered while one operation was rolled back; `None` marks a
/// question that was not asked or an operation that was not attempted (a size that could
/// not be read is `Some(None)`).
pub struct RollbackAnswers {
    pub target_exists: Option<bool>,
    pub target_size: Option<Option<u64>>,
    pub source_exists: Option<bool>,
    pub source_size: Option<Option<u64>>,
    pub target_deleted: Option<Result<(), String>>,
    pub moved_back: Option<Result<(), String>>,
    pub copied_back: Option<Result<(), String>>,
    pub target_size_after_copy: Option<Result<u64, String>>,
    pub source_size_after_copy: Option<Result<u64, String>>,
    pub target_deleted_after_copy: Option<Result<(), String>>,
}

/// A size that was read, if one was.
pub open spec fn read_size(s: Option<Option<u64>>) -> Option<u64> {
    match s {
        Some(n) => n,
        None => None,
    }
}

impl RollbackAnswers {
    /// The answers as an observation (questions not asked read as missing files and
    /// operations that did nothing).
    pub open spec fn observation(self) -> RollbackObservation {
        RollbackObservation {
            target_exists: self.target_exists == Some(true),
            target_size: read_size(self.target_size),
            source_exists: self.source_exists == Some(true),
            source_size: read_size(self.source_size),
            target_deleted: given(self.target_deleted, ()),
            moved_back: given(self.moved_back, ()),
            copied_back: given(self.copied_back, ()),
            target_size_after_copy: given(self.target_size_after_copy, 0),
            source_size_after_copy: given(self.source_size_after_copy, 0),
            target_deleted_after_copy: given(self.target_deleted_after_copy, ()),
        }
    }
}

/// The logged target is still what apply left there, by the answers.
pub open spec fn target_checked(item: VerifyItem, a: RollbackAnswers) -> bool {
    &&& a.target_exists == Some(true)
    &&& match item.expected_size {
        Some(size) => a.target_size == Some(Some(size)),
        None => true,
    }
}

/// The kept source of a partial copy is still as logged, by the answers.
pub open spec fn source_checked(item: VerifyItem, a: RollbackAnswers) -> bool {
    &&& a.source_exists == Some(true)
    &&& match item.expected_size {
        Some(size) => a.source_size == Some(Some(size)),
        None => true,
    }
}

/// The questions rollback asks and the operations it attempts, and when: the logged
/// target's existence and (when a size was logged) its size; only for an unchanged target,
/// the source's existence; for a partial copy, the kept source's size and, in a real run
/// with the source unchanged, the deletion of the partial copy; otherwise, in a real run
/// with the source free, the move back (for a move) or the copy back, then after a
/// successful copy both sizes, and the target's deletion only when they were equal.
pub open spec fn rollback_queries(item: VerifyItem, dry_run: bool, a: RollbackAnswers) -> bool {
    let partial = item.action == OperationAction::CopySourceRetained;
    let free = target_checked(item, a) && !partial && a.source_exists == Some(false) && !dry_run;
    &&& (a.target_exists is Some <==> item.target is Some)
    &&& (a.target_size is Some <==> (a.target_exists == Some(true) && item.expected_size is Some))
    &&& (a.source_exists is Some <==> target_checked(item, a))
    &&& (a.source_size is Some <==> (target_checked(item, a) && partial && a.source_exists == Some(true)
        && item.expected_size is Some))
    &&& (a.target_deleted is Some <==> (target_checked(item, a) && partial && source_checked(item, a)
        && !dry_run))
    &&& (a.moved_back is Some <==> (free && item.action == OperationAction::Move))
    &&& (a.copied_back is Some <==> (free && item.action != OperationAction::Move))
    &&& (a.target_size_after_copy is Some <==> (a.copied_back matches Some(Ok(_))))
    &&& (a.source_size_after_copy is Some <==> (a.target_size_after_copy matches Some(Ok(_))))
    &&& (a.target_deleted_after_copy is Some <==> (a.target_size_after_copy matches Some(Ok(x))
        && a.source_size_after_copy == Some(Ok::<u64, String>(x))))
}

/// A dry rollback only asks: it attempts no deletion, move or copy.
pub proof fn law_dry_run_rollback_changes_nothing(item: VerifyItem, a: RollbackAnswers)
    requires
        rollback_queries(item, true, a),
    ensures
        a.target_deleted is None,
        a.moved_back is None,
        a.copied_back is None,
        a.target_deleted_after_copy is None,
{
}

/// Nothing is moved or copied back over a source seen to exist, nor away from a target
/// that is missing or changed since apply.
pub proof fn law_rollback_writes_only_over_free_source(item: VerifyItem, dry_run: bool, a: RollbackAnswers)
    requires
        rollback_queries(item, dry_run, a),
        a.moved_back is Some || a.copied_back is Some,
    ensures
        a.source_exists == Some(false),
        target_checked(item, a),
{
}

/// How one operation was rolled back: the result, the error code and the answers they rest
/// on.
pub struct RollbackStep {
    pub result: OperationResult,
    pub error: Option<&'static str>,
    pub answers: RollbackAnswers,
}

fn rollback_step(
    result: OperationResult,
    error: Option<&'static str>,
    answers: RollbackAnswers,
) -> (step: RollbackStep)
    ensures
        step.result == result,
        step.error == error,
        step.answers == answers,
{
    RollbackStep { result, error, answers }
}

/// The result of rolling back one operation, given what the file system answered:
/// `rollback_outcome` of the answers, carrying them along.
pub fn decide_rollback(item: &VerifyItem, dry_run: bool, answers: RollbackAnswers) -> (step:
    RollbackStep)
    ensures
        rollback_outcome(*item, dry_run, answers.observation()) == (step.result, opt_str_view(
            step.error,
        )),
        step.answers == answers,
{
    if item.target.is_none() {
        return rollback_step(OperationResult::Skipped, Some("target_missing_in_log"), answers);
    }
    if answers.target_exists != Some(true) {
        return rollback_step(OperationResult::Failed, Some("target_missing"), answers);
    }
    let target_size: Option<u64> = match answers.target_size {
        Some(n) => n,
        None => None,
    };
    if let Some(size) = item.expected_size {
        if target_size != Some(size) {
            return rollback_step(OperationResult::Failed, Some("target_changed_since_apply"), answers);
        }
    }
    let source_exists = answers.source_exists == Some(true);
    if item.action == OperationAction::CopySourceRetained {
        let source_size: Option<u64> = match answers.source_size {
            Some(n) => n,
            None => None,
        };
        let source_matches = source_exists && match item.expected_size {
            Some(size) => source_size == Some(size),
            None => true,
        };
        if !source_matches {
            return rollback_step(
                OperationResult::Failed,
                Some("source_changed_after_partial_copy"),
                answers,
            );
        }
        if dry_run {
            return rollback_step(OperationResult::Success, None, answers);
        }
        let cleaned = match &answers.target_deleted {
            Some(Err(_)) => false,
            _ => true,
        };
        if cleaned {
            return rollback_step(OperationResult::Success, None, answers);
        }
        return rollback_step(OperationResult::Failed, Some("partial_copy_cleanup_failed"), answers);
    }
    if source_exists {
        return rollback_step(OperationResult::Skipped, Some("source_already_exists"), answers);
    }
    if dry_run {
        return rollback_step(OperationResult::Success, None, answers);
    }
    if item.action == OperationAction::Move {
        let moved = match &answers.moved_back {
            Some(Err(_)) => false,
            _ => true,
        };
        if moved {
            return rollback_step(OperationResult::Success, None, answers);
        }
        return rollback_step(OperationResult::Failed, Some("reverse_move_failed"), answers);
    }
    let copied = match &answers.copied_back {
        Some(Err(_)) => false,
        _ => true,
    };
    let a: Option<u64> = match &answers.target_size_after_copy {
        Some(Err(_)) => None,
        Some(Ok(n)) => Some(*n),
        None => Some(0),
    };
    let b: Option<u64> = match &answers.source_size_after_copy {
        Some(Err(_)) => None,
        Some(Ok(n)) => Some(*n),
        None => Some(0),
    };
    let confirmed = copied && a.is_some() && b.is_some() && a == b;
    proof {
        assert(confirmed == reverse_copy_confirmed(answers.observation()));
    }
    if !confirmed {
        return rollback_step(OperationResult::Failed, Some("reverse_copy_verify_failed"), answers);
    }
    let deleted = match &answers.target_deleted_after_copy {
        Some(Err(_)) => false,
        _ => true,
    };
    if deleted {
        return rollback_step(OperationResult::Success, None, answers);
    }
    rollback_step(OperationResult::Failed, Some("reverse_target_delete_failed"), answers)
}

/// Asks the file system what rollback needs to know of one operation, and moves, copies or
/// deletes only where `rollback_queries` allows it.
fn rollback_answers<F: FileMutator>(files: &F, item: &VerifyItem, dry_run: bool) -> (a:
    RollbackAnswers)
    ensures
        rollback_queries(*item, dry_run, a),
{
    let mut a = RollbackAnswers {
        target_exists: None,
        target_size: None,
        source_exists: None,
        source_size: None,
        target_deleted: None,
        moved_back: None,
        copied_back: None,
        target_size_after_copy: None,
        source_size_after_copy: None,
        target_deleted_after_copy: None,
    };
    let target = match &item.target {
        None => return a,
        Some(t) => t,
    };
    let target_exists = files.file_exists(target.as_str());
    a.target_exists = Some(target_exists);
    if !target_exists {
        return a;
    }
    if let Some(size) = item.expected_size {
        let actual = size_opt(files, target.as_str());
        a.target_size = Some(actual);
        if actual != Some(size) {
            return a;
        }
    }
    assert(target_checked(*item, a));
    assert(target_unchanged(*item, a.observation()));
    let source_exists = files.file_exists(item.source.as_str());
    a.source_exists = Some(source_exists);
    if item.action == OperationAction::CopySourceRetained {
        if !source_exists {
            return a;
        }
        if let Some(size) = item.expected_size {
            let actual = size_opt(files, item.source.as_str());
            a.source_size = Some(actual);
            if actual != Some(size) {
                return a;
            }
        }
        assert(source_checked(*item, a));
        if dry_run {
            return a;
        }
        let deleted = delete_partial_copy(files, item, target.as_str(), dry_run, Ghost(a.observation()));
        a.target_deleted = Some(deleted);
        return a;
    }
    if source_exists || dry_run {
        return a;
    }
    if item.action == OperationAction::Move {
        let moved = move_back(files, item, target.as_str(), dry_run, Ghost(a.observation()));
        a.moved_back = Some(moved);
        return a;
    }
    let copied = copy_back(files, item, target.as_str(), dry_run, Ghost(a.observation()));
    let copy_ok = match &copied {
        Ok(()) => true,
        Err(_) => false,
    };
    a.copied_back = Some(copied);
    if !copy_ok {
        return a;
    }
    let target_size = files.size(target.as_str());
    let read_target: Option<u64> = match &target_size {
        Ok(n) => Some(*n),
        Err(_) => None,
    };
    a.target_size_after_copy = Some(target_size);
    let x: u64 = match read_target {
        Some(n) => n,
        None => return a,
    };
    let source_size = files.size(item.source.as_str());
    let read_source: Option<u64> = match &source_size {
        Ok(n) => Some(*n),
        Err(_) => None,
    };
    a.source_size_after_copy = Some(source_size);
    let y: u64 = match read_source {
        Some(n) => n,
        None => return a,
    };
    if x != y {
        return a;
    }
    let deleted = delete_target_after_copy(files, target.as_str(), dry_run, x, y);
    a.target_deleted_after_copy = Some(deleted);
    a
}

/// Rolls back one logged operation: asks the file system what the decision needs, moves,
/// copies or deletes only where `rollback_queries` allows it, and returns `decide_rollback`
/// of the answers.
pub fn rollback_item<F: FileMutator>(files: &F, item: &VerifyItem, dry_run: bool) -> (step:
    RollbackStep)
    ensures
        rollback_outcome(*item, dry_run, step.answers.observation()) == (step.result, opt_str_view(
            step.error,
        )),
        rollback_queries(*item, dry_run, step.answers),
{
    let answers = rollback_answers(files, item, dry_run);
    decide_rollback(item, dry_run, answers)
}

/// The steps of a rollback over `items`: one per item, in order, each the decision for its
/// item over the answers it got, asked as `rollback_queries` allows.
pub open spec fn rolled_back_steps(items: Seq<VerifyItem>, dry_run: bool, steps: Seq<RollbackStep>) -> bool {
    &&& steps.len() == items.len()
    &&& forall|i: int|
        0 <= i < steps.len() ==> {
            &&& rollback_outcome(items[i], dry_run, (#[trigger] steps[i]).answers.observation()) == (
                steps[i].result,
                opt_str_view(steps[i].error),
            )
            &&& rollback_queries(items[i], dry_run, steps[i].answers)
        }
}

/// How many of the steps ended with `result`.
pub open spec fn rollback_result_count(steps: Seq<RollbackStep>, result: OperationResult) -> nat
    decreases steps.len(),
{
    if steps.len() == 0 {
        0
    } else {
        rollback_result_count(steps.drop_last(), result) + if steps.last().result == result {
            1nat
        } else {
            0nat
        }
    }
}

/// The counts of a rollback are those of its steps.
pub open spec fn rollback_counts(steps: Seq<RollbackStep>, success: u64, skipped: u64, failed: u64) -> bool {
    &&& success == rollback_result_count(steps, OperationResult::Success)
    &&& skipped == rollback_result_count(steps, OperationResult::Skipped)
    &&& failed == rollback_result_count(steps, OperationResult::Failed)
}

/// A finished pass over the operations to roll back: the steps and their counts.
pub struct RollbackRun {
    pub steps: Vec<RollbackStep>,
    pub success: u64,
    pub skipped: u64,
    pub failed: u64,
}

pub struct RollbackResult {
    pub rollback_id: String,
    pub success: u64,
    pub skipped: u64,
    pub failed: u64,
}

pub struct RollbackUseCase<S, F> {
    pub store: Arc<S>,
    pub files: Arc<F>,
}

impl<S: RollbackStore, F: FileMutator> RollbackUseCase<S, F> {
    /// Rolls back the given operations in the given order, recording each step's result and
    /// error code before the next; a recording error stops the pass and is handed back. On
    /// success the steps are `rolled_back_steps` of the items and the counts are theirs.
    pub fn rollback_all(&self, execution_id: &str, items: &Vec<VerifyItem>, dry_run: bool) -> (r:
        Result<RollbackRun, String>)
        ensures
            r matches Ok(run) ==> {
                &&& rolled_back_steps(items@, dry_run, run.steps@)
                &&& rollback_counts(run.steps@, run.success, run.skipped, run.failed)
                &&& run.success + run.skipped + run.failed == items.len()
            },
    {
        let mut steps: Vec<RollbackStep> = Vec::new();
        let mut success: u64 = 0;
        let mut skipped: u64 = 0;
        let mut failed: u64 = 0;
        let mut i: usize = 0;
        while i < items.len()
            invariant
                i <= items.len(),
                rolled_back_steps(items@.take(i as int), dry_run, steps@),
                rollback_counts(steps@, success, skipped, failed),
                success + skipped + failed == i,
            decreases items.len() - i,
        {
            let item = &items[i];
            let step = rollback_item(&*self.files, item, dry_run);
            match step.result {
                OperationResult::Success => success += 1,
                OperationResult::Skipped => skipped += 1,
                OperationResult::Failed => failed += 1,
            }
            let result = step.result;
            let error = step.error;
            let ghost before = steps@;
            steps.push(step);
            proof {
                assert(steps@.drop_last() =~= before);
                assert forall|k: int| 0 <= k < steps@.len() implies ({
                    &&& rollback_outcome(
                        items@.take(i + 1)[k],
                        dry_run,
                        (#[trigger] steps@[k]).answers.observation(),
                    ) == (steps@[k].result, opt_str_view(steps@[k].error))
                    &&& rollback_queries(items@.take(i + 1)[k], dry_run, steps@[k].answers)
                }) by {
                    if k < i {
                        assert(steps@[k] == before[k]);
                        assert(items@.take(i + 1)[k] == items@.take(i as int)[k]);
                    }
                }
            }
            if let Err(e) = self.store.save_rollback_result(
                execution_id,
                item.operation_id.as_str(),
                result,
                error,
            ) {
                return Err(e);
            }
            i += 1;
        }
        assert(items@.take(items.len() as int) =~= items@);
        Ok(RollbackRun { steps, success, skipped, failed })
    }

    /// Rolls back the successful operations of an execution: begins the rollback, loads the
    /// operations (a load error ends the run failed and is handed back), orders them by
    /// descending sequence (`rollback_order`), rolls them back (`rollback_all`) and ends the
    /// run with `completed_or_partial` of the failures. On success the counts are those of
    /// steps that are `rolled_back_steps` of a descending reordering of the operations the
    /// store handed over.
    pub fn execute(&self, execution_id: &str, dry_run: bool) -> (r: WorkflowResult<RollbackResult>)
        ensures
            r matches Ok(res) ==> exists|loaded: Seq<VerifyItem>, ordered: Seq<VerifyItem>, steps: Seq<RollbackStep>|
                {
                    &&& ordered.to_multiset() == (#[trigger] loaded.to_multiset())
                    &&& by_sequence_desc(ordered)
                    &&& #[trigger] rolled_back_steps(ordered, dry_run, steps)
                    &&& rollback_counts(steps, res.success, res.skipped, res.failed)
                },
    {
        let started = start_clock();
        let rollback_id = match self.store.begin_rollback(execution_id, dry_run) {
            Ok(id) => id,
            Err(e) => return Err(WorkflowError::new(e)),
        };
        let loaded = match self.store.load_rollback_items(execution_id) {
            Ok(items) => items,
            Err(error) => {
                let _ = self.store.finish_rollback(rollback_id.as_str(), RunStatus::Failed, 0, 0, 0);
                return Err(WorkflowError::new(error));
            },
        };
        let ghost loaded_view = loaded@;
        let items = rollback_order(loaded);
        let run = match self.rollback_all(execution_id, &items, dry_run) {
            Ok(run) => run,
            Err(e) => return Err(WorkflowError::new(e)),
        };
        let success = run.success;
        let skipped = run.skipped;
        let failed = run.failed;
        if let Err(e) = self.store.finish_rollback(
            rollback_id.as_str(),
            completed_or_partial(failed),
            success,
            skipped,
            failed,
        ) {
            return Err(WorkflowError::new(e));
        }
        if let Err(e) = self.store.record_metric(
            rollback_id.as_str(),
            "rollback",
            elapsed_ms(&started),
            success + skipped + failed,
        ) {
            return Err(WorkflowError::new(e));
        }
        proof {
            assert(rolled_back_steps(items@, dry_run, run.steps@));
            assert(items@.to_multiset() == loaded_view.to_multiset());
        }
        Ok(RollbackResult { rollback_id, success, skipped, failed })
    }
}

} // verus!
