//! The apply step: executes a persisted, completed plan item by item, in a dry run or for
//! real, logging one operation per item.

use vstd::prelude::*;
use std::sync::Arc;
use crate::clock::{elapsed_ms, start_clock};
use crate::domain::{ApplyItem, OperationLog, PlanAction, Risk, RunStatus};
use crate::execution::{
    completed_or_partial, OperationAction, OperationResult, WorkflowError, WorkflowResult,
};
use crate::ports::{ApplyStore, FileMutator};
use crate::text::opt_chars;

verus! {

/// What the file system answered while one plan item was applied. Answers that were never
/// asked for on the path taken play no part in the outcome.
pub ghost struct ApplyObservation {
    pub source_exists: bool,
    pub target_exists: bool,
    pub same_volume: Result<bool, Seq<char>>,
    pub moved: Result<(), Seq<char>>,
    pub copied: Result<(), Seq<char>>,
    pub source_size_after_copy: Result<u64, Seq<char>>,
    pub target_size_after_copy: Result<u64, Seq<char>>,
    pub source_deleted: Result<(), Seq<char>>,
}

/// How one plan item ended: the logged action, the result, the error text and whether the
/// source file is gone.
pub struct ApplyStep {
    pub action: OperationAction,
    pub result: OperationResult,
    pub error: Option<String>,
    pub source_deleted: bool,
    /// What the file system answered on the way to this step.
    pub answers: ApplyAnswers,
}

/// What the file system answered while one plan item was applied; `None` marks a question
/// that was not asked or an operation that was not attempted.
pub struct ApplyAnswers {
    pub source_exists: Option<bool>,
    pub target_exists: Option<bool>,
    pub same_volume: Option<Result<bool, String>>,
    pub moved: Option<Result<(), String>>,
    pub copied: Option<Result<(), String>>,
    pub source_size_after_copy: Option<Result<u64, String>>,
    pub target_size_after_copy: Option<Result<u64, String>>,
    pub source_deleted: Option<Result<(), String>>,
}

/// An answer that was given, or the stand-in for one that was not.
pub open spec fn given<T>(a: Option<Result<T, String>>, absent: T) -> Result<T, Seq<char>> {
    match a {
        Some(r) => res_view(r),
        None => Ok(absent),
    }
}

impl ApplyAnswers {
    /// The answers as an observation (questions not asked read as a missing source, a free
    /// target and operations that did nothing).
    pub open spec fn observation(self) -> ApplyObservation {
        ApplyObservation {
            source_exists: self.source_exists == Some(true),
            target_exists: self.target_exists == Some(true),
            same_volume: given(self.same_volume, true),
            moved: given(self.moved, ()),
            copied: given(self.copied, ()),
            source_size_after_copy: given(self.source_size_after_copy, 0),
            target_size_after_copy: given(self.target_size_after_copy, 0),
            source_deleted: given(self.source_deleted, ()),
        }
    }

    /// No question was asked and nothing was attempted.
    pub open spec fn untouched(self) -> bool {
        &&& self.source_exists is None
        &&& self.target_exists is None
        &&& self.same_volume is None
        &&& self.moved is None
        &&& self.copied is None
        &&& self.source_size_after_copy is None
        &&& self.target_size_after_copy is None
        &&& self.source_deleted is None
    }
}

/// The questions apply asks and the operations it attempts, and when. Nothing is asked of an
/// item that may not change files. Otherwise: the source's existence; when it exists, the
/// volumes and the target's existence; with a free target on one volume, the move; on two
/// volumes, the copy, then (after a successful copy) the source's size, then (when read)
/// the target's size, and the source's deletion only when both sizes were read and equal.
pub open spec fn apply_queries(item: ApplyItem, already_applied: bool, dry_run: bool, a: ApplyAnswers) -> bool {
    if !apply_may_mutate(item, already_applied, dry_run) {
        a.untouched()
    } else {
        &&& a.source_exists is Some
        &&& ((a.same_volume is Some) <==> a.source_exists == Some(true))
        &&& ((a.target_exists is Some) <==> a.source_exists == Some(true))
        &&& ((a.moved is Some) <==> (a.source_exists == Some(true) && a.target_exists == Some(false)
            && a.same_volume == Some(Ok::<bool, String>(true))))
        &&& ((a.copied is Some) <==> (a.source_exists == Some(true) && a.target_exists == Some(false)
            && a.same_volume == Some(Ok::<bool, String>(false))))
        &&& ((a.source_size_after_copy is Some) <==> (a.copied matches Some(Ok(_))))
        &&& ((a.target_size_after_copy is Some) <==> (a.source_size_after_copy matches Some(Ok(_))))
        &&& ((a.source_deleted is Some) <==> (a.source_size_after_copy matches Some(Ok(x))
            && a.target_size_after_copy == Some(Ok::<u64, String>(x))))
    }
}

/// A result with its error text as characters.
pub open spec fn res_view<T>(r: Result<T, String>) -> Result<T, Seq<char>> {
    match r {
        Ok(v) => Ok(v),
        Err(e) => Err(e@),
    }
}

/// The step as plain values.
pub open spec fn step_view(s: ApplyStep) -> (OperationAction, OperationResult, Option<Seq<char>>, bool) {
    (s.action, s.result, opt_chars(s.error), s.source_deleted)
}

/// A cross-volume copy is confirmed when the copy succeeded and both sizes read back equal;
/// the first error met is kept.
pub open spec fn verified_copy(obs: ApplyObservation) -> Result<(), Seq<char>> {
    match obs.copied {
        Err(e) => Err(e),
        Ok(()) => match obs.source_size_after_copy {
            Err(e) => Err(e),
            Ok(a) => match obs.target_size_after_copy {
                Err(e) => Err(e),
                Ok(b) => if a == b {
                    Ok(())
                } else {
                    Err("cross_volume_verify_failed"@)
                },
            },
        },
    }
}

/// Whether an item may touch the file system at all: it was not applied before, the plan
/// says move with no risk, this is not a dry run, and it has a target.
pub open spec fn apply_may_mutate(item: ApplyItem, already_applied: bool, dry_run: bool) -> bool {
    &&& !already_applied
    &&& item.action == PlanAction::Move
    &&& item.risk == Risk::NoRisk
    &&& !dry_run
    &&& item.target is Some
}

/// The outcome of applying one plan item, given what the file system answered.
pub open spec fn apply_outcome(
    item: ApplyItem,
    already_applied: bool,
    dry_run: bool,
    obs: ApplyObservation,
) -> (OperationAction, OperationResult, Option<Seq<char>>, bool) {
    if already_applied {
        (OperationAction::Skip, OperationResult::Skipped, Some("already_applied_for_plan"@), false)
    } else if item.action == PlanAction::Skip || item.risk != Risk::NoRisk {
        (OperationAction::Skip, OperationResult::Skipped, opt_chars(item.reason), false)
    } else if dry_run {
        (OperationAction::DryRun, OperationResult::Success, None, false)
    } else if item.target is None || !obs.source_exists {
        (OperationAction::Move, OperationResult::Failed, Some("source_or_target_missing"@), false)
    } else if obs.target_exists {
        (OperationAction::Skip, OperationResult::Skipped, Some("target_already_exists"@), false)
    } else {
        match obs.same_volume {
            Err(e) => (OperationAction::Move, OperationResult::Failed, Some(e), false),
            Ok(true) => match obs.moved {
                Ok(()) => (OperationAction::Move, OperationResult::Success, None, true),
                Err(e) => (OperationAction::Move, OperationResult::Failed, Some(e), false),
            },
            Ok(false) => match verified_copy(obs) {
                Ok(()) => match obs.source_deleted {
                    Ok(()) => (OperationAction::CopyDelete, OperationResult::Success, None, true),
                    Err(e) => (
                        OperationAction::CopySourceRetained,
                        OperationResult::Failed,
                        Some(e),
                        false,
                    ),
                },
                Err(e) => (
                    OperationAction::CopySourceRetained,
                    OperationResult::Failed,
                    Some(e),
                    false,
                ),
            },
        }
    }
}

/// A dry run never fails an item, never deletes a source and only logs skips and
/// `dry_run` operations.
pub proof fn law_dry_run_apply_is_harmless(
    item: ApplyItem,
    already_applied: bool,
    obs: ApplyObservation,
)
    ensures
        ({
            let o = apply_outcome(item, already_applied, true, obs);
            &&& o.1 != OperationResult::Failed
            &&& !o.3
            &&& (o.0 == OperationAction::Skip || o.0 == OperationAction::DryRun)
        }),
{
}

/// A source is only reported gone after a successful same-volume move, or after a
/// cross-volume copy whose sizes matched and whose source delete succeeded.
pub proof fn law_source_deleted_only_after_confirmed_transfer(
    item: ApplyItem,
    already_applied: bool,
    dry_run: bool,
    obs: ApplyObservation,
)
    ensures
        apply_outcome(item, already_applied, dry_run, obs).3 ==> apply_may_mutate(
            item,
            already_applied,
            dry_run,
        ) && obs.source_exists && !obs.target_exists && ((obs.same_volume == Ok::<bool, Seq<char>>(true)
            && obs.moved is Ok) || (obs.same_volume == Ok::<bool, Seq<char>>(false) && verified_copy(obs)
            is Ok && obs.source_deleted is Ok)),
{
}

/// A failed or unconfirmed cross-volume copy keeps the source and is logged as
/// `copy_source_retained`.
pub proof fn law_unconfirmed_copy_keeps_source(
    item: ApplyItem,
    already_applied: bool,
    dry_run: bool,
    obs: ApplyObservation,
)
    requires
        apply_may_mutate(item, already_applied, dry_run),
        obs.source_exists,
        !obs.target_exists,
        obs.same_volume == Ok::<bool, Seq<char>>(false),
        verified_copy(obs) is Err,
    ensures
        ({
            let o = apply_outcome(item, already_applied, dry_run, obs);
            &&& !o.3
            &&& o.0 == OperationAction::CopySourceRetained
            &&& o.1 == OperationResult::Failed
        }),
{
}

/// An existing target is never replaced: the item is skipped.
pub proof fn law_existing_target_is_not_overwritten(
    item: ApplyItem,
    dry_run: bool,
    obs: ApplyObservation,
)
    requires
        apply_may_mutate(item, false, dry_run),
        obs.source_exists,
        obs.target_exists,
    ensures
        apply_outcome(item, false, dry_run, obs) == (
            OperationAction::Skip,
            OperationResult::Skipped,
            Some("target_already_exists"@),
            false,
        ),
{
}

fn clone_opt_string(s: &Option<String>) -> (r: Option<String>)
    ensures
        opt_chars(r) == opt_chars(*s),
{
    match s {
        Some(t) => Some(t.clone()),
        None => None,
    }
}

fn err_text(e: &String) -> (r: Option<String>)
    ensures
        opt_chars(r) == Some(e@),
{
    Some(e.clone())
}

/// Moves the source of an item to its target; only callable when the item may mutate and
/// the target was seen free.
fn move_for_apply<F: FileMutator>(
    files: &F,
    item: &ApplyItem,
    target: &str,
    already_applied: bool,
    dry_run: bool,
    target_exists: bool,
) -> Result<(), String>
    requires
        apply_may_mutate(*item, already_applied, dry_run),
        !target_exists,
{
    files.move_file(item.source.as_str(), target)
}

/// Copies the source of an item to its target; only callable when the item may mutate and
/// the target was seen free.
fn copy_for_apply<F: FileMutator>(
    files: &F,
    item: &ApplyItem,
    target: &str,
    already_applied: bool,
    dry_run: bool,
    target_exists: bool,
) -> Result<(), String>
    requires
        apply_may_mutate(*item, already_applied, dry_run),
        !target_exists,
{
    files.copy_file(item.source.as_str(), target)
}

/// Deletes the source of an item after a cross-volume copy; only callable when the sizes
/// read back from both sides are equal.
fn delete_source_after_copy<F: FileMutator>(
    files: &F,
    item: &ApplyItem,
    already_applied: bool,
    dry_run: bool,
    source_size: u64,
    target_size: u64,
) -> Result<(), String>
    requires
        apply_may_mutate(*item, already_applied, dry_run),
        source_size == target_size,
{
    files.delete_file(item.source.as_str())
}

/// A dry run asks the file system nothing and attempts nothing.
pub proof fn law_dry_run_apply_touches_nothing(item: ApplyItem, already_applied: bool, a: ApplyAnswers)
    requires
        apply_queries(item, already_applied, true, a),
    ensures
        a.untouched(),
{
}

/// A target seen to exist is never written: no move, copy or deletion is attempted.
pub proof fn law_seen_target_is_never_written(
    item: ApplyItem,
    already_applied: bool,
    dry_run: bool,
    a: ApplyAnswers,
)
    requires
        apply_queries(item, already_applied, dry_run, a),
        a.target_exists == Some(true),
    ensures
        a.moved is None,
        a.copied is None,
        a.source_deleted is None,
{
}

/// The source is deleted after a cross-volume copy only when the copy succeeded and both
/// sizes were read back equal.
pub proof fn law_source_deleted_only_after_equal_sizes(
    item: ApplyItem,
    already_applied: bool,
    dry_run: bool,
    a: ApplyAnswers,
)
    requires
        apply_queries(item, already_applied, dry_run, a),
        a.source_deleted is Some,
    ensures
        a.copied matches Some(Ok(_)),
        a.source_size_after_copy matches Some(Ok(x)) && a.target_size_after_copy == Some(
            Ok::<u64, String>(x),
        ),
{
}

/// A step that neither deleted the source nor carries an answer-specific error.
fn plain_step(
    action: OperationAction,
    result: OperationResult,
    error: Option<String>,
    source_deleted: bool,
    answers: ApplyAnswers,
) -> (step: ApplyStep)
    ensures
        step.action == action,
        step.result == result,
        step.error == error,
        step.source_deleted == source_deleted,
        step.answers == answers,
{
    ApplyStep { action, result, error, source_deleted, answers }
}

/// The step for one plan item, given what the file system answered: `apply_outcome` of the
/// answers, carrying them along.
pub fn decide_apply(
    item: &ApplyItem,
    already_applied: bool,
    dry_run: bool,
    answers: ApplyAnswers,
) -> (step: ApplyStep)
    ensures
        step_view(step) == apply_outcome(*item, already_applied, dry_run, answers.observation()),
        step.answers == answers,
{
    let ghost obs = answers.observation();
    if already_applied {
        return plain_step(
            OperationAction::Skip,
            OperationResult::Skipped,
            Some(String::from_str("already_applied_for_plan")),
            false,
            answers,
        );
    }
    if item.action == PlanAction::Skip || item.risk != Risk::NoRisk {
        return plain_step(
            OperationAction::Skip,
            OperationResult::Skipped,
            clone_opt_string(&item.reason),
            false,
            answers,
        );
    }
    if dry_run {
        return plain_step(OperationAction::DryRun, OperationResult::Success, None, false, answers);
    }
    if item.target.is_none() || answers.source_exists != Some(true) {
        return plain_step(
            OperationAction::Move,
            OperationResult::Failed,
            Some(String::from_str("source_or_target_missing")),
            false,
            answers,
        );
    }
    if answers.target_exists == Some(true) {
        return plain_step(
            OperationAction::Skip,
            OperationResult::Skipped,
            Some(String::from_str("target_already_exists")),
            false,
            answers,
        );
    }
    let same_volume = match &answers.same_volume {
        Some(Err(e)) => {
            let error = err_text(e);
            return plain_step(OperationAction::Move, OperationResult::Failed, error, false, answers);
        },
        Some(Ok(v)) => *v,
        None => true,
    };
    if same_volume {
        let failure = match &answers.moved {
            Some(Err(e)) => err_text(e),
            _ => None,
        };
        if failure.is_none() {
            return plain_step(OperationAction::Move, OperationResult::Success, None, true, answers);
        }
        return plain_step(OperationAction::Move, OperationResult::Failed, failure, false, answers);
    }
    let copy_failure: Option<String> = match &answers.copied {
        Some(Err(e)) => err_text(e),
        _ => match &answers.source_size_after_copy {
            Some(Err(e)) => err_text(e),
            _ => {
                let a: u64 = match &answers.source_size_after_copy {
                    Some(Ok(n)) => *n,
                    _ => 0,
                };
                match &answers.target_size_after_copy {
                    Some(Err(e)) => err_text(e),
                    _ => {
                        let b: u64 = match &answers.target_size_after_copy {
                            Some(Ok(n)) => *n,
                            _ => 0,
                        };
                        if a == b {
                            None
                        } else {
                            Some(String::from_str("cross_volume_verify_failed"))
                        }
                    },
                }
            },
        },
    };
    proof {
        assert(copy_failure is None <==> verified_copy(obs) is Ok);
        assert(copy_failure matches Some(t) ==> verified_copy(obs) == Err::<(), Seq<char>>(t@));
    }
    if copy_failure.is_some() {
        return plain_step(
            OperationAction::CopySourceRetained,
            OperationResult::Failed,
            copy_failure,
            false,
            answers,
        );
    }
    let delete_failure = match &answers.source_deleted {
        Some(Err(e)) => err_text(e),
        _ => None,
    };
    if delete_failure.is_none() {
        return plain_step(OperationAction::CopyDelete, OperationResult::Success, None, true, answers);
    }
    plain_step(OperationAction::CopySourceRetained, OperationResult::Failed, delete_failure, false, answers)
}

/// Asks the file system what apply needs to know of one plan item, and moves (or copies,
/// checks and deletes) only where `apply_queries` allows it.
fn apply_answers<F: FileMutator>(
    files: &F,
    item: &ApplyItem,
    already_applied: bool,
    dry_run: bool,
) -> (a: ApplyAnswers)
    ensures
        apply_queries(*item, already_applied, dry_run, a),
{
    let mut a = ApplyAnswers {
        source_exists: None,
        target_exists: None,
        same_volume: None,
        moved: None,
        copied: None,
        source_size_after_copy: None,
        target_size_after_copy: None,
        source_deleted: None,
    };
    if already_applied || item.action == PlanAction::Skip || item.risk != Risk::NoRisk || dry_run {
        return a;
    }
    let target = match &item.target {
        Some(t) => t,
        None => return a,
    };
    let source_exists = files.file_exists(item.source.as_str());
    a.source_exists = Some(source_exists);
    if !source_exists {
        return a;
    }
    let same_volume = files.same_volume(item.source.as_str(), target.as_str());
    let target_exists = files.file_exists(target.as_str());
    a.target_exists = Some(target_exists);
    if target_exists {
        a.same_volume = Some(same_volume);
        return a;
    }
    match same_volume {
        Err(e) => {
            a.same_volume = Some(Err(e));
            a
        },
        Ok(true) => {
            a.same_volume = Some(Ok(true));
            let moved = move_for_apply(files, item, target.as_str(), already_applied, dry_run, target_exists);
            a.moved = Some(moved);
            a
        },
        Ok(false) => {
            a.same_volume = Some(Ok(false));
            let copied = copy_for_apply(files, item, target.as_str(), already_applied, dry_run, target_exists);
            let copy_ok = match &copied {
                Ok(()) => true,
                Err(_) => false,
            };
            a.copied = Some(copied);
            if !copy_ok {
                return a;
            }
            let source_size = files.size(item.source.as_str());
            let read_source: Option<u64> = match &source_size {
                Ok(n) => Some(*n),
                Err(_) => None,
            };
            a.source_size_after_copy = Some(source_size);
            let x: u64 = match read_source {
                Some(n) => n,
                None => return a,
            };
            let target_size = files.size(target.as_str());
            let read_target: Option<u64> = match &target_size {
                Ok(n) => Some(*n),
                Err(_) => None,
            };
            a.target_size_after_copy = Some(target_size);
            let y: u64 = match read_target {
                Some(n) => n,
                None => return a,
            };
            if x != y {
                return a;
            }
            let deleted = delete_source_after_copy(files, item, already_applied, dry_run, x, y);
            a.source_deleted = Some(deleted);
            a
        },
    }
}

/// Applies one plan item: asks the file system what the decision needs, moves (or copies,
/// checks and deletes) only where `apply_queries` allows it, and returns `decide_apply` of
/// the answers.
pub fn apply_item<F: FileMutator>(
    files: &F,
    item: &ApplyItem,
    already_applied: bool,
    dry_run: bool,
) -> (step: ApplyStep)
    ensures
        step_view(step) == apply_outcome(*item, already_applied, dry_run, step.answers.observation()),
        apply_queries(*item, already_applied, dry_run, step.answers),
{
    let answers = apply_answers(files, item, already_applied, dry_run);
    decide_apply(item, already_applied, dry_run, answers)
}

/// Whether `ids` holds `id`.
pub fn contains_id(ids: &Vec<String>, id: &String) -> (r: bool)
    ensures
        r == exists|k: int| 0 <= k < ids.len() && ids@[k]@ == id@,
{
    let mut i: usize = 0;
    while i < ids.len()
        invariant
            i <= ids.len(),
            forall|k: int| 0 <= k < i ==> ids@[k]@ != id@,
        decreases ids.len() - i,
    {
        if ids[i] == *id {
            return true;
        }
        i += 1;
    }
    false
}

/// The log of one applied plan item: the item's id, ordinal, source and target, the step's
/// action, result, error and source deletion, and the source size read before the step.
pub fn operation_log(item: &ApplyItem, step: &ApplyStep, expected_size: Option<u64>) -> (log:
    OperationLog)
    ensures
        log.plan_item_id@ == item.plan_item_id@,
        log.sequence_no == item.ordinal,
        log.source@ == item.source@,
        opt_chars(log.target) == opt_chars(item.target),
        log.action == step.action,
        log.result == step.result,
        opt_chars(log.error) == opt_chars(step.error),
        log.source_deleted == step.source_deleted,
        log.expected_size == expected_size,
{
    OperationLog {
        plan_item_id: item.plan_item_id.clone(),
        sequence_no: item.ordinal,
        source: item.source.clone(),
        target: clone_opt_string(&item.target),
        action: step.action,
        result: step.result,
        error: clone_opt_string(&step.error),
        source_deleted: step.source_deleted,
        expected_size,
    }
}

/// Whether `id` is among `ids`.
pub open spec fn listed(ids: Seq<String>, id: Seq<char>) -> bool {
    exists|k: int| 0 <= k < ids.len() && ids[k]@ == id
}

/// The steps of a run over `items`: one per item, in order, each the decision for its item
/// (already applied when its id is in `already_done`) over the answers it got, asked as
/// `apply_queries` allows.
pub open spec fn applied_steps(
    items: Seq<ApplyItem>,
    already_done: Seq<String>,
    dry_run: bool,
    steps: Seq<ApplyStep>,
) -> bool {
    &&& steps.len() == items.len()
    &&& forall|i: int|
        0 <= i < steps.len() ==> {
            let already = listed(already_done, items[i].plan_item_id@);
            &&& step_view(#[trigger] steps[i]) == apply_outcome(
                items[i],
                already,
                dry_run,
                steps[i].answers.observation(),
            )
            &&& apply_queries(items[i], already, dry_run, steps[i].answers)
        }
}

/// How many of the steps ended with `result`.
pub open spec fn result_count(steps: Seq<ApplyStep>, result: OperationResult) -> nat
    decreases steps.len(),
{
    if steps.len() == 0 {
        0
    } else {
        result_count(steps.drop_last(), result) + if steps.last().result == result {
            1nat
        } else {
            0nat
        }
    }
}

/// An item already applied for the plan is never changed again: nothing is asked or
/// attempted for it, and it is logged as skipped with its source untouched.
pub proof fn law_applied_item_is_never_changed_again(
    items: Seq<ApplyItem>,
    already_done: Seq<String>,
    dry_run: bool,
    steps: Seq<ApplyStep>,
    i: int,
)
    requires
        applied_steps(items, already_done, dry_run, steps),
        0 <= i < items.len(),
        listed(already_done, items[i].plan_item_id@),
    ensures
        steps[i].answers.untouched(),
        steps[i].action == OperationAction::Skip,
        steps[i].result == OperationResult::Skipped,
        !steps[i].source_deleted,
{
    assert(step_view(steps[i]) == apply_outcome(items[i], true, dry_run, steps[i].answers.observation()));
}

/// A dry run over a plan asks the file system nothing, attempts nothing and fails nothing.
pub proof fn law_dry_run_pass_touches_nothing(
    items: Seq<ApplyItem>,
    already_done: Seq<String>,
    steps: Seq<ApplyStep>,
    i: int,
)
    requires
        applied_steps(items, already_done, true, steps),
        0 <= i < items.len(),
    ensures
        steps[i].answers.untouched(),
        steps[i].result != OperationResult::Failed,
        !steps[i].source_deleted,
{
    let already = listed(already_done, items[i].plan_item_id@);
    assert(step_view(steps[i]) == apply_outcome(items[i], already, true, steps[i].answers.observation()));
    law_dry_run_apply_is_harmless(items[i], already, steps[i].answers.observation());
}

/// A finished pass over a plan's items: the steps and how many succeeded, were skipped and
/// failed.
pub struct ApplyRun {
    pub steps: Vec<ApplyStep>,
    pub success: u64,
    pub skipped: u64,
    pub failed: u64,
}

/// The counts of a run are those of its steps.
pub open spec fn counts_of_steps(steps: Seq<ApplyStep>, success: u64, skipped: u64, failed: u64) -> bool {
    &&& success == result_count(steps, OperationResult::Success)
    &&& skipped == result_count(steps, OperationResult::Skipped)
    &&& failed == result_count(steps, OperationResult::Failed)
}

/// How many of the items the plan moves with no risk: what a dry run reports as succeeded.
pub open spec fn movable_count(items: Seq<ApplyItem>) -> nat
    decreases items.len(),
{
    if items.len() == 0 {
        0
    } else {
        movable_count(items.drop_last()) + if items.last().action == PlanAction::Move
            && items.last().risk == Risk::NoRisk {
            1nat
        } else {
            0nat
        }
    }
}

pub struct ApplyResult {
    pub execution_id: String,
    pub success: u64,
    pub skipped: u64,
    pub failed: u64,
}

pub struct ApplyUseCase<S, F> {
    pub store: Arc<S>,
    pub files: Arc<F>,
}

impl<S: ApplyStore, F: FileMutator> ApplyUseCase<S, F> {
    /// Applies the given plan items in order (`apply_item`; an item whose id is in
    /// `already_done` counts as already applied and is skipped) and saves `operation_log` of
    /// each step before the next. When a log cannot be saved the run stops, is ended partial
    /// with that item counted as failed, and the store's error is handed back. On success the
    /// steps are `applied_steps` of the items and the counts are those of the steps; a dry run
    /// failed none and, with nothing applied before, succeeded exactly for the items moved
    /// with no risk.
    pub fn apply_all(
        &self,
        execution_id: &str,
        items: &Vec<ApplyItem>,
        already_done: &Vec<String>,
        dry_run: bool,
    ) -> (r: Result<ApplyRun, String>)
        ensures
            r matches Ok(run) ==> {
                &&& applied_steps(items@, already_done@, dry_run, run.steps@)
                &&& counts_of_steps(run.steps@, run.success, run.skipped, run.failed)
                &&& run.success + run.skipped + run.failed == items.len()
                &&& dry_run ==> run.failed == 0
                &&& dry_run && already_done@.len() == 0 ==> run.success == movable_count(items@)
            },
    {
        let mut steps: Vec<ApplyStep> = Vec::new();
        let mut success: u64 = 0;
        let mut skipped: u64 = 0;
        let mut failed: u64 = 0;
        let mut i: usize = 0;
        while i < items.len()
            invariant
                i <= items.len(),
                applied_steps(items@.take(i as int), already_done@, dry_run, steps@),
                counts_of_steps(steps@, success, skipped, failed),
                success + skipped + failed == i,
                dry_run ==> failed == 0,
                dry_run && already_done@.len() == 0 ==> success == movable_count(items@.take(i as int)),
            decreases items.len() - i,
        {
            let item = &items[i];
            let expected_size = match self.files.size(item.source.as_str()) {
                Ok(n) => Some(n),
                Err(_) => None,
            };
            let already = contains_id(already_done, &item.plan_item_id);
            let step = apply_item(&*self.files, item, already, dry_run);
            proof {
                if dry_run {
                    law_dry_run_apply_is_harmless(*item, already, step.answers.observation());
                }
                assert(items@.take(i + 1).drop_last() =~= items@.take(i as int));
            }
            match step.result {
                OperationResult::Success => success += 1,
                OperationResult::Skipped => skipped += 1,
                OperationResult::Failed => failed += 1,
            }
            let log = operation_log(item, &step, expected_size);
            let ghost before = steps@;
            steps.push(step);
            proof {
                assert(steps@.drop_last() =~= before);
                assert forall|k: int| 0 <= k < steps@.len() implies ({
                    let already = listed(already_done@, items@.take(i + 1)[k].plan_item_id@);
                    &&& step_view(#[trigger] steps@[k]) == apply_outcome(
                        items@.take(i + 1)[k],
                        already,
                        dry_run,
                        steps@[k].answers.observation(),
                    )
                    &&& apply_queries(items@.take(i + 1)[k], already, dry_run, steps@[k].answers)
                }) by {
                    if k < i {
                        assert(steps@[k] == before[k]);
                        assert(items@.take(i + 1)[k] == items@.take(i as int)[k]);
                    }
                }
            }
            if let Err(save_error) = self.store.save_operation(execution_id, &log) {
                let _ = self.store.finish_execution(
                    execution_id,
                    RunStatus::Partial,
                    success,
                    skipped,
                    failed.saturating_add(1),
                );
                return Err(save_error);
            }
            i += 1;
        }
        assert(items@.take(items.len() as int) =~= items@);
        Ok(ApplyRun { steps, success, skipped, failed })
    }

    /// Applies a persisted plan: refuses a plan whose rows no longer match their snapshot
    /// before anything is begun, reads the ids already applied for real (a dry run reads
    /// none), begins the execution, loads the plan's items (a load error ends the run failed
    /// and is handed back), applies them (`apply_all`) and ends the run with
    /// `completed_or_partial` of the failures. On success the counts are those of steps that
    /// are `applied_steps` of the items the store handed over; a dry run fails no item.
    pub fn execute(&self, plan_id: &str, dry_run: bool) -> (r: WorkflowResult<ApplyResult>)
        ensures
            r matches Ok(res) ==> exists|items: Seq<ApplyItem>, done: Seq<String>, steps: Seq<ApplyStep>|
                {
                    &&& #[trigger] applied_steps(items, done, dry_run, steps)
                    &&& (dry_run ==> done.len() == 0)
                    &&& counts_of_steps(steps, res.success, res.skipped, res.failed)
                },
            dry_run ==> (r matches Ok(res) ==> res.failed == 0),
    {
        let started = start_clock();
        if let Err(e) = self.store.validate_plan_snapshot(plan_id) {
            return Err(WorkflowError::new(e));
        }
        let already_done: Vec<String> = if dry_run {
            Vec::new()
        } else {
            match self.store.successful_plan_item_ids(plan_id) {
                Ok(ids) => ids,
                Err(e) => return Err(WorkflowError::new(e)),
            }
        };
        let execution_id = match self.store.begin_execution(plan_id, dry_run) {
            Ok(id) => id,
            Err(e) => return Err(WorkflowError::new(e)),
        };
        let items = match self.store.load_completed_plan(plan_id) {
            Ok(items) => items,
            Err(error) => {
                let _ = self.store.finish_execution(execution_id.as_str(), RunStatus::Failed, 0, 0, 0);
                return Err(WorkflowError::new(error));
            },
        };
        let run = match self.apply_all(execution_id.as_str(), &items, &already_done, dry_run) {
            Ok(run) => run,
            Err(e) => return Err(WorkflowError::new(e)),
        };
        let success = run.success;
        let skipped = run.skipped;
        let failed = run.failed;
        if let Err(e) = self.store.finish_execution(
            execution_id.as_str(),
            completed_or_partial(failed),
            success,
            skipped,
            failed,
        ) {
            return Err(WorkflowError::new(e));
        }
        if let Err(e) = self.store.record_metric(
            execution_id.as_str(),
            "apply",
            elapsed_ms(&started),
            success + skipped + failed,
        ) {
            return Err(WorkflowError::new(e));
        }
        proof {
            assert(applied_steps(items@, already_done@, dry_run, run.steps@));
        }
        Ok(ApplyResult { execution_id, success, skipped, failed })
    }
}

} // verus!
