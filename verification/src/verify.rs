//! The verify step: checks that every successful move of an execution left its file at
//! the target (with the expected size) and none at the source.

use vstd::prelude::*;
use std::sync::Arc;
use crate::clock::{elapsed_ms, start_clock};
use crate::domain::{RunStatus, VerifyItem};
use crate::execution::{OperationResult, WorkflowError, WorkflowResult};
use crate::ports::{FileMutator, VerifyStore};

verus! {

/// What the file system answered while one logged move was checked.
pub ghost struct VerifyObservation {
    pub target_exists: bool,
    pub target_size: Option<u64>,
    pub source_exists: bool,
}

/// A logged move is confirmed when its target exists, has the size recorded at apply time
/// (when one was recorded), and its source no longer exists.
pub open spec fn verify_passes(item: VerifyItem, obs: VerifyObservation) -> bool {
    &&& item.target is Some
    &&& obs.target_exists
    &&& match item.expected_size {
        Some(size) => obs.target_size == Some(size),
        None => true,
    }
    &&& !obs.source_exists
}

/// What the file system answered while one logged move was checked; `None` marks a
/// question that was not asked.
pub struct VerifyAnswers {
    pub target_exists: Option<bool>,
    pub target_size: Option<Result<u64, String>>,
    pub source_exists: Option<bool>,
}

impl VerifyAnswers {
    /// The answers as an observation: a size that could not be read counts as no size.
    pub open spec fn observation(self) -> VerifyObservation {
        VerifyObservation {
            target_exists: self.target_exists == Some(true),
            target_size: match self.target_size {
                Some(Ok(n)) => Some(n),
                _ => None,
            },
            source_exists: self.source_exists != Some(false),
        }
    }
}

/// The questions verify asks, and when: whether the logged target exists; its size only
/// when it exists and a size was recorded; whether the source exists only once the target
/// checked out.
pub open spec fn verify_queries(item: VerifyItem, a: VerifyAnswers) -> bool {
    &&& (a.target_exists is Some <==> item.target is Some)
    &&& (a.target_size is Some <==> (a.target_exists == Some(true) && item.expected_size is Some))
    &&& (a.source_exists is Some <==> (a.target_exists == Some(true) && match item.expected_size {
        Some(size) => a.target_size == Some(Ok::<u64, String>(size)),
        None => true,
    }))
}

/// The verdict on one logged move, given what the file system answered.
pub fn verify_decision(item: &VerifyItem, answers: &VerifyAnswers) -> (passed: bool)
    ensures
        passed == verify_passes(*item, answers.observation()),
{
    if item.target.is_none() {
        return false;
    }
    match answers.target_exists {
        Some(true) => {},
        _ => return false,
    }
    match item.expected_size {
        Some(size) => match &answers.target_size {
            Some(Ok(n)) => if *n != size {
                return false;
            },
            _ => return false,
        },
        None => {},
    }
    match answers.source_exists {
        Some(false) => true,
        _ => false,
    }
}

/// One checked move: the verdict and the answers it rests on.
pub struct VerifyCheck {
    pub passed: bool,
    pub answers: VerifyAnswers,
}

/// Asks the file system what verify needs to know of one logged move.
fn verify_answers<F: FileMutator>(files: &F, item: &VerifyItem) -> (a: VerifyAnswers)
    ensures
        verify_queries(*item, a),
{
    let path = match &item.target {
        Some(path) => path,
        None => return VerifyAnswers { target_exists: None, target_size: None, source_exists: None },
    };
    let present = files.file_exists(path.as_str());
    if !present {
        return VerifyAnswers { target_exists: Some(false), target_size: None, source_exists: None };
    }
    let target_size = match item.expected_size {
        Some(size) => {
            let actual = files.size(path.as_str());
            let matches = match &actual {
                Ok(n) => *n == size,
                Err(_) => false,
            };
            if !matches {
                return VerifyAnswers {
                    target_exists: Some(true),
                    target_size: Some(actual),
                    source_exists: None,
                };
            }
            Some(actual)
        },
        None => None,
    };
    let source_present = files.file_exists(item.source.as_str());
    VerifyAnswers { target_exists: Some(true), target_size, source_exists: Some(source_present) }
}

/// Checks one logged move against the file system: the verdict is `verify_decision` of the
/// answers it got.
pub fn verify_item<F: FileMutator>(files: &F, item: &VerifyItem) -> (check: VerifyCheck)
    ensures
        check.passed == verify_passes(*item, check.answers.observation()),
        verify_queries(*item, check.answers),
{
    let answers = verify_answers(files, item);
    let passed = verify_decision(item, &answers);
    VerifyCheck { passed, answers }
}

pub struct VerifyResult {
    pub verify_id: String,
    pub success: u64,
    pub failed: u64,
}

pub struct VerifyUseCase<S, F> {
    pub store: Arc<S>,
    pub files: Arc<F>,
}

/// What verify records for one operation: success, or failure with
/// `expected_move_state_not_found`.
pub fn verify_record(passed: bool) -> (r: (OperationResult, Option<&'static str>))
    ensures
        passed ==> r.0 == OperationResult::Success && r.1 is None,
        !passed ==> (r.0 == OperationResult::Failed && (r.1 matches Some(t) && t@
            == "expected_move_state_not_found"@)),
{
    if passed {
        (OperationResult::Success, None)
    } else {
        (OperationResult::Failed, Some("expected_move_state_not_found"))
    }
}

/// The status a verify run ends with: completed when every operation was confirmed, failed
/// otherwise.
pub fn verify_run_status(failed: u64) -> (s: RunStatus)
    ensures
        s == (if failed == 0 {
            RunStatus::Completed
        } else {
            RunStatus::Failed
        }),
{
    if failed == 0 {
        RunStatus::Completed
    } else {
        RunStatus::Failed
    }
}

/// The checks of a verify pass over `items`: one per item, in order, each the verdict on its
/// item over the answers it got, asked as `verify_queries` allows.
pub open spec fn verified_checks(items: Seq<VerifyItem>, checks: Seq<VerifyCheck>) -> bool {
    &&& checks.len() == items.len()
    &&& forall|i: int|
        0 <= i < checks.len() ==> {
            &&& (#[trigger] checks[i]).passed == verify_passes(items[i], checks[i].answers.observation())
            &&& verify_queries(items[i], checks[i].answers)
        }
}

/// How many of the checks passed.
pub open spec fn passed_count(checks: Seq<VerifyCheck>) -> nat
    decreases checks.len(),
{
    if checks.len() == 0 {
        0
    } else {
        passed_count(checks.drop_last()) + if checks.last().passed {
            1nat
        } else {
            0nat
        }
    }
}

/// A finished verify pass: the checks, how many passed and how many failed.
pub struct VerifyRun {
    pub checks: Vec<VerifyCheck>,
    pub success: u64,
    pub failed: u64,
}

impl<S: VerifyStore, F: FileMutator> VerifyUseCase<S, F> {
    /// Checks the loaded operations in order, recording `verify_record` of each verdict
    /// before the next; a recording error stops the pass and is handed back. On success the
    /// checks are `verified_checks` of the items, `success` counts those that passed and
    /// `failed` the others.
    pub fn verify_all(&self, execution_id: &str, items: &Vec<VerifyItem>) -> (r: Result<
        VerifyRun,
        String,
    >)
        ensures
            r matches Ok(run) ==> {
                &&& verified_checks(items@, run.checks@)
                &&& run.success == passed_count(run.checks@)
                &&& run.success + run.failed == items.len()
            },
    {
        let mut checks: Vec<VerifyCheck> = Vec::new();
        let mut success: u64 = 0;
        let mut failed: u64 = 0;
        let mut i: usize = 0;
        while i < items.len()
            invariant
                i <= items.len(),
                verified_checks(items@.take(i as int), checks@),
                success == passed_count(checks@),
                success + failed == i,
            decreases items.len() - i,
        {
            let item = &items[i];
            let check = verify_item(&*self.files, item);
            let passed = check.passed;
            if passed {
                success += 1;
            } else {
                failed += 1;
            }
            let ghost before = checks@;
            checks.push(check);
            proof {
                assert(checks@.drop_last() =~= before);
                assert forall|k: int| 0 <= k < checks@.len() implies ({
                    &&& (#[trigger] checks@[k]).passed == verify_passes(
                        items@.take(i + 1)[k],
                        checks@[k].answers.observation(),
                    )
                    &&& verify_queries(items@.take(i + 1)[k], checks@[k].answers)
                }) by {
                    if k < i {
                        assert(checks@[k] == before[k]);
                        assert(items@.take(i + 1)[k] == items@.take(i as int)[k]);
                    }
                }
            }
            let (result, error) = verify_record(passed);
            if let Err(e) = self.store.save_verify_result(
                execution_id,
                item.operation_id.as_str(),
                result,
                error,
            ) {
                return Err(e);
            }
            i += 1;
        }
        assert(items@.take(items.len() as int) =~= items@);
        Ok(VerifyRun { checks, success, failed })
    }

    /// Verifies every successful move of an execution: begins the verify run, loads the
    /// operations (a load error ends the run failed and is handed back), checks them
    /// (`verify_all`) and ends the run with `verify_run_status` of the failures. On success
    /// the counts are those of checks that are `verified_checks` of the operations the store
    /// handed over.
    pub fn execute(&self, execution_id: &str) -> (r: WorkflowResult<VerifyResult>)
        ensures
            r matches Ok(res) ==> exists|items: Seq<VerifyItem>, checks: Seq<VerifyCheck>|
                {
                    &&& #[trigger] verified_checks(items, checks)
                    &&& res.success == passed_count(checks)
                    &&& res.success + res.failed == items.len()
                },
    {
        let started = start_clock();
        let verify_id = match self.store.begin_verify(execution_id) {
            Ok(id) => id,
            Err(e) => return Err(WorkflowError::new(e)),
        };
        let items = match self.store.load_successful_operations(execution_id) {
            Ok(items) => items,
            Err(error) => {
                let _ = self.store.finish_verify(verify_id.as_str(), RunStatus::Failed, 0, 0);
                return Err(WorkflowError::new(error));
            },
        };
        let run = match self.verify_all(execution_id, &items) {
            Ok(run) => run,
            Err(e) => return Err(WorkflowError::new(e)),
        };
        let success = run.success;
        let failed = run.failed;
        if let Err(e) = self.store.finish_verify(
            verify_id.as_str(),
            verify_run_status(failed),
            success,
            failed,
        ) {
            return Err(WorkflowError::new(e));
        }
        if let Err(e) = self.store.record_metric(
            verify_id.as_str(),
            "verify",
            elapsed_ms(&started),
            success + failed,
        ) {
            return Err(WorkflowError::new(e));
        }
        proof {
            assert(verified_checks(items@, run.checks@));
        }
        Ok(VerifyResult { verify_id, success, failed })
    }
}

} // verus!
