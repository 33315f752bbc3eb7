//! Codes that runs and operation logs are recorded with, and the workflow error.

use vstd::prelude::*;
use crate::domain::RunStatus;

verus! {

/// The error of a workflow step: a stable code.
#[derive(Debug)]
pub struct WorkflowError {
    code: String,
}

impl WorkflowError {
    /// The code, as a view for contracts.
    pub closed spec fn code_view(&self) -> Seq<char> {
        self.code@
    }

    /// An error with the given code.
    pub fn new(code: String) -> (e: Self)
        ensures
            e.code_view() == code@,
    {
        WorkflowError { code }
    }

    /// An error whose code is the text `code`.
    pub fn from_code(code: &str) -> (e: Self)
        ensures
            e.code_view() == code@,
    {
        WorkflowError { code: String::from_str(code) }
    }

    /// The code of this error.
    pub fn code(&self) -> (r: &str)
        ensures
            r@ == self.code_view(),
    {
        self.code.as_str()
    }
}

impl From<String> for WorkflowError {
    /// An error with the given code.
    fn from(code: String) -> (e: Self)
        ensures
            e.code_view() == code@,
    {
        WorkflowError { code }
    }
}

impl vstd::std_specs::convert::FromSpecImpl<String> for WorkflowError {
    open spec fn obeys_from_spec() -> bool {
        true
    }

    closed spec fn from_spec(code: String) -> Self {
        WorkflowError { code }
    }
}

impl From<&str> for WorkflowError {
    /// An error whose code is the text `code`.
    fn from(code: &str) -> (e: Self)
        ensures
            e.code_view() == code@,
    {
        WorkflowError::from_code(code)
    }
}

impl vstd::std_specs::convert::FromSpecImpl<&str> for WorkflowError {
    /// The result of this conversion is stated by the `ensures` of `from`.
    open spec fn obeys_from_spec() -> bool {
        false
    }

    open spec fn from_spec(code: &str) -> Self {
        arbitrary()
    }
}

pub type WorkflowResult<T> = Result<T, WorkflowError>;

/// The code under which a run status is stored.
pub open spec fn run_status_code(s: RunStatus) -> Seq<char> {
    match s {
        RunStatus::Running => "running"@,
        RunStatus::Completed => "completed"@,
        RunStatus::Failed => "failed"@,
        RunStatus::Cancelled => "cancelled"@,
        RunStatus::Partial => "partial"@,
    }
}

impl RunStatus {
    /// The code under which this status is stored.
    pub fn as_str(self) -> (r: &'static str)
        ensures
            r@ == run_status_code(self),
    {
        match self {
            RunStatus::Running => "running",
            RunStatus::Completed => "completed",
            RunStatus::Failed => "failed",
            RunStatus::Cancelled => "cancelled",
            RunStatus::Partial => "partial",
        }
    }
}

/// What was done to one plan item.
#[derive(Debug, Clone, Copy, PartialEq, Eq, Structural)]
pub enum OperationAction {
    Move,
    CopyDelete,
    CopySourceRetained,
    Skip,
    DryRun,
}

/// The code under which an operation action is stored.
pub open spec fn operation_action_code(a: OperationAction) -> Seq<char> {
    match a {
        OperationAction::Move => "move"@,
        OperationAction::CopyDelete => "copy_delete"@,
        OperationAction::CopySourceRetained => "copy_source_retained"@,
        OperationAction::Skip => "skip"@,
        OperationAction::DryRun => "dry_run"@,
    }
}

/// The action that a stored code names; `copy` is the older name of `copy_source_retained`.
pub open spec fn operation_action_from(code: Seq<char>) -> Option<OperationAction> {
    if code == "move"@ {
        Some(OperationAction::Move)
    } else if code == "copy_delete"@ {
        Some(OperationAction::CopyDelete)
    } else if code == "copy_source_retained"@ || code == "copy"@ {
        Some(OperationAction::CopySourceRetained)
    } else if code == "skip"@ {
        Some(OperationAction::Skip)
    } else if code == "dry_run"@ {
        Some(OperationAction::DryRun)
    } else {
        None
    }
}

fn str_eq(a: &str, b: &str) -> (r: bool)
    ensures
        r == (a@ == b@),
{
    let av = crate::text::chars_of(a);
    crate::text::chars_equal_str(&av, b)
}

impl OperationAction {
    /// The code under which this action is stored.
    pub fn as_str(self) -> (r: &'static str)
        ensures
            r@ == operation_action_code(self),
    {
        match self {
            OperationAction::Move => "move",
            OperationAction::CopyDelete => "copy_delete",
            OperationAction::CopySourceRetained => "copy_source_retained",
            OperationAction::Skip => "skip",
            OperationAction::DryRun => "dry_run",
        }
    }

    /// The action that a stored code names, if any.
    pub fn from_code(value: &str) -> (r: Option<Self>)
        ensures
            r == operation_action_from(value@),
    {
        if str_eq(value, "move") {
            Some(OperationAction::Move)
        } else if str_eq(value, "copy_delete") {
            Some(OperationAction::CopyDelete)
        } else if str_eq(value, "copy_source_retained") || str_eq(value, "copy") {
            Some(OperationAction::CopySourceRetained)
        } else if str_eq(value, "skip") {
            Some(OperationAction::Skip)
        } else if str_eq(value, "dry_run") {
            Some(OperationAction::DryRun)
        } else {
            None
        }
    }
}

/// How one operation ended.
#[derive(Debug, Clone, Copy, PartialEq, Eq, Structural)]
pub enum OperationResult {
    Success,
    Skipped,
    Failed,
}

/// The code under which an operation result is stored.
pub open spec fn operation_result_code(r: OperationResult) -> Seq<char> {
    match r {
        OperationResult::Success => "success"@,
        OperationResult::Skipped => "skipped"@,
        OperationResult::Failed => "failed"@,
    }
}

impl OperationResult {
    /// The code under which this result is stored.
    pub fn as_str(self) -> (r: &'static str)
        ensures
            r@ == operation_result_code(self),
    {
        match self {
            OperationResult::Success => "success",
            OperationResult::Skipped => "skipped",
            OperationResult::Failed => "failed",
        }
    }
}

/// The status a run that changes files ends with: completed when nothing failed, partial
/// otherwise.
pub fn completed_or_partial(failed: u64) -> (s: RunStatus)
    ensures
        s == (if failed == 0 {
            RunStatus::Completed
        } else {
            RunStatus::Partial
        }),
{
    if failed == 0 {
        RunStatus::Completed
    } else {
        RunStatus::Partial
    }
}

} // verus!
