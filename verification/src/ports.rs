//! The outside services that the workflow steps are written against: metadata readers,
//! file systems and the run store. Paths are passed as text.

use vstd::prelude::*;
use crate::domain::{
    ApplyItem, FileFingerprint, NamingRules, OperationLog, PlanItem, RunStatus, ScannedFile,
    TrackMetadata, VerifyItem,
};
use crate::execution::OperationResult;

verus! {

/// Reads the tags of one audio file.
pub trait MetadataReader: Send + Sync {
    fn read(&self, path: &str) -> Result<TrackMetadata, String>;
}

/// Persists scan runs and the metadata cache.
pub trait ScanStore: Send + Sync {
    fn previous_metadata(&self, path: &str, fingerprint: &FileFingerprint) -> Result<
        Option<TrackMetadata>,
        String,
    >;

    fn begin_scan(&self, source: &str) -> Result<String, String>;

    fn save_batch(&self, scan_id: &str, files: &[ScannedFile]) -> Result<(), String>;

    fn finish_scan(&self, scan_id: &str, status: RunStatus, warnings: u64) -> Result<(), String>;

    /// Keeps a warning of a scan run; by default warnings are not kept and the call succeeds.
    fn save_scan_warning(&self, scan_id: &str, warning: &str) -> (r: Result<(), String>)
        default_ensures
            r is Ok,
    {
        Ok(())
    }

    /// Records the time and item count of one phase of a run; by default metrics are not
    /// kept and the call succeeds.
    fn record_metric(&self, run_id: &str, phase: &str, elapsed_ms: u64, item_count: u64) -> (r:
        Result<(), String>)
        default_ensures
            r is Ok,
    {
        Ok(())
    }
}

/// Lists and fingerprints candidate files.
pub trait FileSystem: Send + Sync {
    /// Calls `visitor` once per candidate, stopping when it returns `false`.
    /// Implementations must not accumulate the entire library in memory before calling
    /// the visitor.
    fn enumerate<V: FnMut(Result<String, String>) -> bool>(
        &self,
        root: &str,
        follow_links: bool,
        visitor: &mut V,
    ) -> Result<(), String>;

    fn fingerprint(&self, path: &str) -> Result<FileFingerprint, String>;
}

/// Persists plans.
pub trait PlanStore: Send + Sync {
    fn load_completed_scan(&self, scan_id: &str) -> Result<Vec<ScannedFile>, String>;

    fn begin_plan(&self, scan_id: &str, target_root: &str, naming: &NamingRules) -> Result<
        String,
        String,
    >;

    fn save_plan_items(&self, plan_id: &str, items: &[PlanItem]) -> Result<(), String>;

    fn finish_plan(
        &self,
        plan_id: &str,
        conflict_count: u64,
        risk_count: u64,
        snapshot_hash: &str,
    ) -> Result<(), String>;

    fn fail_plan(&self, plan_id: &str) -> Result<(), String>;

    /// Records the time and item count of one phase of a run; by default metrics are not
    /// kept and the call succeeds.
    fn record_metric(&self, run_id: &str, phase: &str, elapsed_ms: u64, item_count: u64) -> (r:
        Result<(), String>)
        default_ensures
            r is Ok,
    {
        Ok(())
    }
}

/// A manual target for one item of a completed plan.
#[derive(Debug, Clone)]
pub struct ManualTargetChange {
    pub plan_item_id: String,
    pub target: String,
    pub reason: String,
}

/// Creates revised plans from completed ones.
pub trait PlanRevisionStore: Send + Sync {
    fn revise_plan(&self, parent_plan_id: &str, changes: &[ManualTargetChange]) -> Result<
        String,
        String,
    >;
}

/// Persists executions of plans.
pub trait ApplyStore: Send + Sync {
    fn load_completed_plan(&self, plan_id: &str) -> Result<Vec<ApplyItem>, String>;

    /// Reject execution when the persisted plan rows no longer match their snapshot.
    fn validate_plan_snapshot(&self, plan_id: &str) -> Result<(), String>;

    /// Successful non-dry-run items are never mutated twice for the same plan.
    fn successful_plan_item_ids(&self, plan_id: &str) -> Result<Vec<String>, String>;

    fn begin_execution(&self, plan_id: &str, dry_run: bool) -> Result<String, String>;

    fn save_operation(&self, execution_id: &str, operation: &OperationLog) -> Result<(), String>;

    fn finish_execution(
        &self,
        execution_id: &str,
        status: RunStatus,
        success: u64,
        skipped: u64,
        failed: u64,
    ) -> Result<(), String>;

    /// Records the time and item count of one phase of a run; by default metrics are not
    /// kept and the call succeeds.
    fn record_metric(&self, run_id: &str, phase: &str, elapsed_ms: u64, item_count: u64) -> (r:
        Result<(), String>)
        default_ensures
            r is Ok,
    {
        Ok(())
    }
}

/// The file operations of apply and rollback.
pub trait FileMutator: Send + Sync {
    /// Whether something exists at `path`.
    fn file_exists(&self, path: &str) -> bool;

    fn same_volume(&self, source: &str, target: &str) -> Result<bool, String>;

    fn move_file(&self, source: &str, target: &str) -> Result<(), String>;

    fn copy_file(&self, source: &str, target: &str) -> Result<(), String>;

    fn size(&self, path: &str) -> Result<u64, String>;

    fn delete_file(&self, path: &str) -> Result<(), String>;
}

/// Persists verify runs.
pub trait VerifyStore: Send + Sync {
    fn begin_verify(&self, execution_id: &str) -> Result<String, String>;

    fn load_successful_operations(&self, execution_id: &str) -> Result<Vec<VerifyItem>, String>;

    fn save_verify_result(
        &self,
        execution_id: &str,
        operation_id: &str,
        result: OperationResult,
        error: Option<&str>,
    ) -> Result<(), String>;

    fn finish_verify(&self, verify_id: &str, status: RunStatus, success: u64, failed: u64) -> Result<
        (),
        String,
    >;

    /// Records the time and item count of one phase of a run; by default metrics are not
    /// kept and the call succeeds.
    fn record_metric(&self, run_id: &str, phase: &str, elapsed_ms: u64, item_count: u64) -> (r:
        Result<(), String>)
        default_ensures
            r is Ok,
    {
        Ok(())
    }
}

/// Persists rollback runs.
pub trait RollbackStore: Send + Sync {
    fn begin_rollback(&self, execution_id: &str, dry_run: bool) -> Result<String, String>;

    fn load_rollback_items(&self, execution_id: &str) -> Result<Vec<VerifyItem>, String>;

    fn save_rollback_result(
        &self,
        execution_id: &str,
        operation_id: &str,
        result: OperationResult,
        error: Option<&str>,
    ) -> Result<(), String>;

    fn finish_rollback(
        &self,
        rollback_id: &str,
        status: RunStatus,
        success: u64,
        skipped: u64,
        failed: u64,
    ) -> Result<(), String>;

    /// Records the time and item count of one phase of a run; by default metrics are not
    /// kept and the call succeeds.
    fn record_metric(&self, run_id: &str, phase: &str, elapsed_ms: u64, item_count: u64) -> (r:
        Result<(), String>)
        default_ensures
            r is Ok,
    {
        Ok(())
    }
}

} // verus!
