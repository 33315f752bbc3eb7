use music_folder::apply::ApplyUseCase;
use music_folder::domain::{ApplyItem, OperationLog, PlanAction, Risk, RunStatus, VerifyItem};
use music_folder::execution::{OperationAction, OperationResult};
use music_folder::ports::{ApplyStore, FileMutator, RollbackStore};
use music_folder::rollback::RollbackUseCase;
use std::sync::{Arc, Mutex};

#[derive(Default)]
struct FailingCrossVolume {
    deleted: Mutex<Vec<String>>,
    calls: Mutex<Vec<String>>,
}
impl FileMutator for FailingCrossVolume {
    fn file_exists(&self, path: &str) -> bool {
        path == "source" || (path != "target" && path.starts_with("target"))
    }
    fn same_volume(&self, _: &str, _: &str) -> Result<bool, String> {
        Ok(false)
    }
    fn move_file(&self, source: &str, target: &str) -> Result<(), String> {
        self.calls
            .lock()
            .unwrap()
            .push(format!("{}->{}", source, target));
        Ok(())
    }
    fn copy_file(&self, _: &str, _: &str) -> Result<(), String> {
        Ok(())
    }
    fn size(&self, path: &str) -> Result<u64, String> {
        Ok(if path == "source" { 10 } else { 9 })
    }
    fn delete_file(&self, path: &str) -> Result<(), String> {
        self.deleted.lock().unwrap().push(path.to_string());
        Ok(())
    }
}

struct OneApplyStore;
impl ApplyStore for OneApplyStore {
    fn load_completed_plan(&self, _: &str) -> Result<Vec<ApplyItem>, String> {
        Ok(vec![ApplyItem {
            plan_item_id: "item".into(),
            ordinal: 1,
            source: "source".into(),
            target: Some("target".into()),
            action: PlanAction::Move,
            risk: Risk::NoRisk,
            reason: None,
        }])
    }
    fn validate_plan_snapshot(&self, _: &str) -> Result<(), String> {
        Ok(())
    }
    fn successful_plan_item_ids(&self, _: &str) -> Result<Vec<String>, String> {
        Ok(vec![])
    }
    fn begin_execution(&self, _: &str, _: bool) -> Result<String, String> {
        Ok("execution".into())
    }
    fn save_operation(&self, _: &str, _: &OperationLog) -> Result<(), String> {
        Ok(())
    }
    fn finish_execution(
        &self,
        _: &str,
        _: RunStatus,
        _: u64,
        _: u64,
        _: u64,
    ) -> Result<(), String> {
        Ok(())
    }
}

#[test]
fn cross_volume_verification_failure_never_deletes_source() {
    let files = Arc::new(FailingCrossVolume::default());
    let result = ApplyUseCase {
        store: Arc::new(OneApplyStore),
        files: Arc::clone(&files),
    }
    .execute("plan", false)
    .ok()
    .unwrap();
    assert_eq!(result.failed, 1);
    assert!(files.deleted.lock().unwrap().is_empty());
}

struct ReverseStore {
    saved: Mutex<Vec<String>>,
}
impl RollbackStore for ReverseStore {
    fn begin_rollback(&self, _: &str, _: bool) -> Result<String, String> {
        Ok("rollback".into())
    }
    fn load_rollback_items(&self, _: &str) -> Result<Vec<VerifyItem>, String> {
        Ok(vec![1u64, 3, 2]
            .into_iter()
            .map(|n| VerifyItem {
                operation_id: n.to_string(),
                sequence_no: n,
                source: format!("source{n}"),
                target: Some(format!("target{n}")),
                action: OperationAction::Move,
                expected_size: None,
            })
            .collect())
    }
    fn save_rollback_result(
        &self,
        _: &str,
        operation_id: &str,
        _: OperationResult,
        _: Option<&str>,
    ) -> Result<(), String> {
        self.saved.lock().unwrap().push(operation_id.into());
        Ok(())
    }
    fn finish_rollback(
        &self,
        _: &str,
        _: RunStatus,
        _: u64,
        _: u64,
        _: u64,
    ) -> Result<(), String> {
        Ok(())
    }
}

#[test]
fn rollback_processes_successful_operations_in_reverse_sequence() {
    let store = Arc::new(ReverseStore {
        saved: Mutex::new(vec![]),
    });
    let files = Arc::new(FailingCrossVolume::default());
    RollbackUseCase {
        store: Arc::clone(&store),
        files,
    }
    .execute("execution", true)
    .ok()
    .unwrap();
    assert_eq!(*store.saved.lock().unwrap(), ["3", "2", "1"]);
}

struct MismatchRollbackStore;
impl RollbackStore for MismatchRollbackStore {
    fn begin_rollback(&self, _: &str, _: bool) -> Result<String, String> {
        Ok("rollback".into())
    }
    fn load_rollback_items(&self, _: &str) -> Result<Vec<VerifyItem>, String> {
        Ok(vec![VerifyItem {
            operation_id: "operation".into(),
            sequence_no: 1,
            source: "source".into(),
            target: Some("target".into()),
            action: OperationAction::Move,
            expected_size: Some(10),
        }])
    }
    fn save_rollback_result(
        &self,
        _: &str,
        _: &str,
        result: OperationResult,
        error: Option<&str>,
    ) -> Result<(), String> {
        assert_eq!(result, OperationResult::Failed);
        assert_eq!(error, Some("target_changed_since_apply"));
        Ok(())
    }
    fn finish_rollback(
        &self,
        _: &str,
        _: RunStatus,
        _: u64,
        _: u64,
        _: u64,
    ) -> Result<(), String> {
        Ok(())
    }
}

#[derive(Default)]
struct MismatchFiles {
    mutations: Mutex<Vec<String>>,
}
impl FileMutator for MismatchFiles {
    fn file_exists(&self, path: &str) -> bool {
        path == "target"
    }
    fn same_volume(&self, _: &str, _: &str) -> Result<bool, String> {
        Ok(true)
    }
    fn move_file(&self, _: &str, _: &str) -> Result<(), String> {
        self.mutations.lock().unwrap().push("move".into());
        Ok(())
    }
    fn copy_file(&self, _: &str, _: &str) -> Result<(), String> {
        self.mutations.lock().unwrap().push("copy".into());
        Ok(())
    }
    fn size(&self, _: &str) -> Result<u64, String> {
        Ok(9)
    }
    fn delete_file(&self, _: &str) -> Result<(), String> {
        self.mutations.lock().unwrap().push("delete".into());
        Ok(())
    }
}

#[test]
fn rollback_does_not_mutate_a_target_that_changed_after_apply() {
    let files = Arc::new(MismatchFiles::default());
    let result = RollbackUseCase {
        store: Arc::new(MismatchRollbackStore),
        files: Arc::clone(&files),
    }
    .execute("execution", false)
    .ok()
    .unwrap();
    assert_eq!(result.failed, 1);
    assert!(files.mutations.lock().unwrap().is_empty());
}

#[test]
fn a_dry_run_counts_the_risk_free_moves_and_touches_nothing() {
    let files = Arc::new(FailingCrossVolume::default());
    let usecase = ApplyUseCase {
        store: Arc::new(OneApplyStore),
        files: Arc::clone(&files),
    };
    let item = |id: &str, action: PlanAction, risk: Risk| ApplyItem {
        plan_item_id: id.into(),
        ordinal: 1,
        source: "source".into(),
        target: Some("target".into()),
        action,
        risk,
        reason: None,
    };
    let items = vec![
        item("a", PlanAction::Move, Risk::NoRisk),
        item("b", PlanAction::Skip, Risk::NoRisk),
        item("c", PlanAction::Move, Risk::Conflict),
    ];
    let run = usecase.apply_all("execution", &items, &vec![], true).ok().unwrap();
    assert_eq!((run.success, run.skipped, run.failed), (1, 2, 0));
    assert_eq!(run.steps.len(), 3);
    assert_eq!(run.steps[0].action, OperationAction::DryRun);
    assert_eq!(run.steps[1].action, OperationAction::Skip);
    assert!(files.calls.lock().unwrap().is_empty());
    assert!(files.deleted.lock().unwrap().is_empty());
}

#[test]
fn items_applied_before_are_skipped_and_left_alone() {
    let files = Arc::new(FailingCrossVolume::default());
    let usecase = ApplyUseCase {
        store: Arc::new(OneApplyStore),
        files: Arc::clone(&files),
    };
    let items = OneApplyStore.load_completed_plan("plan").unwrap();
    let run = usecase
        .apply_all("execution", &items, &vec!["item".to_string()], false)
        .ok()
        .unwrap();
    assert_eq!((run.success, run.skipped, run.failed), (0, 1, 0));
    assert_eq!(run.steps[0].error.as_deref(), Some("already_applied_for_plan"));
    assert!(files.calls.lock().unwrap().is_empty());
    assert!(files.deleted.lock().unwrap().is_empty());
}
