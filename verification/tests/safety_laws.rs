use music_folder::apply::{apply_item, decide_apply, operation_log, ApplyAnswers};
use music_folder::candidates::{image_destination_candidates, MusicImageAnchor};
use music_folder::domain::{sanitize_component, ApplyItem, PlanAction, Risk, VerifyItem};
use music_folder::execution::{OperationAction, OperationResult};
use music_folder::path_policy::windows_path_key;
use music_folder::ports::FileMutator;
use music_folder::rollback::{decide_rollback, rollback_item, RollbackAnswers};
use music_folder::verify::{verify_decision, verify_item, VerifyAnswers};
use std::collections::HashSet;
use std::sync::Mutex;

#[derive(Default)]
struct World {
    present: Mutex<HashSet<String>>,
    sizes: Mutex<Vec<(String, u64)>>,
    same_volume: bool,
    mutations: Mutex<Vec<String>>,
}

impl World {
    fn with(files: &[(&str, u64)], same_volume: bool) -> World {
        let world = World {
            same_volume,
            ..World::default()
        };
        for (path, size) in files {
            world.present.lock().unwrap().insert(path.to_string());
            world.sizes.lock().unwrap().push((path.to_string(), *size));
        }
        world
    }
    fn mutations(&self) -> Vec<String> {
        self.mutations.lock().unwrap().clone()
    }
}

impl FileMutator for World {
    fn file_exists(&self, path: &str) -> bool {
        self.present.lock().unwrap().contains(path)
    }
    fn same_volume(&self, _: &str, _: &str) -> Result<bool, String> {
        Ok(self.same_volume)
    }
    fn move_file(&self, source: &str, target: &str) -> Result<(), String> {
        self.mutations.lock().unwrap().push(format!("move {source} {target}"));
        let mut present = self.present.lock().unwrap();
        present.remove(source);
        present.insert(target.to_string());
        Ok(())
    }
    fn copy_file(&self, source: &str, target: &str) -> Result<(), String> {
        self.mutations.lock().unwrap().push(format!("copy {source} {target}"));
        let size = self.size(source)?;
        self.present.lock().unwrap().insert(target.to_string());
        self.sizes.lock().unwrap().push((target.to_string(), size));
        Ok(())
    }
    fn size(&self, path: &str) -> Result<u64, String> {
        self.sizes
            .lock()
            .unwrap()
            .iter()
            .rev()
            .find(|(p, _)| p == path)
            .map(|(_, s)| *s)
            .ok_or_else(|| "missing".to_string())
    }
    fn delete_file(&self, path: &str) -> Result<(), String> {
        self.mutations.lock().unwrap().push(format!("delete {path}"));
        self.present.lock().unwrap().remove(path);
        Ok(())
    }
}

fn plan_item() -> ApplyItem {
    ApplyItem {
        plan_item_id: "i".into(),
        ordinal: 1,
        source: "src.mp3".into(),
        target: Some("dst.mp3".into()),
        action: PlanAction::Move,
        risk: Risk::NoRisk,
        reason: None,
    }
}

#[test]
fn a_dry_run_apply_touches_nothing() {
    let world = World::with(&[("src.mp3", 3)], false);
    let step = apply_item(&world, &plan_item(), false, true);
    assert_eq!(step.action, OperationAction::DryRun);
    assert_eq!(step.result, OperationResult::Success);
    assert!(!step.source_deleted);
    assert!(world.mutations().is_empty());
}

#[test]
fn an_existing_target_is_never_overwritten() {
    let world = World::with(&[("src.mp3", 3), ("dst.mp3", 5)], true);
    let step = apply_item(&world, &plan_item(), false, false);
    assert_eq!(step.result, OperationResult::Skipped);
    assert_eq!(step.error.as_deref(), Some("target_already_exists"));
    assert!(world.mutations().is_empty());
}

#[test]
fn a_confirmed_copy_across_volumes_deletes_the_source() {
    let world = World::with(&[("src.mp3", 3)], false);
    let step = apply_item(&world, &plan_item(), false, false);
    assert_eq!(step.action, OperationAction::CopyDelete);
    assert_eq!(step.result, OperationResult::Success);
    assert!(step.source_deleted);
    assert_eq!(
        world.mutations(),
        vec!["copy src.mp3 dst.mp3".to_string(), "delete src.mp3".to_string()]
    );
}

#[test]
fn items_applied_before_or_at_risk_are_skipped() {
    let world = World::with(&[("src.mp3", 3)], true);
    let step = apply_item(&world, &plan_item(), true, false);
    assert_eq!(step.error.as_deref(), Some("already_applied_for_plan"));
    let mut risky = plan_item();
    risky.risk = Risk::Conflict;
    risky.reason = Some("target_conflict".into());
    let step = apply_item(&world, &risky, false, false);
    assert_eq!(step.result, OperationResult::Skipped);
    assert_eq!(step.error.as_deref(), Some("target_conflict"));
    assert!(world.mutations().is_empty());
}

fn logged_move() -> VerifyItem {
    VerifyItem {
        operation_id: "op".into(),
        sequence_no: 1,
        source: "src.mp3".into(),
        target: Some("dst.mp3".into()),
        action: OperationAction::Move,
        expected_size: Some(3),
    }
}

#[test]
fn verify_needs_the_target_with_its_size_and_no_source() {
    assert!(verify_item(&World::with(&[("dst.mp3", 3)], true), &logged_move()).passed);
    assert!(!verify_item(&World::with(&[("dst.mp3", 4)], true), &logged_move()).passed);
    assert!(!verify_item(
        &World::with(&[("dst.mp3", 3), ("src.mp3", 3)], true),
        &logged_move()
    )
    .passed);
}

#[test]
fn a_dry_run_rollback_touches_nothing_and_an_occupied_source_is_kept() {
    let world = World::with(&[("dst.mp3", 3)], true);
    let result = rollback_item(&world, &logged_move(), true).result;
    assert_eq!(result, OperationResult::Success);
    assert!(world.mutations().is_empty());

    let occupied = World::with(&[("dst.mp3", 3), ("src.mp3", 9)], true);
    let result = rollback_item(&occupied, &logged_move(), false).result;
    assert_ne!(result, OperationResult::Success);
    assert!(occupied.mutations().is_empty());

    let world = World::with(&[("dst.mp3", 3)], true);
    let result = rollback_item(&world, &logged_move(), false).result;
    assert_eq!(result, OperationResult::Success);
    assert_eq!(world.mutations(), vec!["move dst.mp3 src.mp3".to_string()]);
}

#[test]
fn sanitizing_twice_changes_nothing_and_leaves_safe_names() {
    for name in ["CON", "aux.txt", "a:b?", "trailing. . ", "", "..", "lpt9"] {
        let once = sanitize_component(name);
        assert_eq!(sanitize_component(&once), once);
        assert!(!once.is_empty());
        assert!(!once.ends_with(' ') && !once.ends_with('.'));
        assert!(!once.contains(['<', '>', ':', '"', '/', '\\', '|', '?', '*']));
    }
}

#[test]
fn keys_ignore_separator_style_and_trailing_dots() {
    assert_eq!(windows_path_key("a/b/c"), windows_path_key("a\\b\\c"));
    assert_eq!(windows_path_key("a/b. "), windows_path_key("a/b"));
}

#[test]
fn keys_ignore_ascii_case() {
    assert_eq!(windows_path_key("C:/Music/ABBA. "), windows_path_key("c:\\music\\abba"));
    assert_eq!(windows_path_key("X/Y"), "x\\y");
}

#[test]
fn image_candidates_come_in_path_order() {
    let candidates = image_destination_candidates(vec![
        MusicImageAnchor {
            target_directory: "C:/out/B".into(),
            disc_parent: None,
            music_item_id: 1,
        },
        MusicImageAnchor {
            target_directory: "C:/out/A".into(),
            disc_parent: None,
            music_item_id: 3,
        },
        MusicImageAnchor {
            target_directory: "C:/out/A".into(),
            disc_parent: None,
            music_item_id: 2,
        },
        MusicImageAnchor {
            target_directory: "C:/out/A".into(),
            disc_parent: None,
            music_item_id: 2,
        },
    ]);
    assert_eq!(candidates.len(), 2);
    assert_eq!(candidates[0].target_directory, "C:/out/A");
    assert_eq!(candidates[0].music_item_ids, vec![2, 3]);
    assert_eq!(candidates[1].target_directory, "C:/out/B");
    assert_eq!(candidates[1].music_item_ids, vec![1]);
}

fn no_apply_answers() -> ApplyAnswers {
    ApplyAnswers {
        source_exists: None,
        target_exists: None,
        same_volume: None,
        moved: None,
        copied: None,
        source_size_after_copy: None,
        target_size_after_copy: None,
        source_deleted: None,
    }
}

#[test]
fn a_dry_run_apply_asks_nothing() {
    let world = World::with(&[("src.mp3", 3)], true);
    let step = apply_item(&world, &plan_item(), false, true);
    assert!(step.answers.source_exists.is_none());
    assert!(step.answers.moved.is_none());
    assert!(step.answers.copied.is_none());
}

#[test]
fn unequal_sizes_after_a_copy_keep_the_source() {
    let world = World::with(&[("src.mp3", 10)], false);
    world.sizes.lock().unwrap().push(("dst.mp3".into(), 9));
    struct Shrinking(World);
    impl FileMutator for Shrinking {
        fn file_exists(&self, p: &str) -> bool {
            self.0.file_exists(p)
        }
        fn same_volume(&self, a: &str, b: &str) -> Result<bool, String> {
            self.0.same_volume(a, b)
        }
        fn move_file(&self, a: &str, b: &str) -> Result<(), String> {
            self.0.move_file(a, b)
        }
        fn copy_file(&self, a: &str, b: &str) -> Result<(), String> {
            self.0.mutations.lock().unwrap().push(format!("copy {a} {b}"));
            self.0.present.lock().unwrap().insert(b.to_string());
            Ok(())
        }
        fn size(&self, p: &str) -> Result<u64, String> {
            self.0.size(p)
        }
        fn delete_file(&self, p: &str) -> Result<(), String> {
            self.0.delete_file(p)
        }
    }
    let files = Shrinking(world);
    let step = apply_item(&files, &plan_item(), false, false);
    assert_eq!(step.action, OperationAction::CopySourceRetained);
    assert_eq!(step.result, OperationResult::Failed);
    assert_eq!(step.error.as_deref(), Some("cross_volume_verify_failed"));
    assert!(!step.source_deleted);
    assert!(step.answers.source_deleted.is_none());
    assert_eq!(files.0.mutations(), vec!["copy src.mp3 dst.mp3".to_string()]);
}

#[test]
fn the_apply_decision_follows_the_answers() {
    let mut answers = no_apply_answers();
    answers.source_exists = Some(true);
    answers.target_exists = Some(false);
    answers.same_volume = Some(Ok(true));
    answers.moved = Some(Err("denied".into()));
    let step = decide_apply(&plan_item(), false, false, answers);
    assert_eq!(step.action, OperationAction::Move);
    assert_eq!(step.result, OperationResult::Failed);
    assert_eq!(step.error.as_deref(), Some("denied"));

    let mut answers = no_apply_answers();
    answers.source_exists = Some(true);
    answers.target_exists = Some(false);
    answers.same_volume = Some(Ok(true));
    answers.moved = Some(Ok(()));
    let step = decide_apply(&plan_item(), false, false, answers);
    assert_eq!(step.result, OperationResult::Success);
    assert!(step.source_deleted);

    let mut answers = no_apply_answers();
    answers.source_exists = Some(false);
    let step = decide_apply(&plan_item(), false, false, answers);
    assert_eq!(step.error.as_deref(), Some("source_or_target_missing"));
}

#[test]
fn an_operation_log_copies_the_item_and_the_step() {
    let world = World::with(&[("src.mp3", 3), ("dst.mp3", 5)], true);
    let step = apply_item(&world, &plan_item(), false, false);
    let log = operation_log(&plan_item(), &step, Some(3));
    assert_eq!(log.plan_item_id, "i");
    assert_eq!(log.sequence_no, 1);
    assert_eq!(log.source, "src.mp3");
    assert_eq!(log.target.as_deref(), Some("dst.mp3"));
    assert_eq!(log.action, OperationAction::Skip);
    assert_eq!(log.error.as_deref(), Some("target_already_exists"));
    assert_eq!(log.expected_size, Some(3));
    assert!(!log.source_deleted);
}

#[test]
fn the_verify_decision_needs_every_answer_right() {
    let ok = VerifyAnswers {
        target_exists: Some(true),
        target_size: Some(Ok(3)),
        source_exists: Some(false),
    };
    assert!(verify_decision(&logged_move(), &ok));
    let unread = VerifyAnswers {
        target_exists: Some(true),
        target_size: Some(Err("io".into())),
        source_exists: None,
    };
    assert!(!verify_decision(&logged_move(), &unread));
    let check = verify_item(&World::with(&[("dst.mp3", 4)], true), &logged_move());
    assert!(check.answers.source_exists.is_none());
}

#[test]
fn the_rollback_decision_follows_the_answers() {
    let answers = RollbackAnswers {
        target_exists: Some(true),
        target_size: Some(Some(3)),
        source_exists: Some(false),
        source_size: None,
        target_deleted: None,
        moved_back: Some(Err("busy".into())),
        copied_back: None,
        target_size_after_copy: None,
        source_size_after_copy: None,
        target_deleted_after_copy: None,
    };
    let step = decide_rollback(&logged_move(), false, answers);
    assert_eq!(step.result, OperationResult::Failed);
    assert_eq!(step.error, Some("reverse_move_failed"));

    let changed = RollbackAnswers {
        target_exists: Some(true),
        target_size: Some(Some(4)),
        source_exists: None,
        source_size: None,
        target_deleted: None,
        moved_back: None,
        copied_back: None,
        target_size_after_copy: None,
        source_size_after_copy: None,
        target_deleted_after_copy: None,
    };
    let step = decide_rollback(&logged_move(), false, changed);
    assert_eq!(step.error, Some("target_changed_since_apply"));
    let dry = rollback_item(&World::with(&[("dst.mp3", 3)], true), &logged_move(), true);
    assert!(dry.answers.moved_back.is_none());
    assert_eq!(dry.answers.source_exists, Some(false));
}

#[test]
fn a_key_is_its_own_key() {
    for p in ["C:/Music/ABBA. /Gold ", "a\\B.\\c", "", "x//y"] {
        let key = windows_path_key(p);
        assert_eq!(windows_path_key(&key), key);
    }
}
