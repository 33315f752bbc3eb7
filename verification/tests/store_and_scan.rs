use music_folder::domain::{
    FileFingerprint, FileKind, NamingRules, PlanAction, PlanItem, Risk, RunStatus, ScannedFile,
    TrackMetadata,
};
use music_folder::execution::WorkflowError;
use music_folder::pages::{finish_plan_page, operation_log_limit, plan_page_size, PlanItemRow};
use music_folder::plan_usecase::{PlanOptions, PlanUseCase, RevisePlanUseCase};
use music_folder::ports::{
    FileSystem, ManualTargetChange, MetadataReader, PlanRevisionStore, PlanStore, ScanStore,
};
use music_folder::scan::{
    enumeration_failure, scan_path, scan_run_status, CancellationToken, ScanTally, ScanUseCase,
    ScanWorkerResult,
};
use music_folder::snapshot::plan_snapshot_hash;
use music_folder::stored_plan::{
    check_plan_snapshot, parse_stored_action, parse_stored_risk, plan_action_name,
    revise_plan_rows, risk_name, StoredPlanRow,
};
use std::sync::{Arc, Mutex};

fn row(id: &str, ordinal: u64, source: &str, target: Option<&str>, action: &str, risk: &str, reason: Option<&str>) -> StoredPlanRow {
    StoredPlanRow {
        id: id.into(),
        ordinal,
        source_path: source.into(),
        target_path: target.map(Into::into),
        action: action.into(),
        risk: risk.into(),
        reason: reason.map(Into::into),
    }
}

fn item(ordinal: u64, source: &str, target: Option<&str>) -> PlanItem {
    PlanItem {
        id: 9,
        conflict_group_id: None,
        ordinal,
        file: ScannedFile {
            id: 3,
            path: source.into(),
            fingerprint: FileFingerprint {
                size_bytes: 1,
                mtime_ns: 2,
            },
            metadata: None,
            kind: FileKind::Music,
        },
        target: target.map(Into::into),
        action: PlanAction::Move,
        risk: Risk::NoRisk,
        reason: None,
        conflict_candidates: Vec::new(),
    }
}

#[test]
fn stored_rows_check_against_the_plan_hash() {
    let items = vec![item(1, "C:/in/a.mp3", Some("C:/out/a.mp3")), item(2, "C:/in/b.mp3", None)];
    let hash = plan_snapshot_hash(&items);
    assert_eq!(hash.len(), 64);
    assert!(hash.chars().all(|c| c.is_ascii_hexdigit() && !c.is_ascii_uppercase()));
    let rows = vec![
        row("x", 1, "C:/in/a.mp3", Some("C:/out/a.mp3"), "move", "none", None),
        row("y", 2, "C:/in/b.mp3", None, "move", "none", None),
    ];
    assert_eq!(check_plan_snapshot(&rows, &hash), Ok(()));
    let mut tampered = rows.clone();
    tampered[0].target_path = Some("C:/out/a.mp3.tampered".into());
    assert_eq!(
        check_plan_snapshot(&tampered, &hash),
        Err("plan_snapshot_mismatch".to_string())
    );
}

#[test]
fn snapshot_hash_of_an_empty_plan_is_the_empty_digest() {
    assert_eq!(
        plan_snapshot_hash(&Vec::new()),
        "e3b0c44298fc1c149afbf4c8996fb92427ae41e4649b934ca495991b7852b855"
    );
}

#[test]
fn stored_names_read_back() {
    for action in [PlanAction::Move, PlanAction::Skip] {
        assert_eq!(parse_stored_action(plan_action_name(action)), action);
    }
    for risk in [
        Risk::NoRisk,
        Risk::InvalidTarget,
        Risk::PathTooLong,
        Risk::Conflict,
        Risk::MetadataMissing,
    ] {
        assert_eq!(parse_stored_risk(risk_name(risk)), risk);
    }
    assert_eq!(parse_stored_risk("unexpected"), Risk::InvalidTarget);
    assert_eq!(parse_stored_action("unexpected"), PlanAction::Skip);
}

#[test]
fn revision_applies_manual_targets_and_rechecks_conflicts() {
    let rows = vec![
        row("a", 1, "C:/in/a.mp3", Some("C:/out/x.mp3"), "skip", "conflict", Some("target_conflict")),
        row("b", 2, "C:/in/b.mp3", Some("C:/out/X.mp3"), "skip", "conflict", Some("target_conflict")),
        row("c", 3, "C:/in/c.mp3", Some("C:/out/c.mp3"), "move", "none", None),
        row("d", 4, "C:/in/d.mp3", None, "skip", "metadata_missing", Some("metadata_missing")),
    ];
    let changes = vec![
        ManualTargetChange {
            plan_item_id: "b".into(),
            target: "C:/out/y.mp3".into(),
            reason: "first".into(),
        },
        ManualTargetChange {
            plan_item_id: "b".into(),
            target: "C:/out/Manual/b.mp3".into(),
            reason: "test".into(),
        },
        ManualTargetChange {
            plan_item_id: "c".into(),
            target: "C:/in/c.mp3".into(),
            reason: "same".into(),
        },
    ];
    let revised = revise_plan_rows(&rows, &changes);
    assert_eq!(revised.rows.len(), 4);
    // The former conflict moves again once its partner has a manual target.
    assert_eq!(revised.rows[0].action, "move");
    assert_eq!(revised.rows[0].risk, "none");
    assert_eq!(revised.rows[0].reason, None);
    assert_eq!(revised.rows[0].origin, "rule");
    assert_eq!(revised.rows[1].target_path.as_deref(), Some("C:/out/Manual/b.mp3"));
    assert_eq!(revised.rows[1].origin, "manual");
    assert_eq!(revised.rows[1].reason.as_deref(), Some("test"));
    assert_eq!(revised.rows[1].action, "move");
    // A manual target equal to the source is refused.
    assert_eq!(revised.rows[2].action, "skip");
    assert_eq!(revised.rows[2].risk, "invalid_target");
    assert_eq!(revised.rows[3].risk, "metadata_missing");
    assert_eq!(revised.conflicts, 0);
    assert_eq!(revised.risks, 2);
    assert!(revised.rows.iter().all(|r| r.conflict_key.is_none()));
    assert_eq!(revised.snapshot_hash.len(), 64);

    let colliding = vec![ManualTargetChange {
        plan_item_id: "c".into(),
        target: "C:/OUT/X.MP3".into(),
        reason: "collide".into(),
    }];
    let revised = revise_plan_rows(&rows, &colliding);
    assert_eq!(revised.conflicts, 3);
    for r in &revised.rows[0..3] {
        assert_eq!(r.action, "skip");
        assert_eq!(r.risk, "conflict");
        assert_eq!(r.reason.as_deref(), Some("target_conflict"));
        assert_eq!(r.conflict_key.as_deref(), Some("c:/out/x.mp3"));
    }
}

#[test]
fn plan_pages_are_cut_after_the_page_size() {
    assert_eq!(plan_page_size(0), 1);
    assert_eq!(plan_page_size(20), 20);
    assert_eq!(plan_page_size(9000), 500);
    assert_eq!(operation_log_limit(9000), 500);
    assert_eq!(operation_log_limit(7), 7);
    let rows: Vec<PlanItemRow> = (1..=4)
        .map(|n| PlanItemRow {
            id: format!("i{n}"),
            conflict_group_id: None,
            conflict_member_count: 0,
            ordinal: n * 10,
            source_path: "s".into(),
            target_path: None,
            action: "move".into(),
            risk: "none".into(),
            reason: None,
        })
        .collect();
    let (page, next) = finish_plan_page(rows.clone(), 3);
    assert_eq!(page.len(), 3);
    assert_eq!(next, Some(30));
    let (page, next) = finish_plan_page(rows, 4);
    assert_eq!(page.len(), 4);
    assert_eq!(next, None);
}

struct Files;
impl FileSystem for Files {
    fn enumerate<V: FnMut(Result<String, String>) -> bool>(
        &self,
        _: &str,
        _: bool,
        _: &mut V,
    ) -> Result<(), String> {
        Ok(())
    }
    fn fingerprint(&self, path: &str) -> Result<FileFingerprint, String> {
        if path.contains("gone") {
            Err("not found".into())
        } else {
            Ok(FileFingerprint {
                size_bytes: 5,
                mtime_ns: 7,
            })
        }
    }
}

struct Tags;
impl MetadataReader for Tags {
    fn read(&self, path: &str) -> Result<TrackMetadata, String> {
        if path.contains("broken") {
            Err("bad header".into())
        } else {
            Ok(TrackMetadata {
                artist: Some("Read".into()),
                album_artist: None,
                album: None,
                title: None,
                track_no: None,
                disc_no: None,
                year: None,
            })
        }
    }
}

#[derive(Default)]
struct Store {
    batches: Mutex<Vec<usize>>,
    warnings: Mutex<Vec<String>>,
    finished: Mutex<Vec<(RunStatus, u64)>>,
}
impl ScanStore for Store {
    fn previous_metadata(
        &self,
        path: &str,
        _: &FileFingerprint,
    ) -> Result<Option<TrackMetadata>, String> {
        if path.contains("cached") {
            Ok(Some(TrackMetadata {
                artist: Some("Cached".into()),
                album_artist: None,
                album: None,
                title: None,
                track_no: None,
                disc_no: None,
                year: None,
            }))
        } else if path.contains("cachefail") {
            Err("locked".into())
        } else {
            Ok(None)
        }
    }
    fn begin_scan(&self, _: &str) -> Result<String, String> {
        Ok("scan".into())
    }
    fn save_batch(&self, _: &str, files: &[ScannedFile]) -> Result<(), String> {
        self.batches.lock().unwrap().push(files.len());
        Ok(())
    }
    fn finish_scan(&self, _: &str, status: RunStatus, warnings: u64) -> Result<(), String> {
        self.finished.lock().unwrap().push((status, warnings));
        Ok(())
    }
    fn save_scan_warning(&self, _: &str, warning: &str) -> Result<(), String> {
        self.warnings.lock().unwrap().push(warning.into());
        Ok(())
    }
}

fn kinds(results: &[ScanWorkerResult]) -> Vec<String> {
    results
        .iter()
        .map(|r| match r {
            ScanWorkerResult::Warning(w) => format!("warning:{w}"),
            ScanWorkerResult::Record {
                file,
                cache_hit,
                warning,
                ..
            } => format!(
                "record:{:?}:{}:{}:{}",
                file.kind,
                cache_hit,
                warning,
                file.metadata
                    .as_ref()
                    .and_then(|m| m.artist.clone())
                    .unwrap_or_default()
            ),
        })
        .collect()
}

#[test]
fn scanning_a_path_reports_records_and_warnings() {
    let store = Store::default();
    let scan = |p: Result<String, String>| kinds(&scan_path(&Files, &Tags, &store, p).results);
    assert_eq!(scan(Err("walk".into())), vec!["warning:walk"]);
    assert_eq!(scan(Ok("gone.mp3".into())), vec!["warning:not found"]);
    assert_eq!(scan(Ok("a/cover.PNG".into())), vec!["record:Image:false:false:"]);
    assert_eq!(scan(Ok("a/cached.mp3".into())), vec!["record:Music:true:false:Cached"]);
    assert_eq!(scan(Ok("a/new.mp3".into())), vec!["record:Music:false:false:Read"]);
    assert_eq!(
        scan(Ok("a/broken.mp3".into())),
        vec![
            "warning:metadata_read_failed:a/broken.mp3:bad header",
            "record:Music:false:false:"
        ]
    );
    assert_eq!(
        scan(Ok("a/cachefail.mp3".into())),
        vec![
            "warning:metadata_cache_read_failed:a/cachefail.mp3:locked",
            "record:Music:false:false:Read"
        ]
    );
}

#[test]
fn tally_stores_full_batches_and_counts() {
    let store = Store::default();
    let mut tally = ScanTally::new();
    for result in scan_path(&Files, &Tags, &store, Ok("a/cached.mp3".into())).results {
        assert!(tally.has_room());
        tally.consume(&store, "scan", result, 2).unwrap();
    }
    for result in scan_path(&Files, &Tags, &store, Ok("a/broken.mp3".into())).results {
        tally.consume(&store, "scan", result, 2).unwrap();
    }
    assert_eq!(tally.total, 2);
    assert_eq!(tally.hits, 1);
    assert_eq!(tally.warnings, 1);
    assert_eq!(tally.batch.len(), 0);
    assert_eq!(*store.batches.lock().unwrap(), vec![2]);
    assert_eq!(store.warnings.lock().unwrap().len(), 1);
}

#[test]
fn finishing_a_scan_stores_the_rest_and_picks_the_status() {
    let store = Arc::new(Store::default());
    let usecase = ScanUseCase {
        fs: Arc::new(Files),
        metadata: Arc::new(Tags),
        store: store.clone(),
    };
    let id = usecase.begin("root").unwrap();
    let mut tally = ScanTally::new();
    for result in scan_path(&Files, &Tags, &*store, Ok("a/new.mp3".into())).results {
        tally.consume(&*store, &id, result, 10).unwrap();
    }
    let result = usecase.finish(id, tally, Ok(()), true, 1, 1, 1, 1).unwrap();
    assert_eq!(result.files, 1);
    assert_eq!(*store.batches.lock().unwrap(), vec![1]);
    assert_eq!(store.finished.lock().unwrap()[0], (RunStatus::Cancelled, 0));

    let failed = usecase
        .finish("scan".into(), ScanTally::new(), Err("walk failed".into()), false, 0, 0, 0, 0)
        .err()
        .unwrap();
    assert_eq!(failed.code(), "walk failed");
    assert_eq!(store.finished.lock().unwrap()[1].0, RunStatus::Failed);
}

#[test]
fn cancellation_is_shared_between_clones() {
    let token = CancellationToken::default();
    let other = token.clone();
    assert!(!other.is_cancelled());
    token.cancel();
    assert!(other.is_cancelled());
}

struct NoPlans;
impl PlanStore for NoPlans {
    fn load_completed_scan(&self, _: &str) -> Result<Vec<ScannedFile>, String> {
        Err("should not be asked".into())
    }
    fn begin_plan(&self, _: &str, _: &str, _: &NamingRules) -> Result<String, String> {
        Err("should not be asked".into())
    }
    fn save_plan_items(&self, _: &str, _: &[PlanItem]) -> Result<(), String> {
        Ok(())
    }
    fn finish_plan(&self, _: &str, _: u64, _: u64, _: &str) -> Result<(), String> {
        Ok(())
    }
    fn fail_plan(&self, _: &str) -> Result<(), String> {
        Ok(())
    }
}
impl PlanRevisionStore for NoPlans {
    fn revise_plan(&self, _: &str, _: &[ManualTargetChange]) -> Result<String, String> {
        Ok("child".into())
    }
}

#[test]
fn plan_refuses_invalid_naming_before_touching_the_store() {
    let result = PlanUseCase {
        store: Arc::new(NoPlans),
    }
    .execute(
        "scan",
        &PlanOptions {
            target_root: "C:/out".into(),
            batch_size: 10,
            naming: NamingRules {
                album_dir_template: "{albm}".into(),
                ..NamingRules::default()
            },
        },
    );
    assert_eq!(
        result.err().map(|e| e.code().to_string()),
        Some("invalid_naming_rules:unknown_field".to_string())
    );
}

#[test]
fn revision_needs_at_least_one_change() {
    let usecase = RevisePlanUseCase {
        store: Arc::new(NoPlans),
    };
    assert_eq!(
        usecase.execute("plan", &[]).err().map(|e| e.code().to_string()),
        Some("manual_target_change_required".to_string())
    );
    let change = ManualTargetChange {
        plan_item_id: "i".into(),
        target: "C:/out/x.mp3".into(),
        reason: "test".into(),
    };
    assert_eq!(usecase.execute("plan", &[change]).ok(), Some("child".to_string()));
}

#[test]
fn workflow_errors_convert_from_text() {
    assert_eq!(WorkflowError::from("x".to_string()).code(), "x");
    assert_eq!(WorkflowError::from("y").code(), "y");
}

#[derive(Default)]
struct MemoryPlans {
    files: Vec<ScannedFile>,
    saved: Mutex<Vec<PlanItem>>,
    batches: Mutex<Vec<usize>>,
    finished: Mutex<Option<(u64, u64, String)>>,
    failed: Mutex<bool>,
}
impl PlanStore for MemoryPlans {
    fn load_completed_scan(&self, _: &str) -> Result<Vec<ScannedFile>, String> {
        Ok(self.files.clone())
    }
    fn begin_plan(&self, _: &str, _: &str, _: &NamingRules) -> Result<String, String> {
        Ok("plan".into())
    }
    fn save_plan_items(&self, _: &str, items: &[PlanItem]) -> Result<(), String> {
        self.batches.lock().unwrap().push(items.len());
        self.saved.lock().unwrap().extend(items.iter().cloned());
        Ok(())
    }
    fn finish_plan(&self, _: &str, conflicts: u64, risks: u64, hash: &str) -> Result<(), String> {
        *self.finished.lock().unwrap() = Some((conflicts, risks, hash.to_string()));
        Ok(())
    }
    fn fail_plan(&self, _: &str) -> Result<(), String> {
        *self.failed.lock().unwrap() = true;
        Ok(())
    }
}

fn music(path: &str, title: &str) -> ScannedFile {
    ScannedFile {
        id: 1,
        path: path.into(),
        fingerprint: FileFingerprint {
            size_bytes: 1,
            mtime_ns: 1,
        },
        metadata: Some(TrackMetadata {
            artist: Some("Artist".into()),
            album_artist: None,
            album: Some("Album".into()),
            title: Some(title.into()),
            track_no: Some(1),
            disc_no: None,
            year: None,
        }),
        kind: FileKind::Music,
    }
}

#[test]
fn a_plan_is_stored_in_batches_with_its_counts_and_hash() {
    let store = Arc::new(MemoryPlans {
        files: vec![
            music("C:/in/a.mp3", "Same"),
            music("C:/in/b.mp3", "Same"),
            music("C:/in/c.mp3", "Other"),
        ],
        ..MemoryPlans::default()
    });
    let result = PlanUseCase {
        store: store.clone(),
    }
    .execute(
        "scan",
        &PlanOptions {
            target_root: "C:/out".into(),
            batch_size: 2,
            naming: NamingRules::default(),
        },
    )
    .ok()
    .unwrap();
    assert_eq!(result.items, 3);
    assert_eq!(result.conflicts, 2);
    assert_eq!(result.risks, 2);
    assert_eq!(*store.batches.lock().unwrap(), vec![2, 1]);
    let saved = store.saved.lock().unwrap().clone();
    let (conflicts, risks, hash) = store.finished.lock().unwrap().clone().unwrap();
    assert_eq!((conflicts, risks), (2, 2));
    assert_eq!(hash, plan_snapshot_hash(&saved));
    assert_eq!(saved[0].conflict_group_id, saved[1].conflict_group_id);
    assert_eq!(saved[2].action, PlanAction::Move);
}

#[test]
fn a_plan_whose_duplicate_suffix_needs_missing_tags_fails() {
    let untagged = |path: &str| ScannedFile {
        id: 1,
        path: path.into(),
        fingerprint: FileFingerprint {
            size_bytes: 1,
            mtime_ns: 1,
        },
        metadata: None,
        kind: FileKind::Music,
    };
    let store = Arc::new(MemoryPlans {
        files: vec![untagged("C:/in/one/song.mp3"), untagged("C:/in/two/song.mp3")],
        ..MemoryPlans::default()
    });
    let result = PlanUseCase {
        store: store.clone(),
    }
    .execute(
        "scan",
        &PlanOptions {
            target_root: "C:/out".into(),
            batch_size: 10,
            naming: NamingRules {
                allow_missing_metadata: true,
                duplicate_strategy: music_folder::domain::DuplicateStrategy::Template,
                duplicate_suffix_template: " ({album})".into(),
                ..NamingRules::default()
            },
        },
    );
    assert_eq!(
        result.err().map(|e| e.code().to_string()),
        Some("duplicate_suffix_needs_metadata".to_string())
    );
    assert!(*store.failed.lock().unwrap());
}

#[test]
fn a_cache_hit_is_not_read_again() {
    let store = Store::default();
    let outcome = scan_path(&Files, &Tags, &store, Ok("a/cached.mp3".into()));
    assert!(matches!(outcome.answers.cached, Some(Ok(Some(_)))));
    assert!(outcome.answers.read.is_none());
    let outcome = scan_path(&Files, &Tags, &store, Ok("a/new.mp3".into()));
    assert!(matches!(outcome.answers.cached, Some(Ok(None))));
    assert!(outcome.answers.read.is_some());
    let outcome = scan_path(&Files, &Tags, &store, Ok("a/cover.PNG".into()));
    assert!(outcome.answers.cached.is_none());
    assert!(outcome.answers.read.is_none());
}

#[test]
fn scan_status_and_enumeration_failure() {
    assert_eq!(scan_run_status(true), RunStatus::Cancelled);
    assert_eq!(scan_run_status(false), RunStatus::Completed);
    assert_eq!(enumeration_failure(Ok(()), "walk".into()).code(), "walk");
    assert_eq!(enumeration_failure(Err("db".into()), "walk".into()).code(), "db");
}
