use music_folder::candidates::{image_destination_candidates, MusicImageAnchor};
use music_folder::domain::{
    DuplicateStrategy, FileFingerprint, FileKind, NamingRules, PlanAction, PlanConflictCandidate,
    PlanItem, Risk, ScannedFile, TrackMetadata,
};
use music_folder::duplicates::{mark_target_conflicts, resolve_duplicate_targets};
use music_folder::naming::validate_naming_rules;
use music_folder::plan::{
    disc_parent_for_music_item, is_image_path, is_music_path, is_scan_candidate_path, make_plan_item,
};
use music_folder::plan_usecase::plan_counts;
use music_folder::planning::draft_plan_items;
use music_folder::snapshot::plan_snapshot_hash;
use std::path::{Path, PathBuf};

fn scanned(path: &str, metadata: Option<TrackMetadata>, kind: FileKind) -> ScannedFile {
    ScannedFile {
        id: 0,
        path: path.into(),
        fingerprint: FileFingerprint {
            size_bytes: 1,
            mtime_ns: 1,
        },
        metadata,
        kind,
    }
}

fn tags(artist: &str, album: &str, title: &str, track: u32, disc: Option<u32>) -> TrackMetadata {
    TrackMetadata {
        artist: Some(artist.into()),
        album_artist: Some(artist.into()),
        album: Some(album.into()),
        title: Some(title.into()),
        track_no: Some(track),
        disc_no: disc,
        year: None,
    }
}

fn same(a: &str, b: &str) -> bool {
    Path::new(a) == Path::new(b)
}

#[test]
fn plan_snapshot_hash_changes_when_authorized_target_changes() {
    let file = scanned(
        "C:/in/a.mp3",
        Some(TrackMetadata {
            artist: None,
            album_artist: None,
            album: None,
            title: None,
            track_no: None,
            disc_no: None,
            year: None,
        }),
        FileKind::Music,
    );
    let mut item = PlanItem {
        id: 0,
        conflict_group_id: None,
        ordinal: 1,
        file,
        target: Some("C:/out/a.mp3".into()),
        action: PlanAction::Move,
        risk: Risk::NoRisk,
        reason: None,
        conflict_candidates: Vec::new(),
    };
    let before = plan_snapshot_hash(&vec![item.clone()]);
    item.target = Some("C:/out/b.mp3".into());
    assert_ne!(before, plan_snapshot_hash(&vec![item]));
}

#[test]
fn plan_snapshot_hash_ignores_diagnostic_conflict_candidates() {
    let file = scanned("C:/in/cover.jpg", None, FileKind::Image);
    let mut item = PlanItem {
        id: 0,
        conflict_group_id: Some(0),
        ordinal: 1,
        file,
        target: None,
        action: PlanAction::Skip,
        risk: Risk::Conflict,
        reason: Some("companion_target_ambiguous".into()),
        conflict_candidates: Vec::new(),
    };
    let before = plan_snapshot_hash(&vec![item.clone()]);
    item.conflict_candidates.push(PlanConflictCandidate {
        target_directory: "C:/out/Album".into(),
        music_item_ids: vec![uuid::Uuid::new_v4().as_u128()],
    });
    assert_eq!(before, plan_snapshot_hash(&vec![item]));
}

#[test]
fn missing_metadata_is_skipped_unless_explicitly_allowed() {
    let file = scanned("C:/in/song.mp3", None, FileKind::Music);
    let skipped = make_plan_item(1, file.clone(), "C:/out", &NamingRules::default());
    assert_eq!(skipped.action, PlanAction::Skip);
    assert_eq!(skipped.risk, Risk::MetadataMissing);
    assert!(skipped.target.is_none());

    let allowed = make_plan_item(
        1,
        file,
        "C:/out",
        &NamingRules {
            allow_missing_metadata: true,
            ..NamingRules::default()
        },
    );
    assert_eq!(allowed.action, PlanAction::Move);
    assert_eq!(allowed.risk, Risk::MetadataMissing);
    assert_eq!(
        allowed.target.as_deref().map(PathBuf::from),
        Some(PathBuf::from("C:/out/Unknown Artist/Unknown Album/song.mp3"))
    );
}

#[test]
fn image_candidates_collapse_only_proven_disc_directories() {
    let album = PathBuf::from("C:/out/Artist/Album");
    let text = |p: PathBuf| p.to_string_lossy().into_owned();
    let collapsed = image_destination_candidates(vec![
        MusicImageAnchor {
            target_directory: text(album.join("Disc 01")),
            disc_parent: Some(text(album.clone())),
            music_item_id: 1,
        },
        MusicImageAnchor {
            target_directory: text(album.join("Disc 02")),
            disc_parent: Some(text(album.clone())),
            music_item_id: 2,
        },
    ]);
    assert_eq!(collapsed.len(), 1);
    assert!(same(&collapsed[0].target_directory, "C:/out/Artist/Album"));
    assert_eq!(collapsed[0].music_item_ids.len(), 2);

    let ambiguous = image_destination_candidates(vec![
        MusicImageAnchor {
            target_directory: "C:/out/Artist/Album A/01".into(),
            disc_parent: Some("C:/out/Artist/Album A".into()),
            music_item_id: 1,
        },
        MusicImageAnchor {
            target_directory: "C:/out/Artist/Album B/01".into(),
            disc_parent: Some("C:/out/Artist/Album B".into()),
            music_item_id: 2,
        },
    ]);
    assert_eq!(ambiguous.len(), 2);
}

#[test]
fn disc_parent_requires_a_nonempty_rendered_disc_component() {
    let file = scanned(
        "C:/in/song.flac",
        Some(TrackMetadata {
            artist: Some("Artist".into()),
            album_artist: Some("Artist".into()),
            album: Some("Album".into()),
            title: Some("Song".into()),
            track_no: Some(1),
            disc_no: Some(2),
            year: None,
        }),
        FileKind::Music,
    );
    let custom = NamingRules {
        disc_dir_template: "Disc {disc_no:02d}".into(),
        ..NamingRules::default()
    };
    assert_eq!(
        disc_parent_for_music_item("C:/out/Artist/Album/Disc 02", &file, &custom)
            .as_deref()
            .map(PathBuf::from),
        Some(PathBuf::from("C:/out/Artist/Album"))
    );
    assert_eq!(
        disc_parent_for_music_item(
            "C:/out/Artist/Album",
            &file,
            &NamingRules {
                disc_dir_template: String::new(),
                ..NamingRules::default()
            }
        ),
        None
    );
}

#[test]
fn music_item_gets_the_default_naming_target() {
    let file = scanned(
        "C:/in/x.flac",
        Some(tags("Artist", "Album", "Song", 3, Some(1))),
        FileKind::Music,
    );
    let item = make_plan_item(7, file, "C:/out", &NamingRules::default());
    assert_eq!(item.ordinal, 7);
    assert_eq!(item.action, PlanAction::Move);
    assert_eq!(item.risk, Risk::NoRisk);
    assert!(same(
        item.target.as_deref().unwrap(),
        "C:/out/Artist/Album/01/03_Song.flac"
    ));
}

#[test]
fn partly_missing_tags_name_the_reason() {
    let mut only_artist = tags("Artist", "Album", "Song", 1, None);
    only_artist.album = None;
    let item = make_plan_item(
        1,
        scanned("C:/in/a.mp3", Some(only_artist), FileKind::Music),
        "C:/out",
        &NamingRules::default(),
    );
    assert_eq!(item.reason.as_deref(), Some("album_missing"));
    assert_eq!(item.action, PlanAction::Skip);

    let none = TrackMetadata {
        artist: None,
        album_artist: None,
        album: None,
        title: Some("Song".into()),
        track_no: None,
        disc_no: None,
        year: None,
    };
    let item = make_plan_item(
        1,
        scanned("C:/in/a.mp3", Some(none), FileKind::Music),
        "C:/out",
        &NamingRules {
            allow_missing_metadata: true,
            ..NamingRules::default()
        },
    );
    assert_eq!(item.reason.as_deref(), Some("artist_album_missing"));
    assert_eq!(item.risk, Risk::MetadataMissing);
    assert!(same(
        item.target.as_deref().unwrap(),
        "C:/out/Unknown Artist/Unknown Album/Song.mp3"
    ));
}

#[test]
fn target_equal_to_source_is_an_invalid_target() {
    let file = scanned(
        "C:/out/Artist/Album/01_Song.mp3",
        Some(tags("Artist", "Album", "Song", 1, None)),
        FileKind::Music,
    );
    let item = make_plan_item(1, file, "C:/out", &NamingRules::default());
    assert_eq!(item.action, PlanAction::Skip);
    assert_eq!(item.risk, Risk::InvalidTarget);
    assert_eq!(item.reason.as_deref(), Some("source_equals_target"));
}

#[test]
fn too_long_target_is_skipped_with_the_policy_reason() {
    let long_album = "a".repeat(250);
    let file = scanned(
        "C:/in/x.mp3",
        Some(tags("Artist", &long_album, "Song", 1, None)),
        FileKind::Music,
    );
    let item = make_plan_item(1, file, "C:/out", &NamingRules::default());
    assert_eq!(item.action, PlanAction::Skip);
    assert_eq!(item.risk, Risk::PathTooLong);
    assert_eq!(item.reason.as_deref(), Some("path_too_long"));
}

#[test]
fn images_are_recognised_by_extension_in_any_case() {
    assert!(is_image_path("C:/in/cover.JPG"));
    assert!(is_image_path("C:/in/back.webp"));
    assert!(!is_image_path("C:/in/song.mp3"));
    assert!(!is_image_path("C:/in/noext"));
}

#[test]
fn companion_image_follows_the_music_of_its_folder() {
    let files = vec![
        scanned(
            "C:/in/album/01.mp3",
            Some(tags("Artist", "Album", "One", 1, None)),
            FileKind::Music,
        ),
        scanned("C:/in/album/cover.jpg", None, FileKind::Image),
    ];
    let items = draft_plan_items(files, "C:/out", &NamingRules::default());
    assert_eq!(items.len(), 2);
    assert_eq!(items[1].ordinal, 2);
    assert_eq!(items[1].action, PlanAction::Move);
    assert_eq!(items[1].risk, Risk::NoRisk);
    assert!(same(
        items[1].target.as_deref().unwrap(),
        "C:/out/Artist/Album/cover.jpg"
    ));

    // Music that stays where it is leaves no anchor for images.
    let files = vec![
        scanned("C:/in/album/01.mp3", None, FileKind::Music),
        scanned("C:/in/album/cover.jpg", None, FileKind::Image),
    ];
    let items = draft_plan_items(files, "C:/out", &NamingRules::default());
    assert_eq!(items[0].action, PlanAction::Skip);
    assert_eq!(items[1].action, PlanAction::Skip);
    assert_eq!(items[1].risk, Risk::MetadataMissing);
    assert_eq!(items[1].reason.as_deref(), Some("companion_without_music"));
}

#[test]
fn image_between_two_albums_is_an_ambiguous_conflict() {
    let files = vec![
        scanned(
            "C:/in/mix/a.mp3",
            Some(tags("Artist", "Album A", "One", 1, None)),
            FileKind::Music,
        ),
        scanned(
            "C:/in/mix/b.mp3",
            Some(tags("Artist", "Album B", "Two", 1, None)),
            FileKind::Music,
        ),
        scanned("C:/in/mix/cover.jpg", None, FileKind::Image),
    ];
    let items = draft_plan_items(files, "C:/out", &NamingRules::default());
    assert_eq!(items[2].risk, Risk::Conflict);
    assert_eq!(items[2].reason.as_deref(), Some("companion_target_ambiguous"));
    assert!(items[2].conflict_group_id.is_some());
    assert_eq!(items[2].conflict_candidates.len(), 2);
    assert!(items[2].target.is_none());
}

#[test]
fn disc_folders_of_one_album_collapse_for_an_image() {
    let files = vec![
        scanned(
            "C:/in/box/d1.mp3",
            Some(tags("Artist", "Album", "One", 1, Some(1))),
            FileKind::Music,
        ),
        scanned(
            "C:/in/box/d2.mp3",
            Some(tags("Artist", "Album", "Two", 1, Some(2))),
            FileKind::Music,
        ),
        scanned("C:/in/box/cover.jpg", None, FileKind::Image),
    ];
    let items = draft_plan_items(files, "C:/out", &NamingRules::default());
    assert_eq!(items[2].action, PlanAction::Move);
    assert!(same(
        items[2].target.as_deref().unwrap(),
        "C:/out/Artist/Album/cover.jpg"
    ));
}

fn moving(ordinal: u64, source: &str, target: &str, kind: FileKind, meta: Option<TrackMetadata>) -> PlanItem {
    PlanItem {
        id: ordinal as u128,
        conflict_group_id: None,
        ordinal,
        file: scanned(source, meta, kind),
        target: Some(target.into()),
        action: PlanAction::Move,
        risk: Risk::NoRisk,
        reason: None,
        conflict_candidates: Vec::new(),
    }
}

#[test]
fn sequence_strategy_numbers_later_duplicates() {
    let mut items = vec![
        moving(1, "C:/in/a.mp3", "C:/out/A/song.mp3", FileKind::Music, Some(tags("A", "B", "s", 1, None))),
        moving(2, "C:/in/b.mp3", "c:/OUT/a/SONG.mp3", FileKind::Music, Some(tags("A", "B", "s", 1, None))),
        moving(3, "C:/in/c.mp3", "C:/out/A/song.mp3", FileKind::Music, Some(tags("A", "B", "s", 1, None))),
    ];
    let naming = NamingRules {
        duplicate_strategy: DuplicateStrategy::Sequence,
        ..NamingRules::default()
    };
    assert_eq!(resolve_duplicate_targets(&mut items, &naming), Ok(()));
    assert!(same(items[0].target.as_deref().unwrap(), "C:/out/A/song.mp3"));
    assert!(same(items[1].target.as_deref().unwrap(), "c:/OUT/a/SONG_2.mp3"));
    assert!(same(items[2].target.as_deref().unwrap(), "C:/out/A/song_3.mp3"));
}

#[test]
fn template_strategy_renders_the_suffix_and_needs_tags() {
    let naming = NamingRules {
        duplicate_strategy: DuplicateStrategy::Template,
        duplicate_suffix_template: " ({album})".into(),
        ..NamingRules::default()
    };
    let mut items = vec![
        moving(1, "C:/in/a.mp3", "C:/out/x.mp3", FileKind::Music, Some(tags("A", "First", "s", 1, None))),
        moving(2, "C:/in/b.mp3", "C:/out/x.mp3", FileKind::Music, Some(tags("A", "Second", "s", 1, None))),
    ];
    assert_eq!(resolve_duplicate_targets(&mut items, &naming), Ok(()));
    assert!(same(items[1].target.as_deref().unwrap(), "C:/out/x (Second).mp3"));

    let mut untagged = vec![
        moving(1, "C:/in/a.mp3", "C:/out/x.mp3", FileKind::Music, None),
        moving(2, "C:/in/b.mp3", "C:/out/x.mp3", FileKind::Music, None),
    ];
    assert_eq!(resolve_duplicate_targets(&mut untagged, &naming), Err(1));
}

#[test]
fn skip_strategy_leaves_duplicates_to_the_conflict_check() {
    let naming = NamingRules {
        duplicate_strategy: DuplicateStrategy::Skip,
        ..NamingRules::default()
    };
    let mut items = vec![
        moving(1, "C:/in/a.mp3", "C:/out/x.mp3", FileKind::Music, Some(tags("A", "B", "s", 1, None))),
        moving(2, "C:/in/b.mp3", "C:/OUT/X.mp3.", FileKind::Music, Some(tags("A", "B", "s", 1, None))),
        moving(3, "C:/in/c.mp3", "C:/out/other.mp3", FileKind::Music, Some(tags("A", "B", "s", 1, None))),
        moving(4, "C:/in/d.jpg", "C:/out/x.mp3", FileKind::Image, None),
    ];
    assert_eq!(resolve_duplicate_targets(&mut items, &naming), Ok(()));
    // The image is renamed even under `Skip`.
    assert!(same(items[3].target.as_deref().unwrap(), "C:/out/x_3.mp3"));
    mark_target_conflicts(&mut items);
    assert_eq!(items[0].risk, Risk::Conflict);
    assert_eq!(items[1].risk, Risk::Conflict);
    assert_eq!(items[0].action, PlanAction::Skip);
    assert_eq!(items[0].reason.as_deref(), Some("target_conflict"));
    assert!(items[0].conflict_group_id.is_some());
    assert_eq!(items[0].conflict_group_id, items[1].conflict_group_id);
    assert_eq!(items[2].risk, Risk::NoRisk);
    assert_eq!(items[3].risk, Risk::NoRisk);
    assert_eq!(plan_counts(&items), (2, 2));
}

#[test]
fn naming_rules_are_checked_for_syntax_fields_and_blank_components() {
    assert!(validate_naming_rules(&NamingRules::default()).is_empty());
    let issues = validate_naming_rules(&NamingRules {
        artist_dir_template: "  ".into(),
        album_dir_template: "{album".into(),
        filename_template: "{genre}{extension}".into(),
        disc_dir_template: "[[{disc_no}]]".into(),
        ..NamingRules::default()
    });
    let codes: Vec<(&str, &str)> = issues
        .iter()
        .map(|i| (i.template.as_str(), i.code.as_str()))
        .collect();
    assert_eq!(
        codes,
        vec![
            ("artist_dir_template", "empty_component"),
            ("album_dir_template", "template_syntax"),
            ("disc_dir_template", "template_syntax"),
            ("filename_template", "unknown_field"),
        ]
    );
    let keep = validate_naming_rules(&NamingRules {
        filename_template: String::new(),
        use_source_filename: true,
        ..NamingRules::default()
    });
    assert!(keep.is_empty());
}

#[test]
fn scans_look_at_the_four_audio_formats_in_any_case() {
    for p in ["a.flac", "b.MP3", "c.m4a", "d.Ogg"] {
        assert!(is_music_path(p));
    }
    for p in ["a.wav", "cover.jpg", "noext"] {
        assert!(!is_music_path(p));
    }
}

#[test]
fn scans_take_in_music_and_companion_images() {
    for p in ["a/x.flac", "a/x.MP3", "a/cover.jpg", "a/folder.JPEG", "a/x.png", "a/x.webp", "a/x.gif", "a/x.bmp"] {
        assert!(is_scan_candidate_path(p));
    }
    for p in ["a/x.txt", "a/x", "a/x.wav", "a/.jpg.bak"] {
        assert!(!is_scan_candidate_path(p));
    }
}
