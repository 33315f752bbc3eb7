use music_folder::domain::{assess_windows_path, sanitize_component, DomainError, TrackMetadata};
use music_folder::path_policy::windows_path_key;
use music_folder::template::render_template;

#[test]
fn sanitizes_reserved_and_invalid_names() {
    assert_eq!(sanitize_component("CON"), "_CON");
    assert_eq!(sanitize_component("track?"), "track_");
}

#[test]
fn detects_long_path() {
    assert!(assess_windows_path(&"a".repeat(241)).is_err());
}

#[test]
fn renders_optional_numbered_template_with_album_artist_fallback() {
    let metadata = TrackMetadata {
        artist: Some("Artist".into()),
        album_artist: None,
        album: Some("Album".into()),
        title: Some("Song".into()),
        track_no: Some(3),
        disc_no: None,
        year: Some(2024),
    };
    assert_eq!(
        render_template(
            "{album_artist}/[{disc_no:02d}-]{track_no:02d}_{title}{extension}",
            &metadata,
            "source",
            ".mp3"
        ),
        "Artist/03_Song.mp3"
    );
}

#[test]
fn accepts_japanese_path_and_rejects_reserved_component() {
    assert!(assess_windows_path(r"C:\音楽\宇多田\曲.mp3").is_ok());
    assert_eq!(sanitize_component("CON"), "_CON");
}

#[test]
fn normalizes_windows_separators_case_and_trailing_dots() {
    assert_eq!(
        windows_path_key("C:/Music/Album./SONG.MP3"),
        windows_path_key("c:\\music\\album\\song.mp3")
    );
}

#[test]
fn path_of_exactly_the_limit_is_accepted_and_one_more_is_refused_with_counts() {
    assert!(assess_windows_path(&"a".repeat(240)).is_ok());
    match assess_windows_path(&"あ".repeat(241)) {
        Err(DomainError::PathTooLong { actual, limit }) => {
            assert_eq!(actual, 241);
            assert_eq!(limit, 240);
        }
        _ => panic!("expected a path-too-long error"),
    }
    match assess_windows_path("") {
        Err(DomainError::UnsafePath(code)) => assert_eq!(code, "empty_path"),
        _ => panic!("expected an empty-path error"),
    }
    assert!(assess_windows_path(&format!("C:/{}", "b".repeat(100))).is_ok());
}

#[test]
fn sanitizes_trailing_dots_spaces_and_reserved_stems() {
    assert_eq!(sanitize_component("曲?.mp3"), "曲_.mp3");
    assert_eq!(sanitize_component("name. . "), "name");
    assert_eq!(sanitize_component(" ..."), "_");
    assert_eq!(sanitize_component(""), "_");
    assert_eq!(sanitize_component("com1.txt"), "_com1.txt");
    assert_eq!(sanitize_component("Lpt9"), "_Lpt9");
    assert_eq!(sanitize_component("COM0"), "COM0");
    assert_eq!(sanitize_component("a<b>c:d\"e/f\\g|h?i*"), "a_b_c_d_e_f_g_h_i_");
    assert_eq!(sanitize_component("CONSOLE"), "CONSOLE");
}

#[test]
fn path_key_lowercases_each_component_and_keeps_empty_ones() {
    assert_eq!(windows_path_key("A//B. /C"), "a\\\\b\\c");
    assert_eq!(windows_path_key(""), "");
    assert_eq!(windows_path_key("ÄÖ"), "äö");
}

fn sample() -> TrackMetadata {
    TrackMetadata {
        artist: Some("Artist".into()),
        album_artist: Some("Band".into()),
        album: Some("Album".into()),
        title: None,
        track_no: Some(7),
        disc_no: Some(2),
        year: Some(-5),
    }
}

#[test]
fn template_tokens_blocks_and_number_formats() {
    let m = sample();
    assert_eq!(render_template("{title}{extension}", &m, "stem", ".flac"), "stem.flac");
    assert_eq!(render_template("{album_artist}", &m, "s", ""), "Band");
    assert_eq!(render_template("{track_no:03d}", &m, "s", ""), "007");
    assert_eq!(render_template("{track_no:3}", &m, "s", ""), "7");
    assert_eq!(render_template("{track_no:0+4dd}", &m, "s", ""), "0007");
    assert_eq!(render_template("{year}", &m, "s", ""), "-5");
    assert_eq!(render_template("{year:04d}", &m, "s", ""), "-5");
    assert_eq!(render_template("[{unknown}x]", &m, "s", ""), "");
    assert_eq!(render_template("[{disc_no}]-", &m, "s", ""), "2-");
    assert_eq!(render_template("{open", &m, "s", ""), "{open");
    assert_eq!(render_template("[no close", &m, "s", ""), "[no close");
    assert_eq!(render_template("{source_stem}|{nope}|", &m, "s", ""), "s||");
    assert_eq!(render_template("{album:02d}", &m, "s", ""), "Album");
}

#[test]
fn template_rescans_brackets_inserted_by_values() {
    let mut m = sample();
    m.title = Some("Song [Live]".into());
    assert_eq!(render_template("[{title}]", &m, "s", ""), "Song ");
    assert_eq!(render_template("{title}", &m, "s", ""), "Song [Live]");
}
