//! Planning one file: where a track goes under the naming rules, and what keeps it in place.

use vstd::prelude::*;
use crate::domain::{
    assess_windows_path, sanitize_component, sanitized, MetadataView, NamingRules,
    PlanAction, PlanItem, Risk, ScannedFile, TrackMetadata, MAX_PATH_CHARS,
};
use crate::ids::new_id;
use crate::paths::{
    extension_of, file_name_of, file_stem_of, join_path, parent_of, path_equal, path_extension,
    path_file_name, path_file_stem, path_joined, path_parent, same_path,
};
use crate::template::{render_template, rendered};
use crate::text::{
    append_chars, ascii_lowercase, ascii_lowercase_chars, chars_equal_str, chars_of, opt_chars,
    string_of, trim_space_dot, trim_space_dot_chars,
};

verus! {

/// The lower-cased extensions of the image files that travel with music.
pub open spec fn is_image_extension(e: Seq<char>) -> bool {
    ||| e == "jpg"@
    ||| e == "jpeg"@
    ||| e == "png"@
    ||| e == "webp"@
    ||| e == "gif"@
    ||| e == "bmp"@
}

/// A path names an image when its extension, lower-cased, is an image extension.
pub open spec fn image_path(p: Seq<char>) -> bool {
    match path_extension(p) {
        Some(e) => is_image_extension(ascii_lowercase(e)),
        None => false,
    }
}

/// Whether `path` names a companion image (`jpg`, `jpeg`, `png`, `webp`, `gif` or `bmp`,
/// in any ASCII case).
pub fn is_image_path(path: &str) -> (r: bool)
    ensures
        r == image_path(path@),
{
    match extension_of(path) {
        Some(e) => {
            let lower = ascii_lowercase_chars(&chars_of(e.as_str()));
            chars_equal_str(&lower, "jpg") || chars_equal_str(&lower, "jpeg") || chars_equal_str(
                &lower,
                "png",
            ) || chars_equal_str(&lower, "webp") || chars_equal_str(&lower, "gif")
                || chars_equal_str(&lower, "bmp")
        },
        None => false,
    }
}

/// A path names an audio file that scans look at: its extension, lower-cased, is `flac`,
/// `mp3`, `m4a` or `ogg`.
pub open spec fn music_path(p: Seq<char>) -> bool {
    match path_extension(p) {
        Some(e) => {
            let l = ascii_lowercase(e);
            l == "flac"@ || l == "mp3"@ || l == "m4a"@ || l == "ogg"@
        },
        None => false,
    }
}

/// Whether `path` names an audio file that scans look at (see `music_path`).
pub fn is_music_path(path: &str) -> (r: bool)
    ensures
        r == music_path(path@),
{
    match extension_of(path) {
        Some(e) => {
            let lower = ascii_lowercase_chars(&chars_of(e.as_str()));
            chars_equal_str(&lower, "flac") || chars_equal_str(&lower, "mp3") || chars_equal_str(
                &lower,
                "m4a",
            ) || chars_equal_str(&lower, "ogg")
        },
        None => false,
    }
}

/// A path that a scan takes in: music, or a companion image that travels with it.
pub open spec fn scan_candidate(p: Seq<char>) -> bool {
    music_path(p) || image_path(p)
}

/// Whether a scan takes in `path` (see `scan_candidate`).
pub fn is_scan_candidate_path(path: &str) -> (r: bool)
    ensures
        r == scan_candidate(path@),
{
    is_music_path(path) || is_image_path(path)
}

/// The file stem that templates see: the source's stem, or `_` when it has none.
pub open spec fn source_stem(p: Seq<char>) -> Seq<char> {
    match path_file_stem(p) {
        Some(s) => s,
        None => "_"@,
    }
}

/// The extension that templates see: `.` and the source's extension, or nothing.
pub open spec fn dotted_extension(p: Seq<char>) -> Seq<char> {
    match path_extension(p) {
        Some(e) => seq!['.'] + e,
        None => Seq::<char>::empty(),
    }
}

/// The source's file name, or `_` when it has none.
pub open spec fn source_file_name(p: Seq<char>) -> Seq<char> {
    match path_file_name(p) {
        Some(n) => n,
        None => "_"@,
    }
}

pub(crate) fn source_stem_of(path: &str) -> (r: String)
    ensures
        r@ == source_stem(path@),
{
    match file_stem_of(path) {
        Some(s) => s,
        None => String::from_str("_"),
    }
}

pub(crate) fn dotted_extension_of(path: &str) -> (r: String)
    ensures
        r@ == dotted_extension(path@),
{
    match extension_of(path) {
        Some(e) => {
            let mut v: Vec<char> = Vec::new();
            v.push('.');
            append_chars(&mut v, &chars_of(e.as_str()));
            assert(v@ =~= seq!['.'] + e@);
            string_of(&v)
        },
        None => String::new(),
    }
}

pub(crate) fn source_file_name_of(path: &str) -> (r: String)
    ensures
        r@ == source_file_name(path@),
{
    match file_name_of(path) {
        Some(n) => n,
        None => String::from_str("_"),
    }
}

/// Tags with no value at all.
pub open spec fn no_metadata() -> MetadataView {
    MetadataView {
        artist: None,
        album_artist: None,
        album: None,
        title: None,
        track_no: None,
        disc_no: None,
        year: None,
    }
}

/// The tags of a file, or no tags when they could not be read.
pub open spec fn metadata_view_of(m: Option<TrackMetadata>) -> MetadataView {
    match m {
        Some(t) => t@,
        None => no_metadata(),
    }
}

/// Neither an album artist nor an artist is known.
pub open spec fn artist_missing(m: MetadataView) -> bool {
    m.album_artist is None && m.artist is None
}

/// Why the tags of a file are not enough to name it: they could not be read at all, or the
/// artist, the album, or both are missing.
pub open spec fn missing_reason(meta: Option<TrackMetadata>) -> Option<Seq<char>> {
    match meta {
        None => Some("metadata_missing"@),
        Some(t) => {
            let m = t@;
            if artist_missing(m) && m.album is None {
                Some("artist_album_missing"@)
            } else if artist_missing(m) {
                Some("artist_missing"@)
            } else if m.album is None {
                Some("album_missing"@)
            } else {
                None
            }
        },
    }
}

/// The tags with `Unknown Artist` for a missing artist (and album artist) and `Unknown Album`
/// for a missing album.
pub open spec fn with_fallbacks(m: MetadataView) -> MetadataView {
    MetadataView {
        artist: if artist_missing(m) {
            Some("Unknown Artist"@)
        } else {
            m.artist
        },
        album_artist: if artist_missing(m) {
            Some("Unknown Artist"@)
        } else {
            m.album_artist
        },
        album: if m.album is None {
            Some("Unknown Album"@)
        } else {
            m.album
        },
        title: m.title,
        track_no: m.track_no,
        disc_no: m.disc_no,
        year: m.year,
    }
}

/// The target of a track: the target root joined with the sanitized artist and album
/// directories, the disc directory (trimmed of spaces and full stops at both ends) and the
/// sanitized file name, which is the rendered file name template or, when `keep_file_name`,
/// the source's own file name.
pub open spec fn music_target(
    root: Seq<char>,
    source: Seq<char>,
    m: MetadataView,
    naming: NamingRules,
    keep_file_name: bool,
) -> Seq<char> {
    let stem = source_stem(source);
    let ext = dotted_extension(source);
    let file_name = if keep_file_name {
        source_file_name(source)
    } else {
        rendered(naming.filename_template@, m, stem, ext)
    };
    let artist_dir = sanitized(rendered(naming.artist_dir_template@, m, stem, ext));
    let album_dir = sanitized(rendered(naming.album_dir_template@, m, stem, ext));
    let disc_dir = trim_space_dot(rendered(naming.disc_dir_template@, m, stem, ext));
    path_joined(
        path_joined(path_joined(path_joined(root, artist_dir), album_dir), disc_dir),
        sanitized(file_name),
    )
}

/// The reason code of a target that the path policy refuses.
pub open spec fn path_policy_reason(target: Seq<char>) -> Seq<char> {
    if target.len() == 0 {
        "empty_path"@
    } else {
        "path_too_long"@
    }
}

/// The target, action, risk and reason that the plan records for an item.
pub open spec fn plan_view(item: PlanItem) -> (Option<Seq<char>>, PlanAction, Risk, Option<Seq<char>>) {
    (opt_chars(item.target), item.action, item.risk, opt_chars(item.reason))
}

/// What the plan decides for a music file: with missing tags it is skipped (unless missing
/// tags are allowed, in which case the fallbacks name it and it moves at risk); a target
/// equal to the source is skipped as invalid; a target the path policy refuses is skipped as
/// too long; anything else moves.
pub open spec fn music_plan(file: ScannedFile, root: Seq<char>, naming: NamingRules) -> (
    Option<Seq<char>>,
    PlanAction,
    Risk,
    Option<Seq<char>>,
) {
    let reason = missing_reason(file.metadata);
    if reason is Some && !naming.allow_missing_metadata {
        (None, PlanAction::Skip, Risk::MetadataMissing, reason)
    } else {
        let target = music_target(
            root,
            file.path@,
            with_fallbacks(metadata_view_of(file.metadata)),
            naming,
            naming.use_source_filename || file.metadata is None,
        );
        if path_equal(target, file.path@) {
            (Some(target), PlanAction::Skip, Risk::InvalidTarget, Some("source_equals_target"@))
        } else if !(0 < target.len() <= MAX_PATH_CHARS) {
            (Some(target), PlanAction::Skip, Risk::PathTooLong, Some(path_policy_reason(target)))
        } else {
            (
                Some(target),
                PlanAction::Move,
                if reason is Some {
                    Risk::MetadataMissing
                } else {
                    Risk::NoRisk
                },
                reason,
            )
        }
    }
}

/// The tags of a track are reported missing exactly when they could not be read, when it
/// has neither an album artist nor an artist, or when it has no album. An album artist
/// alone is enough.
pub proof fn law_missing_tags(meta: Option<TrackMetadata>)
    ensures
        missing_reason(meta) is None <==> (meta matches Some(t) && (t@.album_artist is Some
            || t@.artist is Some) && t@.album is Some),
{
}

/// The tags of a track that has an album artist (or an artist) and an album are used as
/// they are: no `Unknown Artist` or `Unknown Album` stands in for them.
pub proof fn law_present_tags_are_kept(m: MetadataView)
    requires
        m.album_artist is Some || m.artist is Some,
        m.album is Some,
    ensures
        with_fallbacks(m) == m,
{
}

/// A track whose tags carry an album artist (or an artist) and an album is never skipped or
/// flagged for missing tags; when it moves, it moves with no risk and no reason.
pub proof fn law_tagged_track_is_planned_normally(file: ScannedFile, root: Seq<char>, naming: NamingRules)
    requires
        file.metadata matches Some(t) && (t@.album_artist is Some || t@.artist is Some)
            && t@.album is Some,
    ensures
        music_plan(file, root, naming).2 != Risk::MetadataMissing,
        music_plan(file, root, naming).1 == PlanAction::Move ==> music_plan(file, root, naming).2
            == Risk::NoRisk && music_plan(file, root, naming).3 is None,
{
    law_missing_tags(file.metadata);
}

fn clone_text(s: &Option<String>) -> (r: Option<String>)
    ensures
        opt_chars(r) == opt_chars(*s),
{
    match s {
        Some(t) => Some(t.clone()),
        None => None,
    }
}

/// A copy of the tags.
pub fn copy_metadata(m: &TrackMetadata) -> (r: TrackMetadata)
    ensures
        r@ == m@,
{
    TrackMetadata {
        artist: clone_text(&m.artist),
        album_artist: clone_text(&m.album_artist),
        album: clone_text(&m.album),
        title: clone_text(&m.title),
        track_no: m.track_no,
        disc_no: m.disc_no,
        year: m.year,
    }
}

/// A plan item that leaves `file` where it is, with the given risk and reason.
pub fn skipped_plan_item(ordinal: u64, file: ScannedFile, risk: Risk, reason: &str) -> (r: PlanItem)
    ensures
        r.ordinal == ordinal,
        r.file == file,
        r.conflict_group_id is None,
        r.conflict_candidates@.len() == 0,
        plan_view(r) == (None::<Seq<char>>, PlanAction::Skip, risk, Some(reason@)),
{
    PlanItem {
        id: new_id(),
        conflict_group_id: None,
        ordinal,
        file,
        target: None,
        action: PlanAction::Skip,
        risk,
        reason: Some(String::from_str(reason)),
        conflict_candidates: Vec::new(),
    }
}

/// Plans one music file under the naming rules (see `music_plan`).
pub fn make_plan_item(
    ordinal: u64,
    file: ScannedFile,
    target_root: &str,
    naming: &NamingRules,
) -> (r: PlanItem)
    ensures
        r.ordinal == ordinal,
        r.file == file,
        r.conflict_group_id is None,
        r.conflict_candidates@.len() == 0,
        plan_view(r) == music_plan(file, target_root@, *naming),
{
    let metadata_unreadable = file.metadata.is_none();
    let mut metadata = match &file.metadata {
        Some(m) => copy_metadata(m),
        None => TrackMetadata {
            artist: None,
            album_artist: None,
            album: None,
            title: None,
            track_no: None,
            disc_no: None,
            year: None,
        },
    };
    assert(metadata@ == metadata_view_of(file.metadata));
    let artist_missing = metadata.album_artist.is_none() && metadata.artist.is_none();
    let album_missing = metadata.album.is_none();
    let missing: Option<&str> = if metadata_unreadable {
        Some("metadata_missing")
    } else if artist_missing && album_missing {
        Some("artist_album_missing")
    } else if artist_missing {
        Some("artist_missing")
    } else if album_missing {
        Some("album_missing")
    } else {
        None
    };
    let ghost reason_spec = missing_reason(file.metadata);
    assert(match missing {
        Some(m) => reason_spec == Some(m@),
        None => reason_spec is None,
    });
    if missing.is_some() && !naming.allow_missing_metadata {
        let reason = match missing {
            Some(m) => m,
            None => "",
        };
        return skipped_plan_item(ordinal, file, Risk::MetadataMissing, reason);
    }
    if artist_missing {
        metadata.artist = Some(String::from_str("Unknown Artist"));
        metadata.album_artist = Some(String::from_str("Unknown Artist"));
    }
    if album_missing {
        metadata.album = Some(String::from_str("Unknown Album"));
    }
    assert(metadata@ == with_fallbacks(metadata_view_of(file.metadata)));
    let stem = source_stem_of(file.path.as_str());
    let ext = dotted_extension_of(file.path.as_str());
    let keep_file_name = naming.use_source_filename || metadata_unreadable;
    let file_name = if keep_file_name {
        source_file_name_of(file.path.as_str())
    } else {
        render_template(naming.filename_template.as_str(), &metadata, stem.as_str(), ext.as_str())
    };
    let artist_dir = sanitize_component(
        render_template(
            naming.artist_dir_template.as_str(),
            &metadata,
            stem.as_str(),
            ext.as_str(),
        ).as_str(),
    );
    let album_dir = sanitize_component(
        render_template(
            naming.album_dir_template.as_str(),
            &metadata,
            stem.as_str(),
            ext.as_str(),
        ).as_str(),
    );
    let disc = render_template(
        naming.disc_dir_template.as_str(),
        &metadata,
        stem.as_str(),
        ext.as_str(),
    );
    let disc_dir = string_of(&trim_space_dot_chars(&chars_of(disc.as_str())));
    let base = join_path(target_root, artist_dir.as_str());
    let base = join_path(base.as_str(), album_dir.as_str());
    let base = join_path(base.as_str(), disc_dir.as_str());
    let target = join_path(base.as_str(), sanitize_component(file_name.as_str()).as_str());
    assert(target@ == music_target(
        target_root@,
        file.path@,
        metadata@,
        *naming,
        keep_file_name,
    ));
    let (action, risk, reason) = if same_path(target.as_str(), file.path.as_str()) {
        (PlanAction::Skip, Risk::InvalidTarget, Some(String::from_str("source_equals_target")))
    } else {
        match assess_windows_path(target.as_str()) {
            Err(error) => (PlanAction::Skip, Risk::PathTooLong, Some(error.reason_code())),
            Ok(()) => {
                let risk = if missing.is_some() {
                    Risk::MetadataMissing
                } else {
                    Risk::NoRisk
                };
                let reason = match missing {
                    Some(m) => Some(String::from_str(m)),
                    None => None,
                };
                (PlanAction::Move, risk, reason)
            },
        }
    };
    PlanItem {
        id: new_id(),
        conflict_group_id: None,
        ordinal,
        file,
        target: Some(target),
        action,
        risk,
        reason,
        conflict_candidates: Vec::new(),
    }
}

/// The album directory that a disc directory proves: when the file's tags render the disc
/// template (trimmed of spaces and full stops) to a non-empty name that is exactly the last
/// component of `dir`, the parent of `dir`; otherwise nothing.
pub open spec fn disc_parent(dir: Seq<char>, file: ScannedFile, naming: NamingRules) -> Option<Seq<char>> {
    match file.metadata {
        None => None,
        Some(t) => {
            let d = trim_space_dot(
                rendered(
                    naming.disc_dir_template@,
                    t@,
                    source_stem(file.path@),
                    dotted_extension(file.path@),
                ),
            );
            if d.len() == 0 || path_file_name(dir) != Some(d) {
                None
            } else {
                path_parent(dir)
            }
        },
    }
}

/// The album directory above the disc directory `target_directory` of a music item, when
/// the item's own disc component proves it (see `disc_parent`).
pub fn disc_parent_for_music_item(
    target_directory: &str,
    file: &ScannedFile,
    naming: &NamingRules,
) -> (r: Option<String>)
    ensures
        opt_chars(r) == disc_parent(target_directory@, *file, *naming),
{
    let metadata = match &file.metadata {
        Some(m) => m,
        None => return None,
    };
    let stem = source_stem_of(file.path.as_str());
    let ext = dotted_extension_of(file.path.as_str());
    let disc = render_template(
        naming.disc_dir_template.as_str(),
        metadata,
        stem.as_str(),
        ext.as_str(),
    );
    let component = trim_space_dot_chars(&chars_of(disc.as_str()));
    if component.len() == 0 {
        return None;
    }
    let name_matches = match file_name_of(target_directory) {
        Some(name) => chars_equal_str(&component, name.as_str()),
        None => false,
    };
    if !name_matches {
        return None;
    }
    parent_of(target_directory)
}

} // verus!
