//! Domain values of the workflow and the Windows naming rules for path components.

use vstd::prelude::*;
use crate::text::{
    append_chars, ascii_upper, ascii_upper_char, chars_of, find_from, first_pos, is_space_or_dot,
    opt_chars, string_of, sub_chars, trim_end_space_dot, trimmed_end_len,
};

verus! {

/// State of a scan, plan, execution, verify or rollback run.
#[derive(Debug, Clone, Copy, PartialEq, Eq, Structural)]
pub enum RunStatus {
    Running,
    Completed,
    Failed,
    Cancelled,
    Partial,
}

/// What a plan item asks the apply step to do.
#[derive(Debug, Clone, Copy, PartialEq, Eq, Structural)]
pub enum PlanAction {
    Move,
    Skip,
}

/// Why a plan item needs attention.
#[derive(Debug, Clone, Copy, PartialEq, Eq, Structural)]
pub enum Risk {
    /// Nothing stands in the way of the move.
    NoRisk,
    InvalidTarget,
    PathTooLong,
    Conflict,
    MetadataMissing,
}

/// Size and modification time that identify an unchanged file.
#[derive(Debug, Clone, Copy, PartialEq, Eq, Structural)]
pub struct FileFingerprint {
    pub size_bytes: u64,
    pub mtime_ns: i128,
}

/// Tags read from an audio file.
#[derive(Debug, Clone)]
pub struct TrackMetadata {
    pub artist: Option<String>,
    pub album_artist: Option<String>,
    pub album: Option<String>,
    pub title: Option<String>,
    pub track_no: Option<u32>,
    pub disc_no: Option<u32>,
    pub year: Option<i32>,
}

/// The tags of a track as the naming rules see them.
pub ghost struct MetadataView {
    pub artist: Option<Seq<char>>,
    pub album_artist: Option<Seq<char>>,
    pub album: Option<Seq<char>>,
    pub title: Option<Seq<char>>,
    pub track_no: Option<u32>,
    pub disc_no: Option<u32>,
    pub year: Option<i32>,
}

impl View for TrackMetadata {
    type V = MetadataView;

    open spec fn view(&self) -> MetadataView {
        MetadataView {
            artist: opt_chars(self.artist),
            album_artist: opt_chars(self.album_artist),
            album: opt_chars(self.album),
            title: opt_chars(self.title),
            track_no: self.track_no,
            disc_no: self.disc_no,
            year: self.year,
        }
    }
}

/// Audio files are organized by their tags; images follow the music of their folder.
#[derive(Debug, Clone, Copy, PartialEq, Eq, Structural)]
pub enum FileKind {
    Music,
    Image,
}

/// One file found by a scan. Paths are held as text; ids are 128-bit UUID values.
#[derive(Debug, Clone)]
pub struct ScannedFile {
    pub id: u128,
    pub path: String,
    pub fingerprint: FileFingerprint,
    pub metadata: Option<TrackMetadata>,
    pub kind: FileKind,
}

/// How a plan resolves music items that would land on the same target.
#[derive(Debug, Clone, Copy, PartialEq, Eq, Structural)]
pub enum DuplicateStrategy {
    /// A suffix template is used when one is set; otherwise duplicates are skipped.
    Legacy,
    /// Duplicates are skipped and reported as conflicts.
    Skip,
    /// Duplicates get a stable `_2`, `_3`, ... suffix.
    Sequence,
    /// Duplicates get the rendered suffix template (or a sequence number when it is empty).
    Template,
}

/// Templates and switches that decide the target of each file.
#[derive(Debug, Clone)]
pub struct NamingRules {
    pub artist_dir_template: String,
    pub album_dir_template: String,
    pub disc_dir_template: String,
    pub filename_template: String,
    pub duplicate_suffix_template: String,
    pub use_source_filename: bool,
    pub use_source_image_filename: bool,
    pub duplicate_strategy: DuplicateStrategy,
    pub allow_missing_metadata: bool,
}

impl Default for NamingRules {
    /// Album-artist and album directories, a two-digit disc directory when the disc number
    /// is known, and `NN_title.ext` file names; duplicates handled the legacy way, items
    /// with missing metadata skipped.
    fn default() -> (r: Self)
        ensures
            r.artist_dir_template@ == "{album_artist}"@,
            r.album_dir_template@ == "{album}"@,
            r.disc_dir_template@ == "[{disc_no:02d}]"@,
            r.filename_template@ == "[{track_no:02d}_]{title}{extension}"@,
            r.duplicate_suffix_template@ == ""@,
            !r.use_source_filename,
            !r.use_source_image_filename,
            r.duplicate_strategy == DuplicateStrategy::Legacy,
            !r.allow_missing_metadata,
    {
        NamingRules {
            artist_dir_template: String::from_str("{album_artist}"),
            album_dir_template: String::from_str("{album}"),
            disc_dir_template: String::from_str("[{disc_no:02d}]"),
            filename_template: String::from_str("[{track_no:02d}_]{title}{extension}"),
            duplicate_suffix_template: String::from_str(""),
            use_source_filename: false,
            use_source_image_filename: false,
            duplicate_strategy: DuplicateStrategy::Legacy,
            allow_missing_metadata: false,
        }
    }
}

/// One candidate directory for an image whose destination is ambiguous.
#[derive(Debug, Clone)]
pub struct PlanConflictCandidate {
    pub target_directory: String,
    pub music_item_ids: Vec<u128>,
}

/// A candidate directory as the plan records it: the directory and the music item ids.
pub ghost struct CandidateView {
    pub dir: Seq<char>,
    pub ids: Seq<u128>,
}

impl View for PlanConflictCandidate {
    type V = CandidateView;

    open spec fn view(&self) -> CandidateView {
        CandidateView { dir: self.target_directory@, ids: self.music_item_ids@ }
    }
}

/// One row of a plan.
#[derive(Debug, Clone)]
pub struct PlanItem {
    pub id: u128,
    pub conflict_group_id: Option<u128>,
    pub ordinal: u64,
    pub file: ScannedFile,
    pub target: Option<String>,
    pub action: PlanAction,
    pub risk: Risk,
    pub reason: Option<String>,
    pub conflict_candidates: Vec<PlanConflictCandidate>,
}

/// A persisted plan item as the apply step reads it.
#[derive(Debug, Clone)]
pub struct ApplyItem {
    pub plan_item_id: String,
    pub ordinal: u64,
    pub source: String,
    pub target: Option<String>,
    pub action: PlanAction,
    pub risk: Risk,
    pub reason: Option<String>,
}

/// One logged apply operation.
#[derive(Debug, Clone)]
pub struct OperationLog {
    pub plan_item_id: String,
    pub sequence_no: u64,
    pub source: String,
    pub target: Option<String>,
    pub action: crate::execution::OperationAction,
    pub result: crate::execution::OperationResult,
    pub error: Option<String>,
    pub source_deleted: bool,
    pub expected_size: Option<u64>,
}

/// A logged operation as verify and rollback read it.
#[derive(Debug, Clone)]
pub struct VerifyItem {
    pub operation_id: String,
    pub sequence_no: u64,
    pub source: String,
    pub target: Option<String>,
    pub action: crate::execution::OperationAction,
    pub expected_size: Option<u64>,
}

/// Errors of the domain rules.
#[derive(Debug, Clone)]
pub enum DomainError {
    /// The target path is unusable; the text is a reason code.
    UnsafePath(String),
    /// The whole path has `actual` characters, more than `limit`.
    PathTooLong { actual: u64, limit: u64 },
    PlanNotApplicable,
    SamePath,
}

/// The longest target path, in characters, that the path policy accepts.
pub const MAX_PATH_CHARS: u64 = 240;

/// The characters that a Windows path component cannot hold.
pub open spec fn is_invalid_windows_char(c: char) -> bool {
    c == '<' || c == '>' || c == ':' || c == '"' || c == '/' || c == '\\' || c == '|' || c == '?'
        || c == '*'
}

/// Device names that Windows reserves, compared upper-cased.
pub open spec fn is_reserved_name(s: Seq<char>) -> bool {
    ||| s =~= seq!['C', 'O', 'N']
    ||| s =~= seq!['P', 'R', 'N']
    ||| s =~= seq!['A', 'U', 'X']
    ||| s =~= seq!['N', 'U', 'L']
    ||| (s.len() == 4 && ((s[0] == 'C' && s[1] == 'O' && s[2] == 'M') || (s[0] == 'L' && s[1]
        == 'P' && s[2] == 'T')) && '1' <= s[3] <= '9')
}

/// `s` up to (not including) its first full stop.
pub open spec fn before_first_dot(s: Seq<char>) -> Seq<char> {
    match first_pos(s, '.') {
        Some(i) => s.take(i),
        None => s,
    }
}

/// The component that `sanitize_component` makes of `value`: invalid characters become `_`,
/// trailing spaces and full stops are dropped, an empty result becomes `_`, and a name whose
/// part before the first full stop is a reserved device name (in any ASCII case) gets a
/// leading `_`.
pub open spec fn sanitized(value: Seq<char>) -> Seq<char> {
    let mapped = value.map_values(|c: char| if is_invalid_windows_char(c) { '_' } else { c });
    let trimmed = trim_end_space_dot(mapped);
    let nonempty = if trimmed.len() == 0 { seq!['_'] } else { trimmed };
    if is_reserved_name(before_first_dot(nonempty).map_values(|c: char| ascii_upper(c))) {
        seq!['_'] + nonempty
    } else {
        nonempty
    }
}

fn is_invalid_windows_char_exec(c: char) -> (r: bool)
    ensures
        r == is_invalid_windows_char(c),
{
    c == '<' || c == '>' || c == ':' || c == '"' || c == '/' || c == '\\' || c == '|' || c == '?'
        || c == '*'
}

fn is_reserved_name_exec(s: &Vec<char>) -> (r: bool)
    ensures
        r == is_reserved_name(s@),
{
    if s.len() == 3 {
        let (a, b, c) = (s[0], s[1], s[2]);
        let r = (a == 'C' && b == 'O' && c == 'N') || (a == 'P' && b == 'R' && c == 'N') || (a
            == 'A' && b == 'U' && c == 'X') || (a == 'N' && b == 'U' && c == 'L');
        assert(s@[0] == a && s@[1] == b && s@[2] == c);
        assert(r == is_reserved_name(s@)) by {
            if !r {
                if s@ =~= seq!['C', 'O', 'N'] || s@ =~= seq!['P', 'R', 'N'] || s@ =~= seq![
                    'A',
                    'U',
                    'X',
                ] || s@ =~= seq!['N', 'U', 'L'] {
                    assert(false);
                }
            }
        }
        r
    } else if s.len() == 4 {
        let (a, b, c, d) = (s[0], s[1], s[2], s[3]);
        ((a == 'C' && b == 'O' && c == 'M') || (a == 'L' && b == 'P' && c == 'T')) && '1' <= d
            && d <= '9'
    } else {
        false
    }
}

/// Makes `value` safe as one Windows path component.
pub fn sanitize_component(value: &str) -> (r: String)
    ensures
        r@ == sanitized(value@),
{
    let chars = chars_of(value);
    let ghost mapped_spec = value@.map_values(
        |c: char|
            if is_invalid_windows_char(c) {
                '_'
            } else {
                c
            },
    );
    let mut mapped: Vec<char> = Vec::new();
    let mut i: usize = 0;
    while i < chars.len()
        invariant
            i <= chars.len(),
            chars@ == value@,
            mapped_spec == value@.map_values(
                |c: char|
                    if is_invalid_windows_char(c) {
                        '_'
                    } else {
                        c
                    },
            ),
            mapped@ == mapped_spec.take(i as int),
        decreases chars.len() - i,
    {
        let c = chars[i];
        let m = if is_invalid_windows_char_exec(c) {
            '_'
        } else {
            c
        };
        mapped.push(m);
        i += 1;
        assert(mapped_spec.take(i as int) =~= mapped_spec.take((i - 1) as int).push(m));
    }
    assert(mapped_spec.take(i as int) == mapped_spec);
    let keep = trimmed_end_len(&mapped);
    let mut value_chars = sub_chars(&mapped, 0, keep);
    assert(value_chars@ == mapped@.take(keep as int));
    if value_chars.len() == 0 {
        value_chars.push('_');
        assert(value_chars@ =~= seq!['_']);
    }
    let ghost nonempty = value_chars@;
    assert(value_chars@.skip(0) == value_chars@);
    let stem_end = match find_from(&value_chars, 0, '.') {
        Some(p) => {
            proof {
                crate::text::lemma_first_pos(value_chars@, '.', p as int);
            }
            p
        },
        None => value_chars.len(),
    };
    let mut upper: Vec<char> = Vec::new();
    let mut j: usize = 0;
    while j < stem_end
        invariant
            j <= stem_end <= value_chars.len(),
            upper@ == value_chars@.take(stem_end as int).take(j as int).map_values(
                |c: char| ascii_upper(c),
            ),
        decreases stem_end - j,
    {
        upper.push(ascii_upper_char(value_chars[j]));
        j += 1;
        assert(value_chars@.take(stem_end as int).take(j as int).map_values(
            |c: char| ascii_upper(c),
        ) =~= value_chars@.take(stem_end as int).take((j - 1) as int).map_values(
            |c: char| ascii_upper(c),
        ).push(ascii_upper(value_chars@[j - 1])));
    }
    assert(value_chars@.take(stem_end as int).take(stem_end as int) == value_chars@.take(
        stem_end as int,
    ));
    assert(before_first_dot(nonempty) == value_chars@.take(stem_end as int));
    if is_reserved_name_exec(&upper) {
        let mut prefixed: Vec<char> = Vec::new();
        prefixed.push('_');
        append_chars(&mut prefixed, &value_chars);
        assert(prefixed@ =~= seq!['_'] + nonempty);
        string_of(&prefixed)
    } else {
        string_of(&value_chars)
    }
}

proof fn lemma_trim_end_prefix(s: Seq<char>)
    ensures
        trim_end_space_dot(s).len() <= s.len(),
        trim_end_space_dot(s) =~= s.take(trim_end_space_dot(s).len() as int),
        trim_end_space_dot(s).len() > 0 ==> !is_space_or_dot(trim_end_space_dot(s).last()),
    decreases s.len(),
{
    if s.len() > 0 && is_space_or_dot(s.last()) {
        lemma_trim_end_prefix(s.drop_last());
        assert(trim_end_space_dot(s) == trim_end_space_dot(s.drop_last()));
    }
}

/// A component is safe on Windows: not empty, free of the characters Windows refuses, not
/// ending in a space or full stop, and not a reserved device name before its first full
/// stop (in any ASCII case).
pub open spec fn safe_component(c: Seq<char>) -> bool {
    &&& c.len() > 0
    &&& forall|i: int| 0 <= i < c.len() ==> !is_invalid_windows_char(#[trigger] c[i])
    &&& !is_space_or_dot(c.last())
    &&& !is_reserved_name(before_first_dot(c).map_values(|ch: char| ascii_upper(ch)))
}

/// Whatever text it is given, `sanitize_component` makes a safe component.
pub proof fn law_sanitized_is_safe(value: Seq<char>)
    ensures
        safe_component(sanitized(value)),
{
    let mapped = value.map_values(|c: char| if is_invalid_windows_char(c) { '_' } else { c });
    let trimmed = trim_end_space_dot(mapped);
    lemma_trim_end_prefix(mapped);
    let nonempty = if trimmed.len() == 0 { seq!['_'] } else { trimmed };
    assert forall|i: int| 0 <= i < nonempty.len() implies !is_invalid_windows_char(
        #[trigger] nonempty[i],
    ) by {
        if trimmed.len() > 0 {
            assert(nonempty[i] == mapped[i]);
        }
    }
    let upper = before_first_dot(nonempty).map_values(|c: char| ascii_upper(c));
    if is_reserved_name(upper) {
        let r = seq!['_'] + nonempty;
        assert(r.last() == nonempty.last());
        assert forall|i: int| 0 <= i < r.len() implies !is_invalid_windows_char(#[trigger] r[i]) by {
            if i > 0 {
                assert(r[i] == nonempty[i - 1]);
            }
        }
        let b = before_first_dot(r);
        assert(r[0] == '_');
        match first_pos(r, '.') {
            Some(k) => {
                crate::text::lemma_first_exists(r, '.');
                assert(crate::text::is_first(r, '.', k));
                assert(k > 0);
                assert(b[0] == '_');
            },
            None => {
                assert(b[0] == '_');
            },
        }
        assert(b.len() > 0);
        assert(b.map_values(|c: char| ascii_upper(c))[0] == '_');
    }
}

/// Sanitizing a sanitized component changes nothing.
pub proof fn law_sanitize_is_idempotent(value: Seq<char>)
    ensures
        sanitized(sanitized(value)) == sanitized(value),
{
    let r = sanitized(value);
    law_sanitized_is_safe(value);
    let mapped = r.map_values(|c: char| if is_invalid_windows_char(c) { '_' } else { c });
    assert(mapped =~= r);
    assert(trim_end_space_dot(r) == r);
}

/// The reason code that the plan records for a domain error.
pub open spec fn reason_code_of(e: DomainError) -> Seq<char> {
    match e {
        DomainError::UnsafePath(code) => code@,
        DomainError::PathTooLong { .. } => "path_too_long"@,
        DomainError::PlanNotApplicable => "plan_not_applicable"@,
        DomainError::SamePath => "same_path"@,
    }
}

impl DomainError {
    /// The reason code that the plan records for this error.
    pub fn reason_code(&self) -> (r: String)
        ensures
            r@ == reason_code_of(*self),
    {
        match self {
            DomainError::UnsafePath(code) => code.clone(),
            DomainError::PathTooLong { .. } => String::from_str("path_too_long"),
            DomainError::PlanNotApplicable => String::from_str("plan_not_applicable"),
            DomainError::SamePath => String::from_str("same_path"),
        }
    }
}

/// Applies the Windows path policy to a target path: an empty path is refused with the
/// code `empty_path`; a path of more than `MAX_PATH_CHARS` characters is refused with its
/// length and the limit (a path of exactly that length is accepted, and single components
/// have no limit of their own); every other path is accepted.
pub fn assess_windows_path(path: &str) -> (r: Result<(), DomainError>)
    ensures
        match r {
            Ok(()) => 0 < path@.len() <= MAX_PATH_CHARS,
            Err(DomainError::UnsafePath(code)) => path@.len() == 0 && code@ == "empty_path"@,
            Err(DomainError::PathTooLong { actual, limit }) => path@.len() > MAX_PATH_CHARS
                && actual == path@.len() && limit == MAX_PATH_CHARS,
            Err(_) => false,
        },
{
    let chars = chars_of(path);
    let n = chars.len() as u64;
    if n == 0 {
        return Err(DomainError::UnsafePath(String::from_str("empty_path")));
    }
    if n > MAX_PATH_CHARS {
        return Err(DomainError::PathTooLong { actual: n, limit: MAX_PATH_CHARS });
    }
    Ok(())
}

} // verus!
