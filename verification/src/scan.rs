//! The scan step's decisions: what one enumerated path yields (a record and warnings), how
//! the results are tallied and stored in batches, and how a scan run is finished. The
//! threads and channels that carry paths and results between them belong to the caller.

use vstd::prelude::*;
use std::sync::Arc;
use std::sync::atomic::{AtomicBool, Ordering};
use crate::clock::{elapsed_ms, start_clock};
use crate::domain::{
    FileFingerprint, FileKind, MetadataView, RunStatus, ScannedFile, TrackMetadata,
};
use crate::execution::{WorkflowError, WorkflowResult};
use crate::ids::new_id;
use crate::plan::{copy_metadata, image_path, is_image_path};
use crate::ports::{FileSystem, MetadataReader, ScanStore};
use crate::text::{append_chars, chars_of, string_of};

verus! {

/// A flag shared by all parts of a scan; once cancelled it stays cancelled.
#[derive(Clone, Default)]
pub struct CancellationToken(Arc<AtomicBool>);

impl CancellationToken {
    /// Asks every part of the scan to stop.
    pub fn cancel(&self) {
        self.0.store(true, Ordering::Release);
    }

    /// Whether the scan was asked to stop. The answer depends on other threads, so nothing is
    /// promised of it.
    pub fn is_cancelled(&self) -> bool {
        self.0.load(Ordering::Acquire)
    }
}

/// How a scan runs.
#[derive(Clone)]
pub struct ScanOptions {
    pub workers: usize,
    /// How many records are stored at a time (0 counts as 1).
    pub batch_size: usize,
    pub queue_capacity: usize,
    pub follow_reparse_points: bool,
    pub cancellation: CancellationToken,
}

/// A finished scan and its counts.
#[derive(Debug, Clone)]
pub struct ScanResult {
    pub scan_id: String,
    pub files: u64,
    pub cache_hits: u64,
    pub warnings: u64,
}

pub struct ScanUseCase<F, M, S> {
    pub fs: Arc<F>,
    pub metadata: Arc<M>,
    pub store: Arc<S>,
}

/// What scanning one path yields.
pub enum ScanWorkerResult {
    /// A scanned file; whether its tags came from the cache; whether it counts as a warning
    /// (a music file without tags, where no read error was reported); the time spent on tags.
    Record { file: ScannedFile, cache_hit: bool, warning: bool, tag_read_ms: u64 },
    /// A problem to record as a scan warning.
    Warning(String),
}

/// A scan result as the contracts see it (the random file id and the time left out).
pub ghost enum ScanEventView {
    Record {
        path: Seq<char>,
        fingerprint: FileFingerprint,
        metadata: Option<MetadataView>,
        kind: FileKind,
        cache_hit: bool,
        warning: bool,
    },
    Warning(Seq<char>),
}

/// The tags that may have been read, as views.
pub open spec fn opt_metadata_view(m: Option<TrackMetadata>) -> Option<MetadataView> {
    match m {
        Some(t) => Some(t@),
        None => None,
    }
}

impl View for ScanWorkerResult {
    type V = ScanEventView;

    open spec fn view(&self) -> ScanEventView {
        match self {
            ScanWorkerResult::Record { file, cache_hit, warning, tag_read_ms } => ScanEventView::Record {
                path: file.path@,
                fingerprint: file.fingerprint,
                metadata: opt_metadata_view(file.metadata),
                kind: file.kind,
                cache_hit: *cache_hit,
                warning: *warning,
            },
            ScanWorkerResult::Warning(w) => ScanEventView::Warning(w@),
        }
    }
}

/// What the file system, the metadata cache and the tag reader answered for one path.
pub ghost struct ScanObservation {
    pub fingerprint: Result<FileFingerprint, Seq<char>>,
    pub cached: Result<Option<MetadataView>, Seq<char>>,
    pub read: Result<MetadataView, Seq<char>>,
}

/// The warning text for a failed cache lookup.
pub open spec fn cache_warning(path: Seq<char>, error: Seq<char>) -> Seq<char> {
    "metadata_cache_read_failed:"@ + path + ":"@ + error
}

/// The warning text for tags that could not be read.
pub open spec fn read_warning(path: Seq<char>, error: Seq<char>) -> Seq<char> {
    "metadata_read_failed:"@ + path + ":"@ + error
}

/// What scanning one enumerated path yields, given what the services answered: an
/// enumeration error or a failed fingerprint is a warning and nothing more. Otherwise images
/// get no tags; music takes its tags from the cache when they are there, and is read
/// otherwise; a failed cache lookup or read adds a warning; and the record follows.
pub open spec fn scan_events(path: Result<Seq<char>, Seq<char>>, obs: ScanObservation) -> Seq<ScanEventView> {
    match path {
        Err(e) => seq![ScanEventView::Warning(e)],
        Ok(p) => match obs.fingerprint {
            Err(e) => seq![ScanEventView::Warning(e)],
            Ok(fp) => {
                let image = image_path(p);
                let cache_warn = if !image && obs.cached is Err {
                    seq![ScanEventView::Warning(cache_warning(p, obs.cached->Err_0))]
                } else {
                    Seq::<ScanEventView>::empty()
                };
                let cached = if !image && obs.cached is Ok {
                    obs.cached->Ok_0
                } else {
                    None
                };
                let reported = !image && cached is None && obs.read is Err;
                let read_warn = if reported {
                    seq![ScanEventView::Warning(read_warning(p, obs.read->Err_0))]
                } else {
                    Seq::<ScanEventView>::empty()
                };
                let metadata = if image {
                    None
                } else if cached is Some {
                    cached
                } else if obs.read is Ok {
                    Some(obs.read->Ok_0)
                } else {
                    None
                };
                cache_warn + read_warn + seq![
                    ScanEventView::Record {
                        path: p,
                        fingerprint: fp,
                        metadata,
                        kind: if image {
                            FileKind::Image
                        } else {
                            FileKind::Music
                        },
                        cache_hit: cached is Some,
                        warning: !image && metadata is None && !reported,
                    },
                ]
            },
        },
    }
}

/// The views of a list of scan results.
pub open spec fn event_views(r: Seq<ScanWorkerResult>) -> Seq<ScanEventView> {
    r.map_values(|x: ScanWorkerResult| x@)
}

/// The view of an enumerated path.
pub open spec fn path_view(path: Result<String, String>) -> Result<Seq<char>, Seq<char>> {
    match path {
        Ok(p) => Ok(p@),
        Err(e) => Err(e@),
    }
}

fn warning_text(prefix: &str, path: &str, error: &str) -> (r: String)
    ensures
        r@ == prefix@ + path@ + ":"@ + error@,
{
    let mut v = chars_of(prefix);
    append_chars(&mut v, &chars_of(path));
    append_chars(&mut v, &chars_of(":"));
    append_chars(&mut v, &chars_of(error));
    string_of(&v)
}

/// What the file system, the metadata cache and the tag reader answered for one path;
/// `None` marks a question that was not asked. `tag_read_ms` is the time spent on tags.
pub struct ScanAnswers {
    pub fingerprint: Option<Result<FileFingerprint, String>>,
    pub cached: Option<Result<Option<TrackMetadata>, String>>,
    pub read: Option<Result<TrackMetadata, String>>,
    pub tag_read_ms: u64,
}

impl ScanAnswers {
    /// The answers as an observation (questions not asked read as a failed fingerprint, an
    /// empty cache and a failed read).
    pub open spec fn observation(self) -> ScanObservation {
        ScanObservation {
            fingerprint: match self.fingerprint {
                Some(Ok(f)) => Ok(f),
                Some(Err(e)) => Err(e@),
                None => Err(Seq::empty()),
            },
            cached: match self.cached {
                Some(Ok(m)) => Ok(opt_metadata_view(m)),
                Some(Err(e)) => Err(e@),
                None => Ok(None),
            },
            read: match self.read {
                Some(Ok(m)) => Ok(m@),
                Some(Err(e)) => Err(e@),
                None => Err(Seq::empty()),
            },
        }
    }
}

/// The questions a scan asks of one enumerated path, and when: the fingerprint of a path
/// that was enumerated; the metadata cache only for music with a fingerprint; the tag reader
/// only when the cache was asked and had nothing (a cache hit is never read again).
pub open spec fn scan_queries(path: Result<Seq<char>, Seq<char>>, a: ScanAnswers) -> bool {
    match path {
        Err(_) => a.fingerprint is None && a.cached is None && a.read is None,
        Ok(p) => {
            &&& a.fingerprint is Some
            &&& (a.cached is Some <==> (a.fingerprint matches Some(Ok(_)) && !image_path(p)))
            &&& (a.read is Some <==> (a.cached is Some && !(a.cached matches Some(Ok(Some(_))))))
        },
    }
}

/// Asks the services what scanning one enumerated path needs: the fingerprint, then for
/// music the metadata cache under that fingerprint, then the tags only on a cache miss.
fn scan_answers<F: FileSystem, M: MetadataReader, S: ScanStore>(
    fs: &F,
    reader: &M,
    store: &S,
    path: &Result<String, String>,
) -> (a: ScanAnswers)
    ensures
        scan_queries(path_view(*path), a),
{
    let mut a = ScanAnswers { fingerprint: None, cached: None, read: None, tag_read_ms: 0 };
    let path = match path {
        Ok(p) => p,
        Err(_) => return a,
    };
    let fingerprint = fs.fingerprint(path.as_str());
    let fp: FileFingerprint = match &fingerprint {
        Ok(f) => *f,
        Err(_) => {
            a.fingerprint = Some(fingerprint);
            return a;
        },
    };
    a.fingerprint = Some(fingerprint);
    if is_image_path(path.as_str()) {
        return a;
    }
    let cached = store.previous_metadata(path.as_str(), &fp);
    let hit = match &cached {
        Ok(Some(_)) => true,
        _ => false,
    };
    a.cached = Some(cached);
    let started = start_clock();
    if !hit {
        a.read = Some(reader.read(path.as_str()));
    }
    a.tag_read_ms = elapsed_ms(&started);
    a
}

fn copy_opt_metadata(m: &Option<TrackMetadata>) -> (r: Option<TrackMetadata>)
    ensures
        opt_metadata_view(r) == opt_metadata_view(*m),
{
    match m {
        Some(t) => Some(copy_metadata(t)),
        None => None,
    }
}

/// What scanning one enumerated path yields, given what the services answered:
/// `scan_events` of the answers, in the order the results are sent.
pub fn decide_scan(path: Result<String, String>, answers: &ScanAnswers) -> (r: Vec<ScanWorkerResult>)
    ensures
        event_views(r@) == scan_events(path_view(path), answers.observation()),
{
    let ghost pv = path_view(path);
    let ghost obs = answers.observation();
    let mut out: Vec<ScanWorkerResult> = Vec::new();
    let path = match path {
        Ok(p) => p,
        Err(e) => {
            out.push(ScanWorkerResult::Warning(e));
            assert(event_views(out@) =~= scan_events(pv, obs));
            return out;
        },
    };
    let fingerprint = match &answers.fingerprint {
        Some(Ok(f)) => *f,
        Some(Err(e)) => {
            out.push(ScanWorkerResult::Warning(e.clone()));
            assert(event_views(out@) =~= scan_events(pv, obs));
            return out;
        },
        None => {
            out.push(ScanWorkerResult::Warning(String::new()));
            assert(event_views(out@) =~= scan_events(pv, obs));
            return out;
        },
    };
    let image = is_image_path(path.as_str());
    let cached: Option<TrackMetadata> = if image {
        None
    } else {
        match &answers.cached {
            Some(Ok(v)) => copy_opt_metadata(v),
            Some(Err(e)) => {
                out.push(
                    ScanWorkerResult::Warning(
                        warning_text("metadata_cache_read_failed:", path.as_str(), e.as_str()),
                    ),
                );
                None
            },
            None => None,
        }
    };
    let cache_hit = cached.is_some();
    let mut reported = false;
    let metadata: Option<TrackMetadata> = if image {
        None
    } else if cached.is_some() {
        cached
    } else {
        match &answers.read {
            Some(Ok(m)) => Some(copy_metadata(m)),
            Some(Err(e)) => {
                reported = true;
                out.push(
                    ScanWorkerResult::Warning(
                        warning_text("metadata_read_failed:", path.as_str(), e.as_str()),
                    ),
                );
                None
            },
            None => {
                reported = true;
                proof {
                    reveal_strlit("");
                }
                out.push(
                    ScanWorkerResult::Warning(
                        warning_text("metadata_read_failed:", path.as_str(), ""),
                    ),
                );
                None
            },
        }
    };
    let warning = !image && metadata.is_none() && !reported;
    let kind = if image {
        FileKind::Image
    } else {
        FileKind::Music
    };
    let ghost before = out@;
    out.push(
        ScanWorkerResult::Record {
            file: ScannedFile { id: new_id(), path, fingerprint, metadata, kind },
            cache_hit,
            warning,
            tag_read_ms: answers.tag_read_ms,
        },
    );
    assert(event_views(out@) =~= event_views(before).push(out@.last()@));
    assert(event_views(out@) =~= scan_events(pv, obs));
    out
}

/// One scanned path: the results, in the order they are sent, and the answers they rest on.
pub struct ScanOutcome {
    pub results: Vec<ScanWorkerResult>,
    pub answers: ScanAnswers,
}

/// Scans one enumerated path: asks the services what `scan_queries` allows (a cached file's
/// tags are never read again) and returns `decide_scan` of the answers.
pub fn scan_path<F: FileSystem, M: MetadataReader, S: ScanStore>(
    fs: &F,
    reader: &M,
    store: &S,
    path: Result<String, String>,
) -> (r: ScanOutcome)
    ensures
        event_views(r.results@) == scan_events(path_view(path), r.answers.observation()),
        scan_queries(path_view(path), r.answers),
{
    let answers = scan_answers(fs, reader, store, &path);
    let results = decide_scan(path, &answers);
    ScanOutcome { results, answers }
}

/// How many records make a batch: `batch_size`, but at least 1.
pub open spec fn batch_limit(batch_size: usize) -> int {
    if batch_size == 0 {
        1
    } else {
        batch_size as int
    }
}

/// The running totals of a scan and the records waiting to be stored.
pub struct ScanTally {
    pub batch: Vec<ScannedFile>,
    pub hits: u64,
    pub warnings: u64,
    pub total: u64,
    pub tag_read_ms: u64,
}

impl ScanTally {
    /// Nothing counted, nothing waiting.
    pub fn new() -> (r: Self)
        ensures
            r.batch@.len() == 0,
            r.hits == 0,
            r.warnings == 0,
            r.total == 0,
            r.tag_read_ms == 0,
    {
        ScanTally { batch: Vec::new(), hits: 0, warnings: 0, total: 0, tag_read_ms: 0 }
    }

    /// Whether one more result can be counted without a counter overflowing.
    pub fn has_room(&self) -> (r: bool)
        ensures
            r == (self.hits < u64::MAX && self.warnings < u64::MAX && self.total < u64::MAX),
    {
        self.hits < u64::MAX && self.warnings < u64::MAX && self.total < u64::MAX
    }

    /// Counts one result: a warning is counted and stored; a record is counted (a cache hit,
    /// a warning when flagged) and waits in the batch, and a batch of `batch_size` (at least
    /// 1) is stored and emptied. A store error is handed back.
    pub fn consume<S: ScanStore>(
        &mut self,
        store: &S,
        scan_id: &str,
        result: ScanWorkerResult,
        batch_size: usize,
    ) -> (r: Result<(), String>)
        requires
            old(self).hits < u64::MAX,
            old(self).warnings < u64::MAX,
            old(self).total < u64::MAX,
        ensures
            match result {
                ScanWorkerResult::Warning(_) => {
                    &&& final(self).warnings == old(self).warnings + 1
                    &&& final(self).hits == old(self).hits
                    &&& final(self).total == old(self).total
                    &&& final(self).tag_read_ms == old(self).tag_read_ms
                    &&& r is Ok ==> if old(self).batch@.len() >= batch_limit(batch_size) {
                        final(self).batch@.len() == 0
                    } else {
                        final(self).batch@ == old(self).batch@
                    }
                },
                ScanWorkerResult::Record { file, cache_hit, warning, tag_read_ms } => {
                    &&& final(self).hits == old(self).hits + if cache_hit {
                        1int
                    } else {
                        0int
                    }
                    &&& final(self).warnings == old(self).warnings + if warning {
                        1int
                    } else {
                        0int
                    }
                    &&& final(self).total == old(self).total + 1
                    &&& final(self).tag_read_ms == if old(self).tag_read_ms + tag_read_ms
                        <= u64::MAX {
                        old(self).tag_read_ms + tag_read_ms
                    } else {
                        u64::MAX as int
                    }
                    &&& r is Ok ==> if old(self).batch@.len() + 1 >= batch_limit(batch_size) {
                        final(self).batch@.len() == 0
                    } else {
                        final(self).batch@ == old(self).batch@.push(file)
                    }
                },
            },
    {
        match result {
            ScanWorkerResult::Warning(warning) => {
                self.warnings = self.warnings + 1;
                if let Err(e) = store.save_scan_warning(scan_id, warning.as_str()) {
                    return Err(e);
                }
            },
            ScanWorkerResult::Record { file, cache_hit, warning, tag_read_ms } => {
                if cache_hit {
                    self.hits = self.hits + 1;
                }
                if warning {
                    self.warnings = self.warnings + 1;
                }
                self.total = self.total + 1;
                self.tag_read_ms = self.tag_read_ms.saturating_add(tag_read_ms);
                self.batch.push(file);
            },
        }
        let limit = if batch_size == 0 {
            1
        } else {
            batch_size
        };
        if self.batch.len() >= limit {
            if let Err(e) = store.save_batch(scan_id, self.batch.as_slice()) {
                return Err(e);
            }
            self.batch.clear();
        }
        Ok(())
    }
}

/// The status a scan ends with: cancelled when it was asked to stop, completed otherwise.
pub open spec fn scan_status(cancelled: bool) -> RunStatus {
    if cancelled {
        RunStatus::Cancelled
    } else {
        RunStatus::Completed
    }
}

/// The status a scan is recorded with once its files are stored: `scan_status`.
pub fn scan_run_status(cancelled: bool) -> (s: RunStatus)
    ensures
        s == scan_status(cancelled),
{
    if cancelled {
        RunStatus::Cancelled
    } else {
        RunStatus::Completed
    }
}

/// The error a scan ends with after enumeration failed: the store's error when the failed
/// run could not be recorded, the enumeration error otherwise.
pub fn enumeration_failure(recorded: Result<(), String>, error: String) -> (w: WorkflowError)
    ensures
        w.code_view() == (match recorded {
            Err(e) => e@,
            Ok(()) => error@,
        }),
{
    match recorded {
        Err(e) => WorkflowError::new(e),
        Ok(()) => WorkflowError::new(error),
    }
}

impl<F: FileSystem, M: MetadataReader, S: ScanStore> ScanUseCase<F, M, S> {
    /// Begins a scan run of `root`.
    pub fn begin(&self, root: &str) -> (r: WorkflowResult<String>) {
        match self.store.begin_scan(root) {
            Ok(id) => Ok(id),
            Err(e) => Err(WorkflowError::new(e)),
        }
    }

    /// Ends a scan run as failed with its warning count, handing back `error`; a failure to
    /// record the end is not reported over it.
    pub fn fail(&self, scan_id: &str, warnings: u64, error: String) -> (r: WorkflowError)
        ensures
            r.code_view() == error@,
    {
        let _ = self.store.finish_scan(scan_id, RunStatus::Failed, warnings);
        WorkflowError::new(error)
    }

    /// Finishes a scan run once enumeration and workers are done: an enumeration error fails
    /// the run and ends it with `enumeration_failure`; otherwise the last records are stored,
    /// the run is recorded with `scan_run_status`, the phase metrics are recorded, and the
    /// counts are returned.
    pub fn finish(
        &self,
        scan_id: String,
        tally: ScanTally,
        enumeration: Result<(), String>,
        cancelled: bool,
        elapsed_total_ms: u64,
        enumerate_ms: u64,
        enumerated: u64,
        db_write_ms: u64,
    ) -> (r: WorkflowResult<ScanResult>)
        ensures
            enumeration is Err ==> r is Err,
            r matches Ok(res) ==> res.scan_id@ == scan_id@ && res.files == tally.total
                && res.cache_hits == tally.hits && res.warnings == tally.warnings,
    {
        if let Err(error) = enumeration {
            let recorded = self.store.finish_scan(scan_id.as_str(), RunStatus::Failed, tally.warnings);
            return Err(enumeration_failure(recorded, error));
        }
        if tally.batch.len() > 0 {
            if let Err(error) = self.store.save_batch(scan_id.as_str(), tally.batch.as_slice()) {
                let _ = self.store.finish_scan(scan_id.as_str(), RunStatus::Failed, tally.warnings);
                return Err(WorkflowError::new(error));
            }
        }
        if let Err(e) = self.store.finish_scan(
            scan_id.as_str(),
            scan_run_status(cancelled),
            tally.warnings,
        ) {
            return Err(WorkflowError::new(e));
        }
        if let Err(e) = self.store.record_metric(scan_id.as_str(), "scan", elapsed_total_ms, tally.total) {
            return Err(WorkflowError::new(e));
        }
        if let Err(e) = self.store.record_metric(scan_id.as_str(), "enumerate", enumerate_ms, enumerated) {
            return Err(WorkflowError::new(e));
        }
        if let Err(e) = self.store.record_metric(scan_id.as_str(), "tag_read", tally.tag_read_ms, tally.total) {
            return Err(WorkflowError::new(e));
        }
        if let Err(e) = self.store.record_metric(scan_id.as_str(), "db_write", db_write_ms, tally.total) {
            return Err(WorkflowError::new(e));
        }
        Ok(ScanResult {
            scan_id,
            files: tally.total,
            cache_hits: tally.hits,
            warnings: tally.warnings,
        })
    }
}

} // verus!
