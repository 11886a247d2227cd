//! Data model of the bridge protocol: job requests, per-file results, and
//! the tagged events the worker emits on its output stream.
//!
//! Text and numeric offsets travel as plain byte strings (`Vec<u8>`): the
//! orchestrator never does arithmetic on an offset, it only carries the
//! worker's decimal text through to the caller.

use vstd::prelude::*;

verus! {

/// One completed comparison reported by the worker: which video/audio pair
/// it concerns, the measured offsets (decimal text in the worker's native
/// time unit), an optional per-item error, and the elapsed time.
pub struct SyncResult {
    pub video_file: Vec<u8>,
    pub audio_file: Vec<u8>,
    pub start_delay: Option<Vec<u8>>,
    pub end_delay: Option<Vec<u8>>,
    pub error: Option<Vec<u8>>,
    pub elapsed_ms: Option<u64>,
}

/// Mathematical view of a [`SyncResult`].
pub struct SyncResultModel {
    pub video_file: Seq<u8>,
    pub audio_file: Seq<u8>,
    pub start_delay: Option<Seq<u8>>,
    pub end_delay: Option<Seq<u8>>,
    pub error: Option<Seq<u8>>,
    pub elapsed_ms: Option<u64>,
}

/// Model of a sequence of results, element by element.
pub open spec fn results_model(rs: Seq<SyncResult>) -> Seq<SyncResultModel> {
    Seq::new(rs.len(), |i: int| rs[i]@)
}

/// Model of a sequence of byte strings, element by element.
pub open spec fn bytes_model(vs: Seq<Vec<u8>>) -> Seq<Seq<u8>> {
    Seq::new(vs.len(), |i: int| vs[i]@)
}

pub open spec fn view_opt_bytes(o: Option<Vec<u8>>) -> Option<Seq<u8>> {
    match o {
        Some(v) => Some(v@),
        None => None,
    }
}

impl View for SyncResult {
    type V = SyncResultModel;

    open spec fn view(&self) -> SyncResultModel {
        SyncResultModel {
            video_file: self.video_file@,
            audio_file: self.audio_file@,
            start_delay: view_opt_bytes(self.start_delay),
            end_delay: view_opt_bytes(self.end_delay),
            error: view_opt_bytes(self.error),
            elapsed_ms: self.elapsed_ms,
        }
    }
}

/// One decoded message from the worker's output stream.
pub enum BridgeEvent {
    /// Batch progress: how many items are done out of how many, and which
    /// item is currently in flight.
    Progress { processed: u64, total: u64, current: Option<Vec<u8>> },
    /// An item has started processing.
    FileStart { file: Vec<u8> },
    /// An item finished, with its elapsed time in milliseconds.
    FileEnd { file: Vec<u8>, elapsed_ms: u64 },
    /// Percent-complete for the item in flight.
    FileProgress { file: Vec<u8>, percent: u8 },
    /// Free-text diagnostic line.
    Log { message: Vec<u8> },
    /// One completed comparison, delivered incrementally.
    ResultItem { result: SyncResult },
    /// The authoritative final list, superseding all earlier `ResultItem`s.
    Done { results: Vec<SyncResult> },
}

/// Mathematical view of a [`BridgeEvent`].
pub enum EventModel {
    Progress { processed: u64, total: u64, current: Option<Seq<u8>> },
    FileStart { file: Seq<u8> },
    FileEnd { file: Seq<u8>, elapsed_ms: u64 },
    FileProgress { file: Seq<u8>, percent: u8 },
    Log { message: Seq<u8> },
    ResultItem { result: SyncResultModel },
    Done { results: Seq<SyncResultModel> },
}

impl View for BridgeEvent {
    type V = EventModel;

    open spec fn view(&self) -> EventModel {
        match self {
            BridgeEvent::Progress { processed, total, current } => EventModel::Progress {
                processed: *processed,
                total: *total,
                current: view_opt_bytes(*current),
            },
            BridgeEvent::FileStart { file } => EventModel::FileStart { file: file@ },
            BridgeEvent::FileEnd { file, elapsed_ms } => EventModel::FileEnd {
                file: file@,
                elapsed_ms: *elapsed_ms,
            },
            BridgeEvent::FileProgress { file, percent } => EventModel::FileProgress {
                file: file@,
                percent: *percent,
            },
            BridgeEvent::Log { message } => EventModel::Log { message: message@ },
            BridgeEvent::ResultItem { result } => EventModel::ResultItem { result: result@ },
            BridgeEvent::Done { results } => EventModel::Done { results: results_model(results@) },
        }
    }
}

/// Description of one synchronization batch, immutable for the lifetime of
/// a job.  `segment_duration` is the decimal text of the numeric parameter,
/// exactly as it will appear in the encoded job payload.
pub struct JobRequest {
    pub mode: Vec<u8>,
    pub video_folder: Option<Vec<u8>>,
    pub audio_folder: Option<Vec<u8>>,
    pub audio_file: Option<Vec<u8>>,
    pub video_files: Option<Vec<Vec<u8>>>,
    pub segment_duration: Vec<u8>,
    pub match_pattern: Option<Vec<u8>>,
}

/// Mathematical view of a [`JobRequest`].
pub struct JobRequestModel {
    pub mode: Seq<u8>,
    pub video_folder: Option<Seq<u8>>,
    pub audio_folder: Option<Seq<u8>>,
    pub audio_file: Option<Seq<u8>>,
    pub video_files: Option<Seq<Seq<u8>>>,
    pub segment_duration: Seq<u8>,
    pub match_pattern: Option<Seq<u8>>,
}

impl View for JobRequest {
    type V = JobRequestModel;

    open spec fn view(&self) -> JobRequestModel {
        JobRequestModel {
            mode: self.mode@,
            video_folder: view_opt_bytes(self.video_folder),
            audio_folder: view_opt_bytes(self.audio_folder),
            audio_file: view_opt_bytes(self.audio_file),
            video_files: match self.video_files {
                Some(vs) => Some(bytes_model(vs@)),
                None => None,
            },
            segment_duration: self.segment_duration@,
            match_pattern: view_opt_bytes(self.match_pattern),
        }
    }
}

/// The single outcome of one job: exactly one of a final result list, a
/// tagged failure with a human-readable cause, or cancellation.
pub enum JobOutcome {
    Succeeded(Vec<SyncResult>),
    Failed(Vec<u8>),
    Canceled,
}

/// Mathematical view of a [`JobOutcome`].
pub enum OutcomeModel {
    Succeeded(Seq<SyncResultModel>),
    Failed(Seq<u8>),
    Canceled,
}

impl View for JobOutcome {
    type V = OutcomeModel;

    open spec fn view(&self) -> OutcomeModel {
        match self {
            JobOutcome::Succeeded(rs) => OutcomeModel::Succeeded(results_model(rs@)),
            JobOutcome::Failed(m) => OutcomeModel::Failed(m@),
            JobOutcome::Canceled => OutcomeModel::Canceled,
        }
    }
}

/// Byte-for-byte copy of a byte string, with its view pinned down.
pub fn copy_bytes(v: &Vec<u8>) -> (r: Vec<u8>)
    ensures
        r@ == v@,
{
    let mut r: Vec<u8> = Vec::new();
    let mut i: usize = 0;
    while i < v.len()
        invariant
            i <= v.len(),
            r@ == v@.subrange(0, i as int),
        decreases v.len() - i,
    {
        r.push(v[i]);
        proof {
            assert(r@ =~= v@.subrange(0, i + 1 as int));
        }
        i = i + 1;
    }
    proof {
        assert(r@ =~= v@);
    }
    r
}

/// Copy of an optional byte string, with its view pinned down.
pub fn copy_opt_bytes(o: &Option<Vec<u8>>) -> (r: Option<Vec<u8>>)
    ensures
        view_opt_bytes(r) == view_opt_bytes(*o),
{
    match o {
        Some(v) => Some(copy_bytes(v)),
        None => None,
    }
}

impl SyncResult {
    /// Field-for-field copy with its view pinned down (the derived clone
    /// would say nothing about the result).
    pub fn duplicate(&self) -> (r: SyncResult)
        ensures
            r@ == self@,
    {
        SyncResult {
            video_file: copy_bytes(&self.video_file),
            audio_file: copy_bytes(&self.audio_file),
            start_delay: copy_opt_bytes(&self.start_delay),
            end_delay: copy_opt_bytes(&self.end_delay),
            error: copy_opt_bytes(&self.error),
            elapsed_ms: self.elapsed_ms,
        }
    }
}

/// Element-for-element copy of a result list, with its view pinned down.
pub fn copy_results(rs: &Vec<SyncResult>) -> (r: Vec<SyncResult>)
    ensures
        results_model(r@) == results_model(rs@),
{
    let mut r: Vec<SyncResult> = Vec::new();
    let mut i: usize = 0;
    while i < rs.len()
        invariant
            i <= rs.len(),
            results_model(r@) =~= results_model(rs@).subrange(0, i as int),
        decreases rs.len() - i,
    {
        let ghost prev = r@;
        let ghost dd = rs@[i as int]@;
        let d = rs[i].duplicate();
        r.push(d);
        proof {
            assert(results_model(prev).len() == prev.len());
            assert(prev.len() == i as int);
            assert(r@ == prev.push(d));
            assert forall|j: int| 0 <= j < i + 1 implies results_model(r@)[j]
                == results_model(rs@)[j] by {
                assert(results_model(r@)[j] == r@[j]@);
                assert(results_model(rs@)[j] == rs@[j]@);
                if j < i as int {
                    assert(r@[j] == prev[j]);
                    assert(results_model(prev)[j] == prev[j]@);
                    assert(results_model(prev)[j] == results_model(rs@).subrange(0, i as int)[j]);
                } else {
                    assert(r@[j] == d);
                    assert(d@ == dd);
                }
            }
            assert(results_model(r@) =~= results_model(rs@).subrange(0, i + 1 as int));
        }
        i = i + 1;
    }
    proof {
        assert(results_model(r@) =~= results_model(rs@));
    }
    r
}

} // verus!
