//! Binding a closed Record to expected WAV metadata that arrived after it: who may claim the
//! WAV, and how the Record is cut to the WAV and rebound to it.
use vstd::prelude::*;

use crate::clock::{parse_rfc3339_millis, rfc3339_unix_millis};
use crate::pair_gate::{expected_view, opt_expected_view, same_expected};
use crate::path_model::{copy_string, str_equal};
use crate::plugin_data::{reconcilable_reason, RecordQuality, Role, TraceClock};
use crate::record_gate::{missing_text, ExpectedWavFacts, RecordFacts, SideFacts, TraceFacts};

verus! {

/// Grace before a Record's start within which expected WAV metadata may still belong to it.
pub const LATE_EXPECTED_BEFORE_RECORD_GRACE_MS: i64 = 2_000;

/// Grace after a Record's bounce end within which its WAV may still be written.
pub const LATE_EXPECTED_AFTER_RECORD_GRACE_MS: i64 = 300_000;

/// One measured frame as the late binding reads it.
#[derive(Debug, Clone, Copy, PartialEq, Eq, Structural)]
pub struct LateFrame {
    pub t_ms: u64,
    /// The frame is an explicit silence frame: its true peak and momentary loudness are at or
    /// below -99.9.
    pub explicit_silence: bool,
}

/// How a Record's comparison slots were proven.
#[derive(Debug, Clone, Copy, PartialEq, Eq, Structural)]
pub enum ComparisonResolution {
    /// Exact on the producer's content clock.
    ProducerContentExact,
    /// Exact on the raw host clock.
    RawHostExact,
    /// Any other resolution.
    Other,
}

/// The parts of a Record file that the late binding reads and rewrites. `facts` is what the
/// publish gate reads; `frames` are the measured frames, of which `facts.trace.frame_t_ms`
/// holds the times.
#[derive(Debug, Clone)]
pub struct RecordFile {
    pub facts: RecordFacts,
    pub frames: Vec<LateFrame>,
    /// The Record's status is `closed`.
    pub closed: bool,
    pub started_at_ms: i64,
    /// The Record's own wall clock (its start), which names its files.
    pub timestamp: String,
    /// The user's memo of the signal chain.
    pub chain_memo: String,
    /// The wall clock of the writer's last sign of life.
    pub heartbeat: String,
    /// RFC 3339 wall clock at which the bounce started.
    pub bounce_wall_clock_start: String,
    /// RFC 3339 wall clock at which the bounce ended.
    pub bounce_wall_clock_end: String,
    /// Hash of the first block of the bounce.
    pub first_block_hash: String,
    /// Hash of the last block of the bounce.
    pub last_block_hash: String,
    pub trace_comparison_resolution: Option<ComparisonResolution>,
    pub trace_comparison_slot_positions: Vec<i64>,
    /// Raw host positions of the measured frames' slots, kept as a diagnostic.
    pub trace_raw_host_slot_positions: Vec<i64>,
    /// `t_ms` of each PSB snapshot, when the Record has them.
    pub psb_snapshot_t_ms: Option<Vec<u64>>,
    pub dropped_samples: u64,
    pub bounce_marker_duration_samples: u64,
    pub annotations: Vec<crate::plugin_data::Annotation>,
    pub record_quality: Option<RecordQuality>,
    /// The pair's alignment on the WAV's content (its stored JSON text), once proven exact.
    pub trace_content_alignment: Option<String>,
    /// The provisional context frames measured around the take before the pair was aligned.
    pub trace_context_frames: Vec<LateFrame>,
    /// Legacy endpoints of the context frames.
    pub trace_context_slot_positions: Vec<i64>,
    /// The WAV start basis the provisional pair context was measured on.
    pub trace_pair_wav_start_basis: Option<String>,
    /// The provisional offset between the two sides, in samples.
    pub trace_pair_offset_samples: Option<i64>,
    /// The Record holds a provisional pair alignment score.
    pub trace_pair_alignment_scored: bool,
    /// `t_ms` of each context PSB snapshot.
    pub trace_context_psb_snapshot_t_ms: Vec<u64>,
}

/// `a + b` clamped to `i64`.
pub open spec fn sat_add_i64(a: i64, b: i64) -> int {
    if a + b > i64::MAX {
        i64::MAX as int
    } else if a + b < i64::MIN {
        i64::MIN as int
    } else {
        a + b
    }
}

fn saturating_add_i64(a: i64, b: i64) -> (r: i64)
    ensures
        r == sat_add_i64(a, b),
{
    let s: i128 = a as i128 + b as i128;
    if s > i64::MAX as i128 {
        i64::MAX
    } else if s < i64::MIN as i128 {
        i64::MIN
    } else {
        s as i64
    }
}

/// The Record latched exactly this usable expected WAV itself while it was closed with a
/// session.
pub open spec fn latched_by_record(r: RecordFile, e: ExpectedWavFacts) -> bool {
    &&& opt_expected_view(r.facts.expected_wav) == Some(expected_view(e))
    &&& e.usable
    &&& r.facts.side.sample_rate > 0
    &&& r.facts.side.sample_rate == e.expected_sample_rate
    &&& !missing_text(r.facts.side.record_session_id)
    &&& r.closed
}

/// A late expected WAV may own a closed Record: it is usable, matches the sample rate, is not
/// older than the Record, does not contradict a usable WAV the Record already latched, was
/// written within the grace around the Record's start, and was not written long after the
/// bounce ended.
pub open spec fn can_own_record(r: RecordFile, e: ExpectedWavFacts) -> bool {
    let sr = r.facts.side.sample_rate;
    let start = r.started_at_ms;
    if !e.usable || sr == 0 || sr != e.expected_sample_rate || missing_text(r.facts.side.record_session_id)
        || start <= 0 || e.created_at_ms < start || !r.closed {
        false
    } else if r.facts.expected_wav matches Some(x) && x.usable && expected_view(x) != expected_view(e) {
        false
    } else if sat_add_i64(e.wav_mtime_ms, LATE_EXPECTED_BEFORE_RECORD_GRACE_MS) < start || sat_add_i64(
        e.created_at_ms,
        LATE_EXPECTED_BEFORE_RECORD_GRACE_MS,
    ) < start {
        false
    } else {
        match rfc3339_unix_millis(r.bounce_wall_clock_end@) {
            Some(end) => !(end >= start && e.wav_mtime_ms > sat_add_i64(
                end as i64,
                LATE_EXPECTED_AFTER_RECORD_GRACE_MS,
            )),
            None => true,
        }
    }
}

/// Whether a late expected WAV may own a closed Record.
pub fn late_expected_can_own_record(r: &RecordFile, e: &ExpectedWavFacts) -> (b: bool)
    ensures
        b == can_own_record(*r, *e),
{
    let sr = r.facts.side.sample_rate;
    let start = r.started_at_ms;
    let no_session = match &r.facts.side.record_session_id {
        Some(s) => s.as_str().is_empty(),
        None => true,
    };
    if !e.usable || sr == 0 || sr != e.expected_sample_rate || no_session || start <= 0 || e.created_at_ms < start
        || !r.closed {
        return false;
    }
    if let Some(existing) = &r.facts.expected_wav {
        if existing.usable && !same_expected(&r.facts.expected_wav, &Some(copy_expected(e))) {
            return false;
        }
    }
    if saturating_add_i64(e.wav_mtime_ms, LATE_EXPECTED_BEFORE_RECORD_GRACE_MS) < start {
        return false;
    }
    if saturating_add_i64(e.created_at_ms, LATE_EXPECTED_BEFORE_RECORD_GRACE_MS) < start {
        return false;
    }
    match parse_rfc3339_millis(r.bounce_wall_clock_end.as_str()) {
        Some(end_ms) => !(end_ms >= start && e.wav_mtime_ms > saturating_add_i64(
            end_ms,
            LATE_EXPECTED_AFTER_RECORD_GRACE_MS,
        )),
        None => true,
    }
}

/// A copy of expected WAV metadata, field for field.
pub fn copy_expected(e: &ExpectedWavFacts) -> (c: ExpectedWavFacts)
    ensures
        expected_view(c) == expected_view(*e),
{
    ExpectedWavFacts {
        usable: e.usable,
        expected_duration_samples: e.expected_duration_samples,
        expected_sample_rate: e.expected_sample_rate,
        wav_time_reference_samples: e.wav_time_reference_samples,
        wav_path: crate::path_model::copy_string(&e.wav_path),
        bounce_id: crate::path_model::copy_string(&e.bounce_id),
        created_at_ms: e.created_at_ms,
        wav_file_size: e.wav_file_size,
        wav_mtime_ms: e.wav_mtime_ms,
        wav_hash: crate::path_model::copy_opt_string(&e.wav_hash),
        consumed_at_ms: e.consumed_at_ms,
        consumed_by_session_id: crate::path_model::copy_opt_string(&e.consumed_by_session_id),
    }
}

fn latched_exec(r: &RecordFile, e: &ExpectedWavFacts) -> (b: bool)
    ensures
        b == latched_by_record(*r, *e),
{
    let has_session = match &r.facts.side.record_session_id {
        Some(s) => !s.as_str().is_empty(),
        None => false,
    };
    same_expected(&r.facts.expected_wav, &Some(copy_expected(e))) && e.usable && r.facts.side.sample_rate > 0
        && r.facts.side.sample_rate == e.expected_sample_rate && has_session && r.closed
}

/// The Record's own integrity reasons are all ones a late binding may clear (or a lifecycle
/// shutdown).
pub open spec fn prior_reasons_reconcilable(r: RecordFile) -> bool {
    forall|i: int|
        0 <= i < r.facts.integrity_reasons@.len() ==> (#[trigger] r.facts.integrity_reasons@[i]@
            == "lifecycle_shutdown"@ || reconcilable_reason(r.facts.integrity_reasons@[i]@))
}

/// The expected WAV may be bound to the Record.
pub open spec fn late_eligible(r: RecordFile, e: ExpectedWavFacts) -> bool {
    (latched_by_record(r, e) || can_own_record(r, e)) && prior_reasons_reconcilable(r)
}

} // verus!

verus! {

/// Length of the expected WAV in ms, or `None` without a sample rate.
pub open spec fn late_duration_ms(e: ExpectedWavFacts) -> Option<u64> {
    if e.expected_sample_rate == 0 {
        None
    } else {
        Some(
            crate::plugin_data::rescaled_duration(
                e.expected_duration_samples as nat,
                e.expected_sample_rate as nat,
                1000,
            ) as u64,
        )
    }
}

/// Number of 100 ms TRACE frames the expected WAV holds, when it holds at least one.
pub open spec fn frame_budget(e: ExpectedWavFacts) -> Option<int> {
    match late_duration_ms(e) {
        Some(d) => if d / 100 == 0 || d / 100 > usize::MAX {
            None
        } else {
            Some((d / 100) as int)
        },
        None => None,
    }
}

/// The frames of `s` at or before `d` ms, in order.
pub open spec fn frames_within(s: Seq<LateFrame>, d: u64) -> Seq<LateFrame>
    decreases s.len(),
{
    if s.len() == 0 {
        s
    } else {
        let p = frames_within(s.drop_last(), d);
        if s.last().t_ms <= d {
            p.push(s.last())
        } else {
            p
        }
    }
}

/// The first `n` entries of `s`, or all of them.
pub open spec fn first_n<A>(s: Seq<A>, n: int) -> Seq<A> {
    if n < s.len() {
        s.subrange(0, n)
    } else {
        s
    }
}

pub open spec fn frame_times(s: Seq<LateFrame>) -> Seq<u64> {
    Seq::new(s.len(), |i: int| s[i].t_ms)
}

/// The frames the Record keeps: those within the WAV, at most one per 100 ms of it.
pub open spec fn kept_frames(r: RecordFile, e: ExpectedWavFacts) -> Seq<LateFrame> {
    first_n(frames_within(r.frames@, late_duration_ms(e)->0), frame_budget(e)->0)
}

/// The TRACE slots the Record keeps.
pub open spec fn kept_slots(r: RecordFile, e: ExpectedWavFacts) -> Seq<i64> {
    first_n(r.facts.trace.trace_slot_positions@, frame_budget(e)->0)
}

pub open spec fn increasing_i64(s: Seq<i64>) -> bool {
    forall|i: int, j: int| 0 <= i < j < s.len() ==> s[i] < s[j]
}

/// Every slot is a real position inside the WAV, and they strictly increase.
pub open spec fn slots_factual(s: Seq<i64>, samples: u64) -> bool {
    &&& forall|i: int| 0 <= i < s.len() ==> 0 < #[trigger] s[i] && s[i] <= samples
    &&& increasing_i64(s)
}

/// `x * 1000` clamped to `u64`.
pub open spec fn sat_ms(x: int) -> int {
    if x * 1000 > u64::MAX {
        u64::MAX as int
    } else {
        x * 1000
    }
}

/// Each frame's time is its slot's time on the WAV.
pub open spec fn frames_match_slots(f: Seq<LateFrame>, s: Seq<i64>, rate: u32) -> bool {
    forall|i: int| 0 <= i < f.len() ==> #[trigger] s[i] >= 0 && f[i].t_ms == sat_ms(s[i] as int) / (rate as int)
}

/// The kept frames and slots form a factual sparse WAV lattice.
pub open spec fn shape_ok(r: RecordFile, e: ExpectedWavFacts) -> bool {
    let f = kept_frames(r, e);
    let s = kept_slots(r, e);
    &&& s.len() == f.len()
    &&& slots_factual(s, e.expected_duration_samples)
    &&& frames_match_slots(f, s, e.expected_sample_rate)
}

/// The Record's comparison proof still holds for `n` kept frames inside the WAV.
pub open spec fn comparison_valid(r: RecordFile, e: ExpectedWavFacts, n: int) -> bool {
    let c = r.trace_comparison_slot_positions@;
    match r.trace_comparison_resolution {
        Some(ComparisonResolution::ProducerContentExact) => c.len() == n && (forall|i: int|
            0 <= i < c.len() ==> 0 <= #[trigger] c[i] && c[i] <= e.expected_duration_samples) && increasing_i64(c),
        Some(ComparisonResolution::RawHostExact) => c.len() == n && increasing_i64(c),
        _ => false,
    }
}

/// The times of `s` at or before `d` ms, in order.
pub open spec fn times_within(s: Seq<u64>, d: u64) -> Seq<u64>
    decreases s.len(),
{
    if s.len() == 0 {
        s
    } else {
        let p = times_within(s.drop_last(), d);
        if s.last() <= d {
            p.push(s.last())
        } else {
            p
        }
    }
}

/// Number of explicit silence frames in `s`.
pub open spec fn silence_count(s: Seq<LateFrame>) -> nat
    decreases s.len(),
{
    if s.len() == 0 {
        0
    } else {
        silence_count(s.drop_last()) + if s.last().explicit_silence {
            1nat
        } else {
            0nat
        }
    }
}

/// The reasons of `s` that a late binding does not clear, in order.
pub open spec fn unreconcilable(s: Seq<Seq<char>>) -> Seq<Seq<char>>
    decreases s.len(),
{
    if s.len() == 0 {
        s
    } else {
        let p = unreconcilable(s.drop_last());
        if reconcilable_reason(s.last()) {
            p
        } else {
            p.push(s.last())
        }
    }
}

/// `trace` with other diagnostics.
pub open spec fn with_diagnostics(
    f: crate::record_gate::TraceFacts,
    d: Option<crate::plugin_data::TraceDiagnostics>,
) -> crate::record_gate::TraceFacts {
    crate::record_gate::TraceFacts {
        frame_t_ms: f.frame_t_ms,
        trace_slot_positions: f.trace_slot_positions,
        trace_clock_resolution: f.trace_clock_resolution,
        trace_clock_observations: f.trace_clock_observations,
        expected_wav_time_reference_samples: f.expected_wav_time_reference_samples,
        trace_clock_origin_position_samples: f.trace_clock_origin_position_samples,
        trace_diagnostics: d,
        bounce_take: f.bounce_take,
    }
}

/// Fields the late binding never changes.
pub open spec fn identity_kept(a: RecordFile, b: RecordFile) -> bool {
    &&& b.facts.side.role == a.facts.side.role
    &&& b.facts.side.project_hash == a.facts.side.project_hash
    &&& b.facts.side.instance_id == a.facts.side.instance_id
    &&& b.facts.side.sample_rate == a.facts.side.sample_rate
    &&& b.facts.side.record_session_id == a.facts.side.record_session_id
    &&& b.facts.side.paired_pre_instance_id == a.facts.side.paired_pre_instance_id
    &&& b.facts.side.paired_post_instance_id == a.facts.side.paired_post_instance_id
    &&& b.facts.side.capture_generation_id == a.facts.side.capture_generation_id
    &&& b.facts.side.generation_started_at_ms == a.facts.side.generation_started_at_ms
    &&& b.facts.trace.trace_clock_resolution == a.facts.trace.trace_clock_resolution
    &&& b.facts.trace.trace_clock_observations == a.facts.trace.trace_clock_observations
    &&& b.facts.trace.trace_clock_origin_position_samples == a.facts.trace.trace_clock_origin_position_samples
    &&& b.facts.trace_clock == a.facts.trace_clock
    &&& b.facts.trace_clock_basis_canonical == a.facts.trace_clock_basis_canonical
    &&& b.closed == a.closed
    &&& b.started_at_ms == a.started_at_ms
    &&& b.bounce_wall_clock_end == a.bounce_wall_clock_end
    &&& b.timestamp == a.timestamp
    &&& b.chain_memo == a.chain_memo
    &&& b.heartbeat == a.heartbeat
    &&& b.bounce_wall_clock_start == a.bounce_wall_clock_start
    &&& b.first_block_hash == a.first_block_hash
    &&& b.last_block_hash == a.last_block_hash
    &&& b.dropped_samples == a.dropped_samples
    &&& b.annotations == a.annotations
    &&& b.trace_raw_host_slot_positions == a.trace_raw_host_slot_positions
    &&& b.trace_content_alignment == a.trace_content_alignment
    &&& b.trace_context_frames == a.trace_context_frames
    &&& b.trace_context_slot_positions == a.trace_context_slot_positions
    &&& b.trace_pair_wav_start_basis == a.trace_pair_wav_start_basis
    &&& b.trace_pair_offset_samples == a.trace_pair_offset_samples
    &&& b.trace_pair_alignment_scored == a.trace_pair_alignment_scored
    &&& b.trace_context_psb_snapshot_t_ms == a.trace_context_psb_snapshot_t_ms
}

/// The frames and slots are cut to the WAV.
pub open spec fn trim_applied(a: RecordFile, b: RecordFile, e: ExpectedWavFacts) -> bool {
    &&& b.frames@ == kept_frames(a, e)
    &&& b.facts.trace.frame_t_ms@ == frame_times(kept_frames(a, e))
    &&& b.facts.side.frame_count == kept_frames(a, e).len()
    &&& b.facts.trace.trace_slot_positions@ == kept_slots(a, e)
}

/// Fields of the binding stage are unchanged.
pub open spec fn binding_kept(a: RecordFile, b: RecordFile) -> bool {
    &&& b.trace_comparison_resolution == a.trace_comparison_resolution
    &&& b.trace_comparison_slot_positions == a.trace_comparison_slot_positions
    &&& b.psb_snapshot_t_ms == a.psb_snapshot_t_ms
    &&& b.facts.expected_wav == a.facts.expected_wav
    &&& b.facts.trace.expected_wav_time_reference_samples == a.facts.trace.expected_wav_time_reference_samples
    &&& b.bounce_marker_duration_samples == a.bounce_marker_duration_samples
    &&& b.facts.trace.bounce_take == a.facts.trace.bounce_take
    &&& b.facts.trace.trace_diagnostics == a.facts.trace.trace_diagnostics
}

/// Host output-presentation range of the Record's previous take, when it had both ends.
pub open spec fn producer_host_range(a: RecordFile) -> Option<(i64, i64)> {
    match a.facts.trace.bounce_take {
        Some(t) => match (t.host_start_position_samples, t.host_end_position_samples) {
            (Some(s), Some(x)) => Some((s, x)),
            _ => None,
        },
        None => None,
    }
}

/// The bounce take bound to the expected WAV.
pub open spec fn bound_take(t: crate::plugin_data::BounceTake, a: RecordFile, e: ExpectedWavFacts) -> bool {
    let n = kept_frames(a, e).len();
    let raw = raw_trace_count(a, e);
    &&& t.source@ == "expected_wav_duration_native"@
    &&& t.time_axis@ == "native_samples"@
    &&& t.alignment_status@ == "sample_count_ready"@
    &&& t.sample_rate == e.expected_sample_rate
    &&& t.wav_start_sample == 0
    &&& t.wav_end_sample == e.expected_duration_samples
    &&& t.duration_samples == e.expected_duration_samples
    &&& t.duration_frames_48k == crate::plugin_data::rescaled_duration(
        e.expected_duration_samples as nat,
        e.expected_sample_rate as nat,
        48_000,
    )
    &&& t.start_t_ms == 0
    &&& t.end_t_ms == late_duration_ms(e)->0
    &&& t.trace_sample_count == raw
    &&& t.frame_count == n
    &&& t.host_start_position_samples == match producer_host_range(a) {
        Some(p) => Some(p.0),
        None => None,
    }
    &&& t.host_end_position_samples == match producer_host_range(a) {
        Some(p) => Some(p.1),
        None => None,
    }
}

/// The raw TRACE count after the cut: the previous diagnostics' count, at least the kept
/// frames.
pub open spec fn raw_trace_count(a: RecordFile, e: ExpectedWavFacts) -> int {
    let n = kept_frames(a, e).len() as int;
    let prior = match a.facts.trace.trace_diagnostics {
        Some(d) => d.raw_trace_count as int,
        None => n,
    };
    if prior >= n {
        prior
    } else {
        n
    }
}

/// The diagnostics after the binding: from the latency-mapped coverage where it exists, else
/// the 100 ms budget against the kept frames.
pub open spec fn bound_diagnostics(a: RecordFile, b: RecordFile, e: ExpectedWavFacts) -> crate::plugin_data::TraceDiagnostics {
    let n = kept_frames(a, e).len() as int;
    let budget = late_duration_ms(e)->0 / 100;
    let mapped = crate::record_gate::coverage(
        with_diagnostics(b.facts.trace, a.facts.trace.trace_diagnostics),
        e.expected_duration_samples,
        e.expected_sample_rate,
    );
    let (expected, measured, missing) = match mapped {
        Some(c) => (c.expected_frame_count as int, c.measured_frame_count as int, c.missing_slots as int),
        None => (budget as int, n, if budget >= n { budget - n } else { 0 }),
    };
    crate::plugin_data::TraceDiagnostics {
        raw_trace_count: raw_trace_count(a, e) as u64,
        expected_frame_count: expected as u64,
        measured_frame_count: measured as u64,
        missing_slots: missing as u64,
        explicit_silence_frame_count: silence_count(kept_frames(a, e)) as u64,
    }
}

/// The binding stage: comparison proof kept only while it holds, PSB snapshots cut to the WAV,
/// the expected WAV latched, the take and diagnostics rebuilt on it.
pub open spec fn binding_applied(a: RecordFile, b: RecordFile, e: ExpectedWavFacts) -> bool {
    let n = kept_frames(a, e).len() as int;
    let d = late_duration_ms(e)->0;
    &&& if comparison_valid(a, e, n) {
        b.trace_comparison_resolution == a.trace_comparison_resolution && b.trace_comparison_slot_positions
            == a.trace_comparison_slot_positions
    } else {
        b.trace_comparison_resolution is None && b.trace_comparison_slot_positions@.len() == 0
    }
    &&& match a.psb_snapshot_t_ms {
        Some(p) => b.psb_snapshot_t_ms matches Some(q) && q@ == times_within(p@, d),
        None => b.psb_snapshot_t_ms is None,
    }
    &&& opt_expected_view(b.facts.expected_wav) == Some(expected_view(e))
    &&& b.facts.trace.expected_wav_time_reference_samples == e.wav_time_reference_samples
    &&& b.bounce_marker_duration_samples == e.expected_duration_samples
    &&& b.facts.trace.bounce_take matches Some(t) && bound_take(t, a, e)
    &&& b.facts.trace.trace_diagnostics == Some(bound_diagnostics(a, b, e))
}

/// Fields of the publication stage are unchanged.
pub open spec fn publication_kept(a: RecordFile, b: RecordFile) -> bool {
    &&& b.facts.trace_axis == a.facts.trace_axis
    &&& b.facts.trace_wav_reference == a.facts.trace_wav_reference
    &&& b.facts.canonical_wav_reference == a.facts.canonical_wav_reference
    &&& b.facts.integrity_reasons == a.facts.integrity_reasons
    &&& b.facts.integrity_degraded == a.facts.integrity_degraded
    &&& b.facts.side.validity == a.facts.side.validity
    &&& b.facts.commit_status == a.facts.commit_status
    &&& b.record_quality == a.record_quality
}

/// The Record's trimmed session id and the expected WAV's trimmed hash, when neither is blank.
pub open spec fn binding_ids(a: RecordFile, e: ExpectedWavFacts) -> Option<(Seq<char>, Seq<char>)> {
    match (
        crate::plugin_data::trimmed_session(crate::plugin_data::opt_view(a.facts.side.record_session_id)),
        crate::plugin_data::trimmed_session(crate::plugin_data::opt_view(e.wav_hash)),
    ) {
        (Some(s), Some(h)) => Some((s, h)),
        _ => None,
    }
}

/// The publication stage: the WAV axis and its canonical reference, the integrity reasons a
/// late binding cannot clear (and missing slots), validity, the committed status and the
/// quality summary.
pub open spec fn publication_applied(
    a: RecordFile,
    b: RecordFile,
    e: ExpectedWavFacts,
    basis: Seq<char>,
    capture_basis: Seq<char>,
) -> bool {
    let (session, hash) = binding_ids(a, e)->0;
    let missing = b.facts.trace.trace_diagnostics->0.missing_slots;
    &&& b.facts.trace_axis == crate::record_gate::TraceAxis::WavClock
    &&& b.facts.trace_wav_reference matches Some(w) && {
        &&& w.basis@ == basis
        &&& w.capture_basis@ == capture_basis
        &&& w.start_sample == 0
        &&& w.end_sample == e.expected_duration_samples
        &&& w.sample_rate == e.expected_sample_rate
        &&& w.record_session_id@ == session
        &&& w.bounce_id@ == e.bounce_id@
        &&& w.wav_hash@ == hash
    }
    &&& b.facts.canonical_wav_reference
    &&& crate::path_model::strs_view(b.facts.integrity_reasons@) == unreconcilable(
        crate::path_model::strs_view(a.facts.integrity_reasons@),
    ) + crate::record_gate::reason_if(missing > 0, "missing_trace_slots"@)
    &&& b.facts.integrity_degraded == (a.dropped_samples > 0 || b.facts.integrity_reasons@.len() > 0)
    &&& b.facts.side.validity == !b.facts.integrity_degraded
    &&& crate::plugin_data::opt_view(b.facts.commit_status) == Some("committed"@)
    &&& b.record_quality matches Some(q) && crate::record_gate::quality_view(q) == crate::record_gate::record_quality(
        b.facts,
    )
}

} // verus!

verus! {

pub(crate) fn frames_within_all(frames: &Vec<LateFrame>, d: u64) -> (out: Vec<LateFrame>)
    ensures
        out@ == frames_within(frames@, d),
{
    let mut out: Vec<LateFrame> = Vec::new();
    let mut i: usize = 0;
    assert(frames@.subrange(0, 0) == Seq::<LateFrame>::empty());
    while i < frames.len()
        invariant
            i <= frames@.len(),
            out@ == frames_within(frames@.subrange(0, i as int), d),
        decreases frames@.len() - i,
    {
        assert(frames@.subrange(0, i + 1).drop_last() == frames@.subrange(0, i as int));
        let f = frames[i];
        if f.t_ms <= d {
            out.push(f);
        }
        i = i + 1;
    }
    assert(frames@.subrange(0, frames@.len() as int) == frames@);
    out
}

fn frames_within_exec(frames: &Vec<LateFrame>, d: u64, n: usize) -> (out: Vec<LateFrame>)
    ensures
        out@ == first_n(frames_within(frames@, d), n as int),
{
    let mut out = frames_within_all(frames, d);
    let ghost all = out@;
    out.truncate(n);
    proof {
        if n as int >= all.len() {
            assert(all.subrange(0, all.len() as int) == all);
        }
    }
    out
}

pub(crate) fn frame_times_exec(frames: &Vec<LateFrame>) -> (out: Vec<u64>)
    ensures
        out@ == frame_times(frames@),
{
    let mut out: Vec<u64> = Vec::new();
    let mut i: usize = 0;
    while i < frames.len()
        invariant
            i <= frames@.len(),
            out@ == frame_times(frames@.subrange(0, i as int)),
        decreases frames@.len() - i,
    {
        out.push(frames[i].t_ms);
        i = i + 1;
        assert(out@ == frame_times(frames@.subrange(0, i as int)));
    }
    assert(frames@.subrange(0, frames@.len() as int) == frames@);
    out
}

fn increasing_exec(s: &Vec<i64>) -> (b: bool)
    ensures
        b == increasing_i64(s@),
{
    let mut i: usize = 1;
    if s.len() == 0 {
        return true;
    }
    while i < s.len()
        invariant
            1 <= i <= s@.len(),
            increasing_i64(s@.subrange(0, i as int)),
        decreases s@.len() - i,
    {
        if s[i - 1] >= s[i] {
            assert(!increasing_i64(s@)) by {
                assert(s@[i - 1] >= s@[i as int]);
            }
            return false;
        }
        assert forall|a: int, b: int| 0 <= a < b < i + 1 implies #[trigger] s@.subrange(0, i + 1)[a]
            < #[trigger] s@.subrange(0, i + 1)[b] by {
            if b < i {
                assert(s@.subrange(0, i as int)[a] < s@.subrange(0, i as int)[b]);
            } else if a < i - 1 {
                assert(s@.subrange(0, i as int)[a] < s@.subrange(0, i as int)[i - 1]);
            }
        }
        i = i + 1;
    }
    assert(s@.subrange(0, s@.len() as int) == s@);
    true
}

fn slots_factual_exec(s: &Vec<i64>, samples: u64) -> (b: bool)
    ensures
        b == slots_factual(s@, samples),
{
    let mut i: usize = 0;
    while i < s.len()
        invariant
            i <= s@.len(),
            forall|j: int| 0 <= j < i ==> 0 < #[trigger] s@[j] && s@[j] <= samples,
        decreases s@.len() - i,
    {
        let v = s[i];
        if v <= 0 || (v as u64) > samples {
            return false;
        }
        i = i + 1;
    }
    increasing_exec(s)
}

fn frames_match_exec(f: &Vec<LateFrame>, s: &Vec<i64>, rate: u32) -> (b: bool)
    requires
        rate != 0,
        f@.len() == s@.len(),
    ensures
        b == frames_match_slots(f@, s@, rate),
{
    let mut i: usize = 0;
    while i < f.len()
        invariant
            rate != 0,
            f@.len() == s@.len(),
            i <= f@.len(),
            forall|j: int| 0 <= j < i ==> #[trigger] s@[j] >= 0 && f@[j].t_ms == sat_ms(s@[j] as int) / (rate as int),
        decreases f@.len() - i,
    {
        let v = s[i];
        if v < 0 {
            return false;
        }
        let ms: u64 = match (v as u64).checked_mul(1000) {
            Some(m) => m,
            None => u64::MAX,
        };
        if f[i].t_ms != ms / (rate as u64) {
            return false;
        }
        i = i + 1;
    }
    true
}

fn comparison_valid_exec(r: &RecordFile, e: &ExpectedWavFacts, n: usize) -> (b: bool)
    ensures
        b == comparison_valid(*r, *e, n as int),
{
    let c = &r.trace_comparison_slot_positions;
    match r.trace_comparison_resolution {
        Some(ComparisonResolution::ProducerContentExact) => {
            if c.len() != n {
                return false;
            }
            let mut i: usize = 0;
            while i < c.len()
                invariant
                    r.trace_comparison_resolution == Some(ComparisonResolution::ProducerContentExact),
                    c@ == r.trace_comparison_slot_positions@,
                    c@.len() == n,
                    i <= c@.len(),
                    forall|j: int| 0 <= j < i ==> 0 <= #[trigger] c@[j] && c@[j] <= e.expected_duration_samples,
                decreases c@.len() - i,
            {
                if c[i] < 0 || (c[i] as u64) > e.expected_duration_samples {
                    assert(!(0 <= c@[i as int] && c@[i as int] <= e.expected_duration_samples));
                    return false;
                }
                i = i + 1;
            }
            increasing_exec(c)
        },
        Some(ComparisonResolution::RawHostExact) => c.len() == n && increasing_exec(c),
        _ => false,
    }
}

pub(crate) fn times_within_exec(s: &Vec<u64>, d: u64) -> (out: Vec<u64>)
    ensures
        out@ == times_within(s@, d),
{
    let mut out: Vec<u64> = Vec::new();
    let mut i: usize = 0;
    assert(s@.subrange(0, 0) == Seq::<u64>::empty());
    while i < s.len()
        invariant
            i <= s@.len(),
            out@ == times_within(s@.subrange(0, i as int), d),
        decreases s@.len() - i,
    {
        assert(s@.subrange(0, i + 1).drop_last() == s@.subrange(0, i as int));
        if s[i] <= d {
            out.push(s[i]);
        }
        i = i + 1;
    }
    assert(s@.subrange(0, s@.len() as int) == s@);
    out
}

proof fn lemma_silence_count_bound(s: Seq<LateFrame>)
    ensures
        silence_count(s) <= s.len(),
    decreases s.len(),
{
    if s.len() > 0 {
        lemma_silence_count_bound(s.drop_last());
    }
}

fn silence_count_exec(f: &Vec<LateFrame>) -> (c: u64)
    ensures
        c == silence_count(f@),
{
    let mut c: u64 = 0;
    let mut i: usize = 0;
    assert(f@.subrange(0, 0) == Seq::<LateFrame>::empty());
    while i < f.len()
        invariant
            i <= f@.len(),
            c == silence_count(f@.subrange(0, i as int)),
        decreases f@.len() - i,
    {
        assert(f@.subrange(0, i + 1).drop_last() == f@.subrange(0, i as int));
        proof {
            lemma_silence_count_bound(f@.subrange(0, i as int));
        }
        if f[i].explicit_silence {
            c = c + 1;
        }
        i = i + 1;
    }
    assert(f@.subrange(0, f@.len() as int) == f@);
    c
}

fn unreconcilable_exec(v: &Vec<String>) -> (out: Vec<String>)
    ensures
        crate::path_model::strs_view(out@) == unreconcilable(crate::path_model::strs_view(v@)),
{
    let mut out: Vec<String> = Vec::new();
    let mut i: usize = 0;
    assert(crate::path_model::strs_view(v@.subrange(0, 0)) == Seq::<Seq<char>>::empty());
    while i < v.len()
        invariant
            i <= v@.len(),
            crate::path_model::strs_view(out@) == unreconcilable(crate::path_model::strs_view(v@.subrange(0, i as int))),
        decreases v@.len() - i,
    {
        let ghost pre = crate::path_model::strs_view(v@.subrange(0, i as int));
        let ghost nxt = crate::path_model::strs_view(v@.subrange(0, i + 1));
        assert(nxt.drop_last() == pre);
        assert(nxt.last() == v@[i as int]@);
        if !crate::plugin_data::late_expected_reconcilable_reason(v[i].as_str()) {
            let ghost before = out@;
            out.push(crate::path_model::copy_string(&v[i]));
            assert(crate::path_model::strs_view(out@) == crate::path_model::strs_view(before).push(v@[i as int]@));
        }
        i = i + 1;
    }
    assert(v@.subrange(0, v@.len() as int) == v@);
    out
}

fn trimmed_nonblank(o: &Option<String>) -> (r: Option<String>)
    ensures
        crate::plugin_data::opt_view(r) == crate::plugin_data::trimmed_session(crate::plugin_data::opt_view(*o)),
{
    match o {
        Some(s) => {
            let t = crate::plugin_data::trim_text(s.as_str());
            if t.as_str().is_empty() {
                None
            } else {
                Some(t)
            }
        },
        None => None,
    }
}

} // verus!

verus! {

fn trim_record(r: &mut RecordFile, e: &ExpectedWavFacts, d: u64, n: usize)
    requires
        late_duration_ms(*e) == Some(d),
        frame_budget(*e) == Some(n as int),
    ensures
        trim_applied(*old(r), *final(r), *e),
        identity_kept(*old(r), *final(r)),
        binding_kept(*old(r), *final(r)),
        publication_kept(*old(r), *final(r)),
{
    let ghost a = *r;
    r.frames = frames_within_exec(&r.frames, d, n);
    let ghost slots_before = r.facts.trace.trace_slot_positions@;
    r.facts.trace.trace_slot_positions.truncate(n);
    proof {
        if n as int == slots_before.len() {
            assert(slots_before.subrange(0, n as int) == slots_before);
        }
    }
    r.facts.trace.frame_t_ms = frame_times_exec(&r.frames);
    r.facts.side.frame_count = r.frames.len() as u64;
}

fn bind_record(r: &mut RecordFile, e: &ExpectedWavFacts, d: u64, n: usize, Ghost(a): Ghost<RecordFile>)
    requires
        late_duration_ms(*e) == Some(d),
        frame_budget(*e) == Some(n as int),
        trim_applied(a, *old(r), *e),
        identity_kept(a, *old(r)),
        binding_kept(a, *old(r)),
        publication_kept(a, *old(r)),
    ensures
        trim_applied(a, *final(r), *e),
        identity_kept(a, *final(r)),
        binding_applied(a, *final(r), *e),
        publication_kept(a, *final(r)),
{
    let kept = r.frames.len();
    if !comparison_valid_exec(r, e, kept) {
        r.trace_comparison_resolution = None;
        r.trace_comparison_slot_positions.clear();
    }
    let psb = match &r.psb_snapshot_t_ms {
        Some(p) => Some(times_within_exec(p, d)),
        None => None,
    };
    r.psb_snapshot_t_ms = psb;
    let kept64 = kept as u64;
    let prior = match &r.facts.trace.trace_diagnostics {
        Some(dg) => dg.raw_trace_count,
        None => kept64,
    };
    let raw = if prior >= kept64 {
        prior
    } else {
        kept64
    };
    let silence = silence_count_exec(&r.frames);
    let frames_48k = crate::plugin_data::u128_to_u64_saturating(
        (e.expected_duration_samples as u128) * 48_000 / (e.expected_sample_rate as u128),
    );
    let host = match &r.facts.trace.bounce_take {
        Some(t) => match (t.host_start_position_samples, t.host_end_position_samples) {
            (Some(s), Some(x)) => Some((s, x)),
            _ => None,
        },
        None => None,
    };
    r.facts.expected_wav = Some(copy_expected(e));
    r.facts.trace.expected_wav_time_reference_samples = e.wav_time_reference_samples;
    r.bounce_marker_duration_samples = e.expected_duration_samples;
    r.facts.trace.bounce_take = Some(
        crate::plugin_data::BounceTake {
            source: "expected_wav_duration_native".to_owned(),
            time_axis: "native_samples".to_owned(),
            alignment_status: "sample_count_ready".to_owned(),
            sample_rate: e.expected_sample_rate,
            wav_start_sample: 0,
            wav_end_sample: e.expected_duration_samples,
            duration_samples: e.expected_duration_samples,
            duration_frames_48k: frames_48k,
            start_t_ms: 0,
            end_t_ms: d,
            trace_sample_count: raw,
            frame_count: kept64,
            host_start_position_samples: match host {
                Some(p) => Some(p.0),
                None => None,
            },
            host_end_position_samples: match host {
                Some(p) => Some(p.1),
                None => None,
            },
        },
    );
    let ghost at_coverage = r.facts.trace;
    let mapped = crate::record_gate::latency_mapped_trace_coverage(
        &r.facts.trace,
        e.expected_duration_samples,
        e.expected_sample_rate,
    );
    let budget = n as u64;
    let (expected_frames, measured_frames, missing) = match mapped {
        Some(c) => (c.expected_frame_count, c.measured_frame_count, c.missing_slots),
        None => (budget, kept64, if budget >= kept64 {
            budget - kept64
        } else {
            0
        }),
    };
    r.facts.trace.trace_diagnostics = Some(
        crate::plugin_data::TraceDiagnostics {
            raw_trace_count: raw,
            expected_frame_count: expected_frames,
            measured_frame_count: measured_frames,
            missing_slots: missing,
            explicit_silence_frame_count: silence,
        },
    );
    assert(with_diagnostics(r.facts.trace, a.facts.trace.trace_diagnostics) == at_coverage);
}

fn publish_record(
    r: &mut RecordFile,
    e: &ExpectedWavFacts,
    basis: &str,
    capture_basis: &str,
    Ghost(a): Ghost<RecordFile>,
) -> (res: bool)
    requires
        frame_budget(*e) is Some,
        trim_applied(a, *old(r), *e),
        identity_kept(a, *old(r)),
        binding_applied(a, *old(r), *e),
        publication_kept(a, *old(r)),
    ensures
        trim_applied(a, *final(r), *e),
        identity_kept(a, *final(r)),
        binding_applied(a, *final(r), *e),
        binding_ids(a, *e) is None ==> !res && publication_kept(a, *final(r)),
        binding_ids(a, *e) is Some ==> publication_applied(a, *final(r), *e, basis@, capture_basis@) && res == (
        crate::record_gate::side_visibility_reasons(final(r).facts.side).len() == 0),
{
    let session = match trimmed_nonblank(&r.facts.side.record_session_id) {
        Some(s) => s,
        None => return false,
    };
    let hash = match trimmed_nonblank(&e.wav_hash) {
        Some(h) => h,
        None => return false,
    };
    let missing = match &r.facts.trace.trace_diagnostics {
        Some(dg) => dg.missing_slots,
        None => 0,
    };
    r.facts.trace_axis = crate::record_gate::TraceAxis::WavClock;
    r.facts.trace_wav_reference = Some(
        crate::plugin_data::TraceWavReference {
            basis: basis.to_owned(),
            capture_basis: capture_basis.to_owned(),
            start_sample: 0,
            end_sample: e.expected_duration_samples,
            sample_rate: e.expected_sample_rate,
            record_session_id: session,
            bounce_id: crate::path_model::copy_string(&e.bounce_id),
            wav_hash: hash,
        },
    );
    r.facts.canonical_wav_reference = true;
    let mut reasons = unreconcilable_exec(&r.facts.integrity_reasons);
    if missing > 0 {
        let ghost before = reasons@;
        reasons.push("missing_trace_slots".to_owned());
        assert(crate::path_model::strs_view(reasons@) == crate::path_model::strs_view(before).push(
            "missing_trace_slots"@,
        ));
    }
    r.facts.integrity_reasons = reasons;
    r.facts.integrity_degraded = r.dropped_samples > 0 || r.facts.integrity_reasons.len() > 0;
    r.facts.side.validity = !r.facts.integrity_degraded;
    r.facts.commit_status = Some("committed".to_owned());
    r.record_quality = Some(crate::record_gate::refresh_record_quality(&r.facts));
    let ghost b = *r;
    assert(crate::path_model::strs_view(b.facts.integrity_reasons@) == unreconcilable(
        crate::path_model::strs_view(a.facts.integrity_reasons@),
    ) + crate::record_gate::reason_if(b.facts.trace.trace_diagnostics->0.missing_slots > 0, "missing_trace_slots"@));
    assert(b.record_quality matches Some(q) && crate::record_gate::quality_view(q) == crate::record_gate::record_quality(
        b.facts,
    ));
    let ghost ids = binding_ids(a, *e)->0;
    assert(b.facts.trace_wav_reference matches Some(w) && w.record_session_id@ == ids.0);
    crate::record_gate::side_visibility_failure_reasons(&r.facts.side).len() == 0
}

/// What the late binding of `e` does to a Record `a`, giving `b` and the result `res`: nothing
/// when the Record cannot take the WAV; otherwise the frames are cut to the WAV and, when they
/// fit it, the take and reference are rebound and the side is published when it can be.
pub open spec fn late_normalized(
    a: RecordFile,
    b: RecordFile,
    e: ExpectedWavFacts,
    basis: Seq<char>,
    capture_basis: Seq<char>,
    res: bool,
) -> bool {
    &&& !(late_eligible(a, e) && frame_budget(e) is Some) ==> !res && b == a
    &&& late_eligible(a, e) && frame_budget(e) is Some ==> {
        &&& identity_kept(a, b)
        &&& trim_applied(a, b, e)
        &&& if !shape_ok(a, e) {
            !res && binding_kept(a, b) && publication_kept(a, b)
        } else {
            &&& binding_applied(a, b, e)
            &&& if binding_ids(a, e) is None {
                !res && publication_kept(a, b)
            } else {
                &&& publication_applied(a, b, e, basis, capture_basis)
                &&& res == (crate::record_gate::side_visibility_reasons(b.facts.side).len() == 0)
            }
        }
    }
}

/// Binds a closed Record to expected WAV metadata that arrived after it. When the WAV may own
/// the Record and holds at least one TRACE frame, the Record's frames and slots are cut to the
/// WAV; when they then form a factual sparse WAV lattice, the comparison proof, PSB
/// snapshots, expected WAV, bounce take and diagnostics are rebound to the WAV; when the
/// Record's session id and the WAV's hash are not blank, the Record moves to the WAV axis with
/// a canonical reference built on `basis` and `capture_basis`, keeps only the integrity
/// reasons a late binding cannot clear, is committed, and gets its quality summary. Returns
/// whether all of that happened and the side can then be shown.
pub fn normalize_late_expected_record(
    r: &mut RecordFile,
    e: &ExpectedWavFacts,
    basis: &str,
    capture_basis: &str,
) -> (res: bool)
    ensures
        late_normalized(*old(r), *final(r), *e, basis@, capture_basis@, res),
{
    let ghost a = *r;
    let latched = latched_exec(r, e);
    if (!latched && !late_expected_can_own_record(r, e))
        || !crate::plugin_data::late_expected_prior_reasons_are_reconcilable(&r.facts.integrity_reasons) {
        return false;
    }
    let d = match crate::plugin_data::expected_wav_duration_ms(e.expected_sample_rate, e.expected_duration_samples) {
        Some(d) => d,
        None => return false,
    };
    let budget: u64 = d / 100;
    if budget == 0 || budget > usize::MAX as u64 {
        return false;
    }
    let n = budget as usize;
    assert(late_duration_ms(*e) == Some(d));
    assert(frame_budget(*e) == Some(n as int));
    trim_record(r, e, d, n);
    if r.facts.trace.trace_slot_positions.len() != r.frames.len() {
        return false;
    }
    if !slots_factual_exec(&r.facts.trace.trace_slot_positions, e.expected_duration_samples) || !frames_match_exec(
        &r.frames,
        &r.facts.trace.trace_slot_positions,
        e.expected_sample_rate,
    ) {
        return false;
    }
    bind_record(r, e, d, n, Ghost(a));
    publish_record(r, e, basis, capture_basis, Ghost(a))
}

} // verus!

verus! {

/// The Record is already bound to exactly this expected WAV: it latched it, its take is the
/// WAV's own sample-count take, its quality summary has the WAV ready and the side usable, and
/// it carries a canonical WAV reference.
pub open spec fn record_is_aligned(r: RecordFile, e: ExpectedWavFacts) -> bool {
    &&& opt_expected_view(r.facts.expected_wav) == Some(expected_view(e))
    &&& late_duration_ms(e) is Some
    &&& r.facts.trace.bounce_take matches Some(t) && {
        &&& t.source@ == "expected_wav_duration_native"@
        &&& t.sample_rate == e.expected_sample_rate
        &&& t.duration_samples == e.expected_duration_samples
        &&& t.wav_start_sample == 0
        &&& t.wav_end_sample == e.expected_duration_samples
        &&& t.end_t_ms == late_duration_ms(e)->0
    }
    &&& r.record_quality matches Some(q) && q.expected_wav_ready && q.usable
    &&& r.facts.canonical_wav_reference
}

/// Whether the Record is already bound to exactly this expected WAV.
pub fn late_expected_record_is_aligned(r: &RecordFile, e: &ExpectedWavFacts) -> (b: bool)
    ensures
        b == record_is_aligned(*r, *e),
{
    if !same_expected(&r.facts.expected_wav, &Some(copy_expected(e))) {
        return false;
    }
    let take = match &r.facts.trace.bounce_take {
        Some(t) => t,
        None => return false,
    };
    let d = match crate::plugin_data::expected_wav_duration_ms(e.expected_sample_rate, e.expected_duration_samples) {
        Some(d) => d,
        None => return false,
    };
    let quality_ok = match &r.record_quality {
        Some(q) => q.expected_wav_ready && q.usable,
        None => false,
    };
    str_equal(take.source.as_str(), "expected_wav_duration_native") && take.sample_rate == e.expected_sample_rate
        && take.duration_samples == e.expected_duration_samples && take.wav_start_sample == 0 && take.wav_end_sample
        == e.expected_duration_samples && take.end_t_ms == d && quality_ok && r.facts.canonical_wav_reference
}

/// Both sides of a pair belong to one non-blank session of one project, and the expected WAV
/// is theirs: both latched it, or it is the metadata of the session's claim marker
/// (`claimed`).
pub open spec fn has_exact_claim(
    left: RecordFacts,
    right: RecordFacts,
    e: ExpectedWavFacts,
    claimed: Option<ExpectedWavFacts>,
) -> bool {
    match (
        crate::plugin_data::opt_view(left.side.record_session_id),
        crate::plugin_data::opt_view(right.side.record_session_id),
    ) {
        (Some(ls), Some(rs)) => {
            &&& ls.len() > 0
            &&& ls == rs
            &&& left.side.project_hash@ == right.side.project_hash@
            &&& {
                ||| opt_expected_view(left.expected_wav) == Some(expected_view(e)) && opt_expected_view(
                    right.expected_wav,
                ) == Some(expected_view(e))
                ||| opt_expected_view(claimed) == Some(expected_view(e))
            }
        },
        _ => false,
    }
}

/// Whether the expected WAV is the exact claim of the pair's session. `claimed` is the
/// metadata of the session's claim marker, when it could be read.
pub fn pair_has_exact_expected_claim(
    left: &RecordFacts,
    right: &RecordFacts,
    e: &ExpectedWavFacts,
    claimed: &Option<ExpectedWavFacts>,
) -> (b: bool)
    ensures
        b == has_exact_claim(*left, *right, *e, *claimed),
{
    let (ls, rs) = match (&left.side.record_session_id, &right.side.record_session_id) {
        (Some(l), Some(r)) => (l, r),
        _ => return false,
    };
    if ls.as_str().is_empty() || !str_equal(ls.as_str(), rs.as_str()) || !str_equal(
        left.side.project_hash.as_str(),
        right.side.project_hash.as_str(),
    ) {
        return false;
    }
    let own = Some(copy_expected(e));
    if same_expected(&left.expected_wav, &own) && same_expected(&right.expected_wav, &own) {
        return true;
    }
    same_expected(claimed, &own)
}

/// A Record that the late binding accepted is aligned with that expected WAV, so the same
/// WAV is never bound to it twice.
pub proof fn lemma_accepted_binding_is_aligned(
    a: RecordFile,
    b: RecordFile,
    e: ExpectedWavFacts,
    basis: Seq<char>,
    capture_basis: Seq<char>,
)
    requires
        late_eligible(a, e),
        frame_budget(e) is Some,
        shape_ok(a, e),
        binding_ids(a, e) is Some,
        identity_kept(a, b),
        binding_applied(a, b, e),
        publication_applied(a, b, e, basis, capture_basis),
        crate::record_gate::side_visibility_reasons(b.facts.side).len() == 0,
    ensures
        record_is_aligned(b, e),
{
    reveal_strlit("committed");
    reveal_strlit("failed");
    assert("committed"@ != "failed"@) by {
        assert("committed"@[0] != "failed"@[0]);
    }
}

} // verus!

verus! {

/// What a WAV-start clock plan gives one side of a pair: its frames rebased on the WAV, the
/// WAV position of each frame's slot, the comparison slots, the raw host slots, the producer
/// position at which the WAV starts (when it is proven) and the name of its clock model.
#[derive(Debug, Clone)]
pub struct SideClockPlan {
    pub frames: Vec<LateFrame>,
    pub wav_slots: Vec<i64>,
    pub comparison_slots: Vec<i64>,
    pub raw_host_slots: Vec<i64>,
    pub origin_position_samples: Option<i64>,
    pub clock_model: String,
}

/// The plan that puts both sides of a pair on the expected WAV's start: the basis it was built
/// on, whether it proves an exact producer clock, how the comparison slots are proven, and
/// each side's part.
#[derive(Debug, Clone)]
pub struct WavStartClockPlan {
    pub start_basis: String,
    pub exact: bool,
    pub comparison_resolution: Option<ComparisonResolution>,
    pub pre: SideClockPlan,
    pub post: SideClockPlan,
}

/// The WAV's length in samples as an `i64`, clamped.
pub open spec fn wav_len_i64(e: ExpectedWavFacts) -> i64 {
    if e.expected_duration_samples <= i64::MAX {
        e.expected_duration_samples as i64
    } else {
        i64::MAX
    }
}

/// The plan proves an exact clock and gives both sides their WAV start.
pub open spec fn plan_binds_marks(plan: WavStartClockPlan) -> bool {
    plan.exact && plan.pre.origin_position_samples is Some && plan.post.origin_position_samples is Some
}

/// The plan's part for the side `r`.
pub open spec fn side_plan(r: RecordFile, plan: WavStartClockPlan) -> SideClockPlan {
    if r.facts.side.role == Role::Pre {
        plan.pre
    } else {
        plan.post
    }
}

/// `b` is `a` rebuilt on its part `p` of `plan` for the WAV `e`: the frames, their times and
/// count, and the WAV slots are the plan's; the pair's start basis is the plan's and the clock
/// resolution is the side's clock model; the comparison proof is the plan's (or none); the raw
/// host slots are kept when there is one per frame; the provisional pair offset and score are
/// dropped. An exact plan moves a TRACE clock onto the WAV (origin, end, rate) when the side
/// has a WAV start, and, when both sides have one, binds every MARK to the WAV; any other plan
/// drops the TRACE clock, which it does not prove.
pub open spec fn rebound(a: RecordFile, b: RecordFile, p: SideClockPlan, plan: WavStartClockPlan, e: ExpectedWavFacts) -> bool {
    &&& b == RecordFile {
        frames: b.frames,
        facts: RecordFacts {
            side: SideFacts { frame_count: b.facts.side.frame_count, ..a.facts.side },
            trace: TraceFacts {
                frame_t_ms: b.facts.trace.frame_t_ms,
                trace_slot_positions: b.facts.trace.trace_slot_positions,
                trace_clock_resolution: b.facts.trace.trace_clock_resolution,
                trace_clock_origin_position_samples: b.facts.trace.trace_clock_origin_position_samples,
                ..a.facts.trace
            },
            trace_clock: b.facts.trace_clock,
            ..a.facts
        },
        trace_pair_wav_start_basis: b.trace_pair_wav_start_basis,
        trace_comparison_resolution: b.trace_comparison_resolution,
        trace_comparison_slot_positions: b.trace_comparison_slot_positions,
        trace_raw_host_slot_positions: b.trace_raw_host_slot_positions,
        trace_pair_offset_samples: None,
        trace_pair_alignment_scored: false,
        annotations: b.annotations,
        ..a
    }
    &&& b.frames@ == p.frames@
    &&& b.facts.trace.frame_t_ms@ == frame_times(p.frames@)
    &&& b.facts.side.frame_count == p.frames@.len()
    &&& b.facts.trace.trace_slot_positions@ == p.wav_slots@
    &&& crate::plugin_data::opt_view(b.trace_pair_wav_start_basis) == Some(plan.start_basis@)
    &&& crate::plugin_data::opt_view(b.facts.trace.trace_clock_resolution) == Some(p.clock_model@)
    &&& b.trace_comparison_resolution == plan.comparison_resolution
    &&& b.trace_comparison_slot_positions@ == (if plan.comparison_resolution is Some {
        p.comparison_slots@
    } else {
        Seq::empty()
    })
    &&& b.trace_raw_host_slot_positions@ == (if p.raw_host_slots@.len() == p.frames@.len() {
        p.raw_host_slots@
    } else {
        Seq::empty()
    })
    &&& if plan.exact {
        match (a.facts.trace_clock, p.origin_position_samples) {
            (Some(c), Some(o)) => {
                &&& b.facts.trace_clock == Some(
                    TraceClock {
                        origin_position_samples: o,
                        end_position_samples: sat_add_i64(o, wav_len_i64(e)) as i64,
                        sample_rate: e.expected_sample_rate,
                        ..c
                    },
                )
                &&& b.facts.trace.trace_clock_origin_position_samples == Some(o)
            },
            _ => {
                &&& b.facts.trace_clock == a.facts.trace_clock
                &&& b.facts.trace.trace_clock_origin_position_samples
                    == a.facts.trace.trace_clock_origin_position_samples
            },
        }
    } else {
        &&& b.facts.trace_clock is None
        &&& b.facts.trace.trace_clock_origin_position_samples is None
    }
    &&& b.annotations@ == (if plan_binds_marks(plan) {
        a.annotations@.map_values(
            |x: crate::plugin_data::Annotation|
                crate::annotations::bound_annotation(
                    x,
                    p.origin_position_samples->0,
                    e.expected_duration_samples,
                ),
        )
    } else {
        a.annotations@
    })
}

/// The pair can be rebuilt on a WAV-start plan: one PRE and one POST on one non-zero sample
/// rate, the WAV's, and a WAV at least one TRACE frame long.
pub open spec fn pair_rebind_ok(l: RecordFile, r: RecordFile, e: ExpectedWavFacts) -> bool {
    &&& l.facts.side.sample_rate != 0
    &&& l.facts.side.sample_rate == r.facts.side.sample_rate
    &&& l.facts.side.sample_rate == e.expected_sample_rate
    &&& frame_budget(e) is Some
    &&& crate::pair_gate::pair_order(l.facts, r.facts) is Some
}

/// The result the late binding of `e` reports for a Record `a` that it turned into `b`.
pub open spec fn late_result(a: RecordFile, b: RecordFile, e: ExpectedWavFacts) -> bool {
    &&& late_eligible(a, e)
    &&& frame_budget(e) is Some
    &&& shape_ok(a, e)
    &&& binding_ids(a, e) is Some
    &&& crate::record_gate::side_visibility_reasons(b.facts.side).len() == 0
}

fn copy_i64s(v: &Vec<i64>) -> (r: Vec<i64>)
    ensures
        r@ == v@,
{
    let mut out: Vec<i64> = Vec::new();
    let mut i: usize = 0;
    while i < v.len()
        invariant
            i <= v@.len(),
            out@ == v@.subrange(0, i as int),
        decreases v@.len() - i,
    {
        out.push(v[i]);
        i = i + 1;
    }
    out
}

fn copy_frames_with_times(v: &Vec<LateFrame>) -> (r: (Vec<LateFrame>, Vec<u64>))
    ensures
        r.0@ == v@,
        r.1@ == frame_times(v@),
{
    let mut out: Vec<LateFrame> = Vec::new();
    let mut times: Vec<u64> = Vec::new();
    let mut i: usize = 0;
    while i < v.len()
        invariant
            i <= v@.len(),
            out@ == v@.subrange(0, i as int),
            times@ == frame_times(v@.subrange(0, i as int)),
        decreases v@.len() - i,
    {
        out.push(v[i]);
        times.push(v[i].t_ms);
        assert(times@ =~= frame_times(v@.subrange(0, i + 1)));
        i = i + 1;
    }
    (out, times)
}

fn rebuild_side(r: &mut RecordFile, p: &SideClockPlan, plan: &WavStartClockPlan, e: &ExpectedWavFacts, bind_marks: bool)
    requires
        bind_marks == plan_binds_marks(*plan),
        bind_marks ==> p.origin_position_samples is Some,
    ensures
        rebound(*old(r), *final(r), *p, *plan, *e),
{
    let (frames, times) = copy_frames_with_times(&p.frames);
    r.frames = frames;
    r.facts.trace.frame_t_ms = times;
    r.facts.side.frame_count = p.frames.len() as u64;
    r.facts.trace.trace_slot_positions = copy_i64s(&p.wav_slots);
    r.trace_pair_wav_start_basis = Some(copy_string(&plan.start_basis));
    r.facts.trace.trace_clock_resolution = Some(copy_string(&p.clock_model));
    match plan.comparison_resolution {
        Some(res) => {
            r.trace_comparison_resolution = Some(res);
            r.trace_comparison_slot_positions = copy_i64s(&p.comparison_slots);
        },
        None => {
            r.trace_comparison_resolution = None;
            r.trace_comparison_slot_positions = Vec::new();
        },
    }
    r.trace_raw_host_slot_positions = if p.raw_host_slots.len() == p.frames.len() {
        copy_i64s(&p.raw_host_slots)
    } else {
        Vec::new()
    };
    r.trace_pair_offset_samples = None;
    r.trace_pair_alignment_scored = false;
    if plan.exact {
        match p.origin_position_samples {
            Some(o) => {
                let mut clock: Option<TraceClock> = None;
                std::mem::swap(&mut clock, &mut r.facts.trace_clock);
                match clock {
                    Some(mut c) => {
                        let len: i64 = if e.expected_duration_samples <= i64::MAX as u64 {
                            e.expected_duration_samples as i64
                        } else {
                            i64::MAX
                        };
                        c.origin_position_samples = o;
                        c.end_position_samples = saturating_add_i64(o, len);
                        c.sample_rate = e.expected_sample_rate;
                        r.facts.trace_clock = Some(c);
                        r.facts.trace.trace_clock_origin_position_samples = Some(o);
                    },
                    None => {
                        r.facts.trace_clock = None;
                    },
                }
            },
            None => {},
        }
    } else {
        r.facts.trace_clock = None;
        r.facts.trace.trace_clock_origin_position_samples = None;
    }
    if bind_marks {
        let o = match p.origin_position_samples {
            Some(o) => o,
            None => 0,
        };
        crate::annotations::bind_annotation_marks_to_wav(&mut r.annotations, o, e.expected_duration_samples);
    }
}

/// Rebinds a late-bound pair to the expected WAV `e` on the WAV-start clock plan built for it,
/// then binds each side to `e`. The pair must be one PRE and one POST on the WAV's non-zero
/// sample rate, and the WAV at least one TRACE frame long; otherwise nothing changes. Each
/// side is rebuilt on its part of the plan ([`rebound`]); an exact plan that lacks a side's
/// WAV start stops there and fails; otherwise the left side is bound to `e` as
/// `normalize_late_expected_record` binds it, and, when that succeeds, the right side too.
/// Returns whether both sides were bound and can be shown.
pub fn normalize_late_expected_pair(
    left: &mut RecordFile,
    right: &mut RecordFile,
    e: &ExpectedWavFacts,
    plan: &WavStartClockPlan,
    basis: &str,
    capture_basis: &str,
) -> (res: bool)
    ensures
        !pair_rebind_ok(*old(left), *old(right), *e) ==> !res && *final(left) == *old(left) && *final(right)
            == *old(right),
        pair_rebind_ok(*old(left), *old(right), *e) ==> exists|ml: RecordFile, mr: RecordFile|
            #![trigger rebound(*old(left), ml, side_plan(*old(left), *plan), *plan, *e), rebound(*old(right), mr, side_plan(*old(right), *plan), *plan, *e)]
            {
                &&& rebound(*old(left), ml, side_plan(*old(left), *plan), *plan, *e)
                &&& rebound(*old(right), mr, side_plan(*old(right), *plan), *plan, *e)
                &&& if plan.exact && !plan_binds_marks(*plan) {
                    !res && *final(left) == ml && *final(right) == mr
                } else {
                    &&& late_normalized(ml, *final(left), *e, basis@, capture_basis@, late_result(ml, *final(left), *e))
                    &&& if late_result(ml, *final(left), *e) {
                        late_normalized(mr, *final(right), *e, basis@, capture_basis@, res)
                    } else {
                        !res && *final(right) == mr
                    }
                }
            },
{
    let sr = left.facts.side.sample_rate;
    if sr == 0 || sr != right.facts.side.sample_rate || sr != e.expected_sample_rate {
        return false;
    }
    let d = match crate::plugin_data::expected_wav_duration_ms(e.expected_sample_rate, e.expected_duration_samples) {
        Some(d) => d,
        None => return false,
    };
    let budget: u64 = d / 100;
    if budget == 0 || budget > usize::MAX as u64 {
        return false;
    }
    assert(late_duration_ms(*e) == Some(d));
    let left_is_pre = match (left.facts.side.role, right.facts.side.role) {
        (Role::Pre, Role::Post) => true,
        (Role::Post, Role::Pre) => false,
        _ => return false,
    };
    let bind_marks = plan.exact && plan.pre.origin_position_samples.is_some()
        && plan.post.origin_position_samples.is_some();
    if left_is_pre {
        rebuild_side(left, &plan.pre, plan, e, bind_marks);
        rebuild_side(right, &plan.post, plan, e, bind_marks);
    } else {
        rebuild_side(left, &plan.post, plan, e, bind_marks);
        rebuild_side(right, &plan.pre, plan, e, bind_marks);
    }
    let ghost ml = *left;
    let ghost mr = *right;
    if plan.exact && !bind_marks {
        return false;
    }
    let ok_left = normalize_late_expected_record(left, e, basis, capture_basis);
    assert(ok_left == late_result(ml, *left, *e));
    if !ok_left {
        return false;
    }
    normalize_late_expected_record(right, e, basis, capture_basis)
}

} // verus!
