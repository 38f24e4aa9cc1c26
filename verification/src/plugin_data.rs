//! Record artifacts: roles, artifact path layout and the small decisions made while closing,
//! pairing and reconciling Record files.
use vstd::prelude::*;

use crate::path_model::{path_has_prefix, str_equal, PathModel};
use crate::text::{chars_of, push_str, string_from_chars};

verus! {

/// Plugin role (PRE / POST). Used for the path layout and the `role` field.
#[derive(Debug, Clone, Copy, PartialEq, Eq, Structural)]
pub enum Role {
    Pre,
    Post,
}

impl Role {
    /// Directory name of the role (lowercase).
    pub fn dir_name(self) -> (name: &'static str)
        ensures
            name@ == role_dir_name(self),
    {
        proof {
            reveal_strlit("pre");
            reveal_strlit("post");
        }
        match self {
            Role::Pre => "pre",
            Role::Post => "post",
        }
    }

    /// Value of the JSON `role` field (uppercase).
    pub fn as_str(self) -> (name: &'static str)
        ensures
            name@ == role_field_name(self),
    {
        proof {
            reveal_strlit("PRE");
            reveal_strlit("POST");
        }
        match self {
            Role::Pre => "PRE",
            Role::Post => "POST",
        }
    }
}

pub open spec fn role_dir_name(role: Role) -> Seq<char> {
    match role {
        Role::Pre => seq!['p', 'r', 'e'],
        Role::Post => seq!['p', 'o', 's', 't'],
    }
}

pub open spec fn role_field_name(role: Role) -> Seq<char> {
    match role {
        Role::Pre => seq!['P', 'R', 'E'],
        Role::Post => seq!['P', 'O', 'S', 'T'],
    }
}

} // verus!

verus! {

/// Lifecycle state of a Record file.
#[derive(Debug, Clone, Copy, PartialEq, Eq, Structural)]
pub enum Status {
    Active,
    Closed,
}

/// Sample-clock identity of a Record MARK.
#[derive(Debug, Clone, PartialEq, Eq)]
pub struct AnnotationMark {
    pub schema_version: String,
    pub id: String,
    pub basis: String,
    pub producer_position_samples: i64,
    pub clock_source: String,
    pub wav_position_samples: Option<u64>,
}

/// A user MARK. `mark == None` is the older NOTE form.
#[derive(Debug, Clone, PartialEq, Eq)]
pub struct Annotation {
    /// ISO 8601 wall clock.
    pub t: String,
    pub memo: String,
    pub mark: Option<AnnotationMark>,
}

/// Bounce marker.
#[derive(Debug, Clone)]
pub struct BounceMarker {
    pub wall_clock_start: String,
    pub wall_clock_end: String,
    pub duration_samples: u64,
    pub first_block_hash: String,
    pub last_block_hash: String,
}

/// The completed take matched against the WAV: WAV samples `0..duration_samples`.
/// `duration_frames_48k` is its length on the internal 48 kHz measurement axis.
#[derive(Debug, Clone)]
pub struct BounceTake {
    pub source: String,
    pub time_axis: String,
    pub alignment_status: String,
    pub sample_rate: u32,
    pub wav_start_sample: u64,
    pub wav_end_sample: u64,
    pub duration_samples: u64,
    pub duration_frames_48k: u64,
    pub start_t_ms: u64,
    pub end_t_ms: u64,
    pub trace_sample_count: u64,
    pub frame_count: u64,
    /// Output-presentation range corresponding to WAV samples `0..N`, where the host gave one.
    pub host_start_position_samples: Option<i64>,
    pub host_end_position_samples: Option<i64>,
}

/// TRACE bake diagnostics: measured silence and missing slots are counted apart.
#[derive(Debug, Clone)]
pub struct TraceDiagnostics {
    pub raw_trace_count: u64,
    pub expected_frame_count: u64,
    pub measured_frame_count: u64,
    pub missing_slots: u64,
    pub explicit_silence_frame_count: u64,
}

impl Default for TraceDiagnostics {
    fn default() -> (d: TraceDiagnostics)
        ensures
            d.raw_trace_count == 0,
            d.expected_frame_count == 0,
            d.measured_frame_count == 0,
            d.missing_slots == 0,
            d.explicit_silence_frame_count == 0,
    {
        TraceDiagnostics {
            raw_trace_count: 0,
            expected_frame_count: 0,
            measured_frame_count: 0,
            missing_slots: 0,
            explicit_silence_frame_count: 0,
        }
    }
}

/// Absolute sample clock every TRACE frame was baked on; `origin_position_samples` is the
/// callback position of `t_ms = 0`.
#[derive(Debug, Clone, PartialEq, Eq)]
pub struct TraceClock {
    pub basis: String,
    pub origin_position_samples: i64,
    pub end_position_samples: i64,
    pub sample_rate: u32,
    pub sources: Vec<String>,
}

/// Presentation latency the host reported.
#[derive(Debug, Clone, PartialEq, Eq, PartialOrd, Ord)]
pub struct HostPresentationLatencyObservation {
    pub source: Option<String>,
    pub input_samples: Option<u32>,
    pub output_samples: Option<u32>,
}

/// Unmodified host render range, kept as a diagnostic.
#[derive(Debug, Clone, Copy, PartialEq, Eq, Structural)]
pub struct HostClockRange {
    pub start_position_samples: i64,
    pub end_position_samples: i64,
}

/// The final TRACE axis bound to the exact WAV selected by Drop.
#[derive(Debug, Clone, PartialEq, Eq)]
pub struct TraceWavReference {
    pub basis: String,
    pub capture_basis: String,
    pub start_sample: u64,
    pub end_sample: u64,
    pub sample_rate: u32,
    pub record_session_id: String,
    pub bounce_id: String,
    pub wav_hash: String,
}

/// Quality summary of a Record: `complete`, `usable_fallback` or `failed`.
#[derive(Debug, Clone, PartialEq, Eq)]
pub struct RecordQuality {
    pub status: String,
    pub complete: bool,
    pub usable: bool,
    pub expected_wav_ready: bool,
    pub sample_count_ready: bool,
    pub trace_slots_complete: bool,
    pub expected_frame_count: u64,
    pub measured_frame_count: u64,
    pub missing_trace_slots: u64,
}

/// The internal measurement timebase of TRACE.
pub const TRACE_TIMEBASE_HZ: u64 = 48_000;

/// `value` clamped to `u64`.
pub open spec fn saturate_u64(value: int) -> int {
    if value > u64::MAX { u64::MAX as int } else { value }
}

/// Length of `samples` at `rate` on a timebase of `per_second` units, rounded down and
/// clamped to `u64`.
pub open spec fn rescaled_duration(samples: nat, rate: nat, per_second: nat) -> int {
    saturate_u64((samples * per_second) as int / rate as int)
}

/// Converts a `u128` to `u64`, clamping at `u64::MAX`.
pub fn u128_to_u64_saturating(value: u128) -> (r: u64)
    ensures
        r == saturate_u64(value as int),
{
    if value > (u64::MAX as u128) {
        u64::MAX
    } else {
        value as u64
    }
}

fn rescale_duration(samples: u64, rate: u32, per_second: u64) -> (r: u64)
    requires
        rate > 0,
    ensures
        r == rescaled_duration(samples as nat, rate as nat, per_second as nat),
{
    assert((samples as u128) * (per_second as u128) <= 0xffff_ffff_ffff_ffff * 0xffff_ffff_ffff_ffff)
        by (nonlinear_arith);
    let wide: u128 = (samples as u128) * (per_second as u128);
    u128_to_u64_saturating(wide / (rate as u128))
}

/// Length of the take in milliseconds, or `None` when its sample rate is 0.
pub fn bounce_take_duration_ms(take: &BounceTake) -> (r: Option<u64>)
    ensures
        take.sample_rate == 0 ==> r is None,
        take.sample_rate != 0 ==> r == Some(
            rescaled_duration(take.duration_samples as nat, take.sample_rate as nat, 1000) as u64,
        ),
{
    if take.sample_rate == 0 {
        return None;
    }
    Some(rescale_duration(take.duration_samples, take.sample_rate, 1000))
}

/// Length of the take on the 48 kHz measurement axis, or `None` when its sample rate is 0.
pub fn bounce_take_duration_frames_48k(take: &BounceTake) -> (r: Option<u64>)
    ensures
        take.sample_rate == 0 ==> r is None,
        take.sample_rate != 0 ==> r == Some(
            rescaled_duration(
                take.duration_samples as nat,
                take.sample_rate as nat,
                TRACE_TIMEBASE_HZ as nat,
            ) as u64,
        ),
{
    if take.sample_rate == 0 {
        return None;
    }
    Some(rescale_duration(take.duration_samples, take.sample_rate, TRACE_TIMEBASE_HZ))
}

/// Length in milliseconds of an expected WAV of `expected_duration_samples` samples at
/// `expected_sample_rate`, or `None` when the rate is 0.
pub fn expected_wav_duration_ms(expected_sample_rate: u32, expected_duration_samples: u64) -> (r:
    Option<u64>)
    ensures
        expected_sample_rate == 0 ==> r is None,
        expected_sample_rate != 0 ==> r == Some(
            rescaled_duration(
                expected_duration_samples as nat,
                expected_sample_rate as nat,
                1000,
            ) as u64,
        ),
{
    if expected_sample_rate == 0 {
        return None;
    }
    Some(rescale_duration(expected_duration_samples, expected_sample_rate, 1000))
}

} // verus!

verus! {

/// The character views of a sequence of string slices.
pub open spec fn str_views(v: Seq<&str>) -> Seq<Seq<char>> {
    v.map_values(|s: &str| s@)
}

/// `s` with every repeated entry dropped, keeping first occurrences in their order.
pub open spec fn dedup_first(s: Seq<Seq<char>>) -> Seq<Seq<char>>
    decreases s.len(),
{
    if s.len() == 0 {
        Seq::empty()
    } else {
        let d = dedup_first(s.drop_last());
        if d.contains(s.last()) {
            d
        } else {
            d.push(s.last())
        }
    }
}

/// No entry of `s` occurs twice.
pub open spec fn no_duplicates(s: Seq<Seq<char>>) -> bool {
    forall|i: int, j: int| 0 <= i < j < s.len() ==> s[i] != s[j]
}

fn contains_str(v: &Vec<&'static str>, s: &str) -> (r: bool)
    ensures
        r == str_views(v@).contains(s@),
{
    let mut i: usize = 0;
    while i < v.len()
        invariant
            i <= v.len(),
            forall|j: int| 0 <= j < i ==> v@[j]@ != s@,
        decreases v.len() - i,
    {
        if str_equal(v[i], s) {
            assert(str_views(v@)[i as int] == s@);
            return true;
        }
        i = i + 1;
    }
    proof {
        if str_views(v@).contains(s@) {
            let k = choose|k: int| 0 <= k < str_views(v@).len() && str_views(v@)[k] == s@;
            assert(v@[k]@ == s@);
        }
    }
    false
}

/// The reasons with repeats dropped, first occurrences kept in order.
pub fn dedup_reasons(reasons: Vec<&'static str>) -> (out: Vec<&'static str>)
    ensures
        str_views(out@) == dedup_first(str_views(reasons@)),
{
    let mut out: Vec<&'static str> = Vec::new();
    let mut i: usize = 0;
    while i < reasons.len()
        invariant
            i <= reasons.len(),
            str_views(out@) == dedup_first(str_views(reasons@).subrange(0, i as int)),
        decreases reasons.len() - i,
    {
        let r = reasons[i];
        let ghost pre = str_views(reasons@).subrange(0, i as int);
        let ghost next = str_views(reasons@).subrange(0, i + 1);
        assert(next.drop_last() == pre);
        assert(next.last() == r@);
        if !contains_str(&out, r) {
            let ghost before = out@;
            out.push(r);
            assert(str_views(out@) == str_views(before).push(r@));
        }
        i = i + 1;
    }
    assert(str_views(reasons@).subrange(0, reasons@.len() as int) == str_views(reasons@));
    out
}

/// Deduplication leaves no repeated entry.
pub proof fn lemma_dedup_no_duplicates(s: Seq<Seq<char>>)
    ensures
        no_duplicates(dedup_first(s)),
    decreases s.len(),
{
    if s.len() > 0 {
        lemma_dedup_no_duplicates(s.drop_last());
    }
}

/// Deduplication keeps exactly the entries of its input: each entry of the input occurs in
/// the result and each entry of the result occurs in the input.
pub proof fn lemma_dedup_same_entries(s: Seq<Seq<char>>)
    ensures
        forall|x: Seq<char>| s.contains(x) <==> dedup_first(s).contains(x),
    decreases s.len(),
{
    if s.len() > 0 {
        let p = s.drop_last();
        lemma_dedup_same_entries(p);
        let d = dedup_first(p);
        assert forall|x: Seq<char>| s.contains(x) <==> dedup_first(s).contains(x) by {
            let l = s.last();
            assert(forall|y: Seq<char>| d.contains(y) ==> #[trigger] d.push(l).contains(y)) by {
                assert forall|y: Seq<char>| d.contains(y) implies #[trigger] d.push(l).contains(y) by {
                    let m = choose|m: int| 0 <= m < d.len() && d[m] == y;
                    assert(d.push(l)[m] == y);
                }
            }
            assert(d.push(l)[d.len() as int] == l);
            if s.contains(x) {
                let k = choose|k: int| 0 <= k < s.len() && s[k] == x;
                if k < s.len() - 1 {
                    assert(p[k] == x);
                    assert(p.contains(x));
                    assert(d.contains(x));
                } else {
                    assert(x == l);
                }
                assert(dedup_first(s).contains(x));
            }
            if dedup_first(s).contains(x) {
                let k = choose|k: int| 0 <= k < dedup_first(s).len() && dedup_first(s)[k] == x;
                if d.contains(x) {
                    assert(p.contains(x));
                    let m = choose|m: int| 0 <= m < p.len() && p[m] == x;
                    assert(s[m] == x);
                } else {
                    assert(dedup_first(s) == d.push(l));
                    if k < d.len() {
                        assert(d[k] == x);
                        assert(false);
                    }
                    assert(x == l);
                    assert(s[s.len() - 1] == x);
                }
                assert(s.contains(x));
            }
        }
    }
}

/// A sequence without repeats is its own deduplication.
pub proof fn lemma_dedup_of_distinct(s: Seq<Seq<char>>)
    requires
        no_duplicates(s),
    ensures
        dedup_first(s) == s,
    decreases s.len(),
{
    if s.len() > 0 {
        let p = s.drop_last();
        assert(no_duplicates(p));
        lemma_dedup_of_distinct(p);
        if p.contains(s.last()) {
            let k = choose|k: int| 0 <= k < p.len() && p[k] == s.last();
            assert(s[k] == s[s.len() - 1]);
        }
        assert(p.push(s.last()) == s);
    }
}

/// Deduplicating twice gives what deduplicating once gives.
pub proof fn lemma_dedup_idempotent(s: Seq<Seq<char>>)
    ensures
        dedup_first(dedup_first(s)) == dedup_first(s),
{
    lemma_dedup_no_duplicates(s);
    lemma_dedup_of_distinct(dedup_first(s));
}

} // verus!

verus! {

/// Bounce sources whose take is bounded by a sample count.
pub open spec fn sample_count_ready_source(source: Seq<char>) -> bool {
    source == "expected_wav_duration_native"@ || source == "wav_clock_native"@ || source
        == "render_clock_native"@
}

/// Whether a bounce source bounds the take by a sample count.
pub fn bounce_source_is_sample_count_ready(source: &str) -> (r: bool)
    ensures
        r == sample_count_ready_source(source@),
{
    str_equal(source, "expected_wav_duration_native")
        || str_equal(source, "wav_clock_native")
        || str_equal(source, "render_clock_native")
}

/// Integrity reasons that a late expected WAV can resolve: timing and pairing faults that
/// the WAV's sample boundaries settle.
pub open spec fn reconcilable_reason(r: Seq<char>) -> bool {
    ||| r == "validity_false"@
    ||| r == "integrity_degraded"@
    ||| r == "missing_expected_wav_metadata"@
    ||| r == "record_clock_not_wav_bounded"@
    ||| r == "missing_trace_slots"@
    ||| r == "raw_trace_timeline_gap"@
    ||| r == "frame_timeline_gap"@
    ||| r == "sparse_trace_density"@
    ||| r == "record_too_short"@
    ||| r == "bounce_take_duration_mismatch"@
    ||| r == "bounce_take_end_sample_mismatch"@
    ||| r == "bounce_take_end_time_mismatch"@
    ||| r == "bounce_take_48k_duration_mismatch"@
    ||| r == "trace_expected_frame_count_bounce_take_mismatch"@
    ||| r == "trace_frame_count_mismatch"@
    ||| r == "trace_frame_payload_count_mismatch"@
    ||| r == "trace_frame_payload_count_bounce_take_mismatch"@
    ||| r == "trace_slots_not_complete"@
    ||| r == "bounce_take_trace_frame_count_mismatch"@
    ||| r == "bounce_take_frame_payload_count_mismatch"@
    ||| r == "pair_expected_wav_mismatch"@
    ||| r == "pair_bounce_take_source_mismatch"@
    ||| r == "pair_bounce_take_time_axis_mismatch"@
    ||| r == "pair_bounce_take_alignment_mismatch"@
    ||| r == "pair_bounce_take_sample_rate_mismatch"@
    ||| r == "pair_bounce_take_start_sample_mismatch"@
    ||| r == "pair_bounce_take_end_sample_mismatch"@
    ||| r == "pair_bounce_take_duration_mismatch"@
    ||| r == "pair_bounce_take_48k_duration_mismatch"@
    ||| r == "pair_bounce_take_start_time_mismatch"@
    ||| r == "pair_bounce_take_end_time_mismatch"@
    ||| r == "pair_bounce_take_frame_count_mismatch"@
    ||| r == "pair_trace_expected_frame_count_mismatch"@
    ||| r == "pair_trace_measured_frame_count_mismatch"@
}

/// Whether a late expected WAV can resolve the integrity reason `reason`.
pub fn late_expected_reconcilable_reason(reason: &str) -> (r: bool)
    ensures
        r == reconcilable_reason(reason@),
{
    let names: [&'static str; 34] = [
        "validity_false",
        "integrity_degraded",
        "missing_expected_wav_metadata",
        "record_clock_not_wav_bounded",
        "missing_trace_slots",
        "raw_trace_timeline_gap",
        "frame_timeline_gap",
        "sparse_trace_density",
        "record_too_short",
        "bounce_take_duration_mismatch",
        "bounce_take_end_sample_mismatch",
        "bounce_take_end_time_mismatch",
        "bounce_take_48k_duration_mismatch",
        "trace_expected_frame_count_bounce_take_mismatch",
        "trace_frame_count_mismatch",
        "trace_frame_payload_count_mismatch",
        "trace_frame_payload_count_bounce_take_mismatch",
        "trace_slots_not_complete",
        "bounce_take_trace_frame_count_mismatch",
        "bounce_take_frame_payload_count_mismatch",
        "pair_expected_wav_mismatch",
        "pair_bounce_take_source_mismatch",
        "pair_bounce_take_time_axis_mismatch",
        "pair_bounce_take_alignment_mismatch",
        "pair_bounce_take_sample_rate_mismatch",
        "pair_bounce_take_start_sample_mismatch",
        "pair_bounce_take_end_sample_mismatch",
        "pair_bounce_take_duration_mismatch",
        "pair_bounce_take_48k_duration_mismatch",
        "pair_bounce_take_start_time_mismatch",
        "pair_bounce_take_end_time_mismatch",
        "pair_bounce_take_frame_count_mismatch",
        "pair_trace_expected_frame_count_mismatch",
        "pair_trace_measured_frame_count_mismatch",
    ];
    let mut i: usize = 0;
    while i < 34
        invariant
            i <= 34,
            names@ == seq![
                "validity_false",
                "integrity_degraded",
                "missing_expected_wav_metadata",
                "record_clock_not_wav_bounded",
                "missing_trace_slots",
                "raw_trace_timeline_gap",
                "frame_timeline_gap",
                "sparse_trace_density",
                "record_too_short",
                "bounce_take_duration_mismatch",
                "bounce_take_end_sample_mismatch",
                "bounce_take_end_time_mismatch",
                "bounce_take_48k_duration_mismatch",
                "trace_expected_frame_count_bounce_take_mismatch",
                "trace_frame_count_mismatch",
                "trace_frame_payload_count_mismatch",
                "trace_frame_payload_count_bounce_take_mismatch",
                "trace_slots_not_complete",
                "bounce_take_trace_frame_count_mismatch",
                "bounce_take_frame_payload_count_mismatch",
                "pair_expected_wav_mismatch",
                "pair_bounce_take_source_mismatch",
                "pair_bounce_take_time_axis_mismatch",
                "pair_bounce_take_alignment_mismatch",
                "pair_bounce_take_sample_rate_mismatch",
                "pair_bounce_take_start_sample_mismatch",
                "pair_bounce_take_end_sample_mismatch",
                "pair_bounce_take_duration_mismatch",
                "pair_bounce_take_48k_duration_mismatch",
                "pair_bounce_take_start_time_mismatch",
                "pair_bounce_take_end_time_mismatch",
                "pair_bounce_take_frame_count_mismatch",
                "pair_trace_expected_frame_count_mismatch",
                "pair_trace_measured_frame_count_mismatch",
            ],
            forall|j: int| 0 <= j < i ==> names@[j]@ != reason@,
        decreases 34 - i,
    {
        if str_equal(names[i], reason) {
            return true;
        }
        i = i + 1;
    }
    false
}

/// Whether every prior integrity reason is either a lifecycle shutdown or resolvable by a
/// late expected WAV.
pub fn late_expected_prior_reasons_are_reconcilable(reasons: &Vec<String>) -> (r: bool)
    ensures
        r == forall|i: int|
            0 <= i < reasons@.len() ==> (#[trigger] reasons@[i]@ == "lifecycle_shutdown"@
                || reconcilable_reason(reasons@[i]@)),
{
    let mut i: usize = 0;
    while i < reasons.len()
        invariant
            i <= reasons.len(),
            forall|j: int|
                0 <= j < i ==> (#[trigger] reasons@[j]@ == "lifecycle_shutdown"@
                    || reconcilable_reason(reasons@[j]@)),
        decreases reasons.len() - i,
    {
        let reason = reasons[i].as_str();
        if !(str_equal(reason, "lifecycle_shutdown")
            || late_expected_reconcilable_reason(reason)) {
            return false;
        }
        i = i + 1;
    }
    true
}

} // verus!

verus! {

/// Directory of the hidden members of committed pairs.
pub const PAIR_RECORD_MEMBERS_DIR: &'static str = ".pair_committed";

/// Sub-directories of a role directory that hold closed artifacts outside the public shelf.
pub open spec fn is_artifact_subdir(name: Seq<char>) -> bool {
    name == ".pair_committed"@ || name == ".failed"@ || name == ".pair_pending"@
}

/// The role directory of a closed artifact: its parent, or its grandparent when the parent is
/// one of the artifact sub-directories. `None` for the empty path.
pub open spec fn closed_artifact_role_dir(path: Seq<Seq<char>>) -> Option<Seq<Seq<char>>> {
    if path.len() == 0 {
        None
    } else {
        let parent = path.drop_last();
        if parent.len() > 0 && is_artifact_subdir(parent.last()) {
            Some(parent.drop_last())
        } else {
            Some(parent)
        }
    }
}

/// The four places one pair artifact can live in.
#[derive(Debug, Clone)]
pub struct PairPaths {
    pub final_path: PathModel,
    pub member_path: PathModel,
    pub pair_pending_path: PathModel,
    pub failed_path: PathModel,
}

/// The pair paths of the artifact named `name` under `role_dir`.
pub open spec fn pair_paths_in(pp: PairPaths, role_dir: Seq<Seq<char>>, name: Seq<char>) -> bool {
    &&& pp.final_path@ == role_dir.push(name)
    &&& pp.member_path@ == role_dir.push(".pair_committed"@).push(name)
    &&& pp.pair_pending_path@ == role_dir.push(".pair_pending"@).push(name)
    &&& pp.failed_path@ == role_dir.push(".failed"@).push(name)
}

/// The paths of a pair artifact, from any of its closed locations. `None` for the empty path.
pub fn pair_paths_from_closed_artifact_path(path: &PathModel) -> (r: Option<PairPaths>)
    ensures
        r is Some <==> path@.len() > 0,
        r matches Some(pp) ==> pair_paths_in(
            pp,
            closed_artifact_role_dir(path@)->0,
            path@.last(),
        ),
{
    let file_name = match path.file_name() {
        Some(n) => n,
        None => return None,
    };
    let parent = match path.parent() {
        Some(p) => p,
        None => return None,
    };
    let in_subdir = parent.file_name_is(PAIR_RECORD_MEMBERS_DIR) || parent.file_name_is(".failed")
        || parent.file_name_is(".pair_pending");
    let role_dir = if in_subdir {
        match parent.parent() {
            Some(p) => p,
            None => return None,
        }
    } else {
        parent
    };
    proof {
        reveal_strlit(".pair_committed");
    }
    Some(
        PairPaths {
            final_path: role_dir.join(file_name.as_str()),
            member_path: role_dir.join(PAIR_RECORD_MEMBERS_DIR).join(file_name.as_str()),
            pair_pending_path: role_dir.join(".pair_pending").join(file_name.as_str()),
            failed_path: role_dir.join(".failed").join(file_name.as_str()),
        },
    )
}

/// Whether the artifact at `path` is a hidden pair member (its parent is `.pair_committed`).
pub fn is_pair_member_path(path: &PathModel) -> (r: bool)
    ensures
        r == (path@.len() >= 2 && path@[path@.len() - 2] == ".pair_committed"@),
{
    match path.parent() {
        Some(parent) => {
            proof {
                reveal_strlit(".pair_committed");
            }
            parent.file_name_is(PAIR_RECORD_MEMBERS_DIR)
        },
        None => false,
    }
}

/// Order between a `.failed` artifact and its `.pair_pending` source: the `.failed` one,
/// written from the fully evaluated pair, ranks higher.
pub fn closed_candidate_precedence(path: &PathModel) -> (r: u8)
    ensures
        r == (if path@.len() >= 2 && path@[path@.len() - 2] == ".failed"@ {
            1u8
        } else {
            0u8
        }),
{
    match path.parent() {
        Some(parent) => if parent.file_name_is(".failed") {
            1
        } else {
            0
        },
        None => 0,
    }
}

/// The role directory of a pair member (two levels up), or `None` when the path is too short.
pub fn pair_role_dir_from_member_path(member_path: &PathModel) -> (r: Option<PathModel>)
    ensures
        r is Some <==> member_path@.len() >= 2,
        r matches Some(d) ==> d@ == member_path@.subrange(0, member_path@.len() - 2),
{
    match member_path.parent() {
        Some(p) => match p.parent() {
            Some(q) => Some(q),
            None => None,
        },
        None => None,
    }
}

/// The plug-in data root of a public artifact path `{root}/{project}/{instance}/{role}/{file}`.
pub fn plugin_data_root_from_final_path(final_path: &PathModel) -> (r: Option<PathModel>)
    ensures
        r is Some <==> final_path@.len() >= 4,
        r matches Some(d) ==> d@ == final_path@.subrange(0, final_path@.len() - 4),
{
    let a = match final_path.parent() {
        Some(p) => p,
        None => return None,
    };
    let b = match a.parent() {
        Some(p) => p,
        None => return None,
    };
    let c = match b.parent() {
        Some(p) => p,
        None => return None,
    };
    c.parent()
}

/// Whether `path` and the public and member paths derived from it all lie under `root`.
pub open spec fn publish_paths_inside(root: Seq<Seq<char>>, path: Seq<Seq<char>>) -> bool {
    &&& path.len() > 0
    &&& path_has_prefix(path, root)
    &&& path_has_prefix(closed_artifact_role_dir(path)->0.push(path.last()), root)
    &&& path_has_prefix(
        closed_artifact_role_dir(path)->0.push(".pair_committed"@).push(path.last()),
        root,
    )
}

fn publish_path_inside_root(root: &PathModel, path: &PathModel) -> (r: bool)
    ensures
        r == publish_paths_inside(root@, path@),
{
    match pair_paths_from_closed_artifact_path(path) {
        Some(paths) => path.starts_with(root) && paths.final_path.starts_with(root)
            && paths.member_path.starts_with(root),
        None => false,
    }
}

/// Whether both artifacts of a late expected pair, and the paths they would be published to,
/// lie under the plug-in data root.
pub fn late_expected_publish_paths_are_inside_root(
    plugin_data_root: &PathModel,
    left_path: &PathModel,
    right_path: &PathModel,
) -> (r: bool)
    ensures
        r == (publish_paths_inside(plugin_data_root@, left_path@) && publish_paths_inside(
            plugin_data_root@,
            right_path@,
        )),
{
    publish_path_inside_root(plugin_data_root, left_path) && publish_path_inside_root(
        plugin_data_root,
        right_path,
    )
}

} // verus!

verus! {

/// `a` followed by `b`.
pub fn concat_str(a: &str, b: &str) -> (r: String)
    ensures
        r@ == a@ + b@,
{
    let mut v = chars_of(a);
    push_str(&mut v, b);
    string_from_chars(v.as_slice())
}

/// The file paths of one Record artifact.
#[derive(Debug, Clone)]
pub struct WriterPaths {
    /// The published JSON (`{compact}.json`).
    pub final_path: PathModel,
    /// The temporary file being written (`{compact}.json.tmp`).
    pub tmp_path: PathModel,
    /// The staging JSON during Record (`{compact}.json.partial`).
    pub staging_path: PathModel,
    /// The candidate awaiting its pair's finalizer (`.pair_pending/{compact}.json`).
    pub pair_pending_path: PathModel,
    /// The diagnostic JSON of a failed commit (`.failed/{compact}.json`).
    pub failed_path: PathModel,
}

/// The layout of the artifact named by `compact` inside the role directory `dir`.
pub open spec fn writer_paths_at(wp: WriterPaths, dir: Seq<Seq<char>>, compact: Seq<char>) -> bool {
    &&& wp.final_path@ == dir.push(compact + ".json"@)
    &&& wp.tmp_path@ == dir.push(compact + ".json.tmp"@)
    &&& wp.staging_path@ == dir.push(compact + ".json.partial"@)
    &&& wp.pair_pending_path@ == dir.push(".pair_pending"@).push(compact + ".json"@)
    &&& wp.failed_path@ == dir.push(".failed"@).push(compact + ".json"@)
}

/// Characters the fallback compaction reads before it stops.
pub open spec fn compact_scanned_char(c: char) -> bool {
    ('0' <= c <= '9') || c == '-' || c == ':' || c == 'T'
}

/// Characters the fallback compaction keeps.
pub open spec fn compact_kept_char(c: char) -> bool {
    ('0' <= c <= '9') || c == 'T'
}

/// The fallback compaction of a wall clock that is not RFC 3339: the longest prefix made of
/// digits, `-`, `:` and `T`, with only its digits and `T` kept.
pub open spec fn compact_fallback(s: Seq<char>) -> Seq<char>
    decreases s.len(),
{
    if s.len() == 0 || !compact_scanned_char(s[0]) {
        Seq::empty()
    } else if compact_kept_char(s[0]) {
        seq![s[0]] + compact_fallback(s.drop_first())
    } else {
        compact_fallback(s.drop_first())
    }
}

fn compact_fallback_text(iso: &str) -> (r: String)
    ensures
        r@ == compact_fallback(iso@),
{
    let v = chars_of(iso);
    let n = v.len();
    let mut out: Vec<char> = Vec::new();
    let mut i: usize = 0;
    assert(iso@.subrange(0, n as int) == iso@);
    assert(out@ + compact_fallback(iso@) == compact_fallback(iso@));
    while i < n
        invariant
            n == v@.len(),
            v@ == iso@,
            i <= n,
            compact_fallback(iso@) == out@ + compact_fallback(iso@.subrange(i as int, n as int)),
        decreases n - i,
    {
        let c = v[i];
        let ghost rest = iso@.subrange(i as int, n as int);
        assert(rest.drop_first() == iso@.subrange(i + 1, n as int));
        assert(rest[0] == c);
        if !(('0' <= c && c <= '9') || c == '-' || c == ':' || c == 'T') {
            assert(out@ + Seq::<char>::empty() == out@);
            return string_from_chars(out.as_slice());
        }
        if ('0' <= c && c <= '9') || c == 'T' {
            let ghost before = out@;
            out.push(c);
            assert(before + (seq![c] + compact_fallback(rest.drop_first())) == out@
                + compact_fallback(rest.drop_first()));
        }
        i = i + 1;
    }
    assert(out@ + compact_fallback(iso@.subrange(n as int, n as int)) == out@);
    string_from_chars(out.as_slice())
}

/// Characters a compact wall clock is made of: digits, the `T` between date and time, and the
/// sign that chrono writes before a year outside `0..=9999`.
pub open spec fn compact_stem_char(c: char) -> bool {
    ('0' <= c <= '9') || c == 'T' || c == '+' || c == '-'
}

/// Whether every character of `s` is a compact wall-clock character. Such a text holds no
/// path separator and no `.`, so it names one file in its directory.
pub open spec fn compact_stem_text(s: Seq<char>) -> bool {
    forall|i: int| 0 <= i < s.len() ==> compact_stem_char(#[trigger] s[i])
}

proof fn lemma_compact_fallback_stem(s: Seq<char>)
    ensures
        compact_stem_text(compact_fallback(s)),
    decreases s.len(),
{
    if s.len() > 0 && compact_scanned_char(s[0]) {
        lemma_compact_fallback_stem(s.drop_first());
        let rest = compact_fallback(s.drop_first());
        if compact_kept_char(s[0]) {
            assert forall|i: int| 0 <= i < compact_fallback(s).len() implies compact_stem_char(
                #[trigger] compact_fallback(s)[i],
            ) by {
                if i > 0 {
                    assert(compact_fallback(s)[i] == rest[i - 1]);
                }
            }
        }
    }
}

/// `chrono::DateTime::parse_from_rfc3339`, then `with_timezone(&chrono::Local)` and
/// `format("%Y%m%dT%H%M%S")`. The text depends on the machine's local time zone, so which
/// date-time it shows is not claimed. What is claimed: there is a text exactly when the
/// timestamp parses, and chrono writes that format as digits, the literal `T` and, for a year
/// outside `0..=9999`, a leading `+` or `-`, so the text is non-empty and made of those.
#[verifier::external_body]
fn local_compact_of_rfc3339(iso: &str) -> (r: Option<String>)
    ensures
        r is Some <==> crate::clock::rfc3339_instant(iso@) is Some,
        r matches Some(t) ==> t@.len() > 0 && compact_stem_text(t@),
{
    match chrono::DateTime::parse_from_rfc3339(iso) {
        Ok(dt) => Some(dt.with_timezone(&chrono::Local).format("%Y%m%dT%H%M%S").to_string()),
        Err(_) => None,
    }
}

/// The compact file-name form of a wall clock, given the local-time rendering `local` of the
/// timestamp when it is RFC 3339: that rendering, else the fallback compaction.
pub fn compact_wall_clock_from(iso: &str, local: Option<String>) -> (r: String)
    ensures
        local matches Some(s) ==> r@ == s@,
        local is None ==> r@ == compact_fallback(iso@),
{
    match local {
        Some(s) => s,
        None => compact_fallback_text(iso),
    }
}

/// The compact file-name form (`YYYYMMDDTHHMMSS`) of a wall clock: an RFC 3339 timestamp is
/// rendered in local time; any other text falls back to the compaction of its leading
/// date-time characters.
pub fn compact_wall_clock(iso: &str) -> (r: String)
    ensures
        crate::clock::rfc3339_instant(iso@) is None ==> r@ == compact_fallback(iso@),
        crate::clock::rfc3339_instant(iso@) is Some ==> r@.len() > 0,
        compact_stem_text(r@),
{
    let local = local_compact_of_rfc3339(iso);
    proof {
        lemma_compact_fallback_stem(iso@);
    }
    compact_wall_clock_from(iso, local)
}

/// The two shapes the guard wall lets out: a path-safe component or a quarantine name.
pub open spec fn guard_shaped(c: Seq<char>) -> bool {
    crate::path_identity::path_safe(c) || crate::path_identity::is_quarantine_name_shape(c)
}

impl WriterPaths {
    fn build_in(dir: &PathModel, compact: &str) -> (w: WriterPaths)
        ensures
            writer_paths_at(w, dir@, compact@),
    {
        let json = concat_str(compact, ".json");
        let tmp = concat_str(compact, ".json.tmp");
        let partial = concat_str(compact, ".json.partial");
        WriterPaths {
            final_path: dir.join(json.as_str()),
            tmp_path: dir.join(tmp.as_str()),
            staging_path: dir.join(partial.as_str()),
            pair_pending_path: dir.join(".pair_pending").join(json.as_str()),
            failed_path: dir.join(".failed").join(json.as_str()),
        }
    }

    /// The paths `{base}/{project_hash}/{instance_id}/{role}/{compact}.json` and their
    /// siblings, with both identities passed through the guard wall.
    pub fn build(
        sink: &mut crate::path_identity::PathEventSink,
        base_dir: &PathModel,
        project_hash: &str,
        instance_id: &str,
        role: Role,
        wall_clock_start_iso: &str,
    ) -> (w: WriterPaths)
        ensures
            exists|c: Seq<char>|
                writer_paths_at(
                    w,
                    base_dir@.push(crate::path_identity::guarded_component(project_hash@)).push(
                        crate::path_identity::guarded_component(instance_id@),
                    ).push(role_dir_name(role)),
                    c,
                ) && compact_stem_text(c) && (crate::clock::rfc3339_instant(
                    wall_clock_start_iso@,
                ) is None ==> c == compact_fallback(wall_clock_start_iso@)) && (
                crate::clock::rfc3339_instant(wall_clock_start_iso@) is Some ==> c.len() > 0),
            final(sink)@ == old(sink)@ + crate::path_identity::guard_events(
                "WriterPaths.build.project_hash"@,
                project_hash@,
            ) + crate::path_identity::guard_events("WriterPaths.build.instance_id"@, instance_id@),
            guard_shaped(crate::path_identity::guarded_component(project_hash@)),
            guard_shaped(crate::path_identity::guarded_component(instance_id@)),
    {
        let compact = compact_wall_clock(wall_clock_start_iso);
        let ph = crate::path_identity::guard_path_component(
            sink,
            project_hash,
            "WriterPaths.build.project_hash",
        );
        let iid = crate::path_identity::guard_path_component(
            sink,
            instance_id,
            "WriterPaths.build.instance_id",
        );
        let dir = base_dir.join(ph.as_str()).join(iid.as_str()).join(role.dir_name());
        Self::build_in(&dir, compact.as_str())
    }
}

} // verus!

verus! {

/// `path` with `.tmp` appended to its file name (`.tmp` alone for the empty path).
pub open spec fn sibling_tmp(path: Seq<Seq<char>>) -> Seq<Seq<char>> {
    if path.len() == 0 {
        seq![".tmp"@]
    } else {
        path.drop_last().push(path.last() + ".tmp"@)
    }
}

/// Index of the last `.` in `name`, or -1.
pub open spec fn last_dot(name: Seq<char>) -> int
    decreases name.len(),
{
    if name.len() == 0 {
        -1
    } else if name.last() == '.' {
        name.len() - 1
    } else {
        last_dot(name.drop_last())
    }
}

/// The file stem: the name before its last `.`, unless that `.` is the first character.
pub open spec fn file_stem(name: Seq<char>) -> Seq<char> {
    if last_dot(name) > 0 {
        name.subrange(0, last_dot(name))
    } else {
        name
    }
}

/// `path` with the extension of its file name replaced by `ext`; an empty `ext` removes the
/// extension.
pub open spec fn with_extension(path: Seq<Seq<char>>, ext: Seq<char>) -> Seq<Seq<char>> {
    if path.len() == 0 {
        path
    } else if ext.len() == 0 {
        path.drop_last().push(file_stem(path.last()))
    } else {
        path.drop_last().push(file_stem(path.last()) + seq!['.'] + ext)
    }
}

proof fn lemma_last_dot_range(name: Seq<char>)
    ensures
        -1 <= last_dot(name) < name.len(),
        last_dot(name) >= 0 ==> name[last_dot(name)] == '.',
    decreases name.len(),
{
    if name.len() > 0 && name.last() != '.' {
        lemma_last_dot_range(name.drop_last());
    }
}

fn find_last_dot(v: &Vec<char>) -> (r: Option<usize>)
    ensures
        match r {
            Some(i) => last_dot(v@) == i as int,
            None => last_dot(v@) == -1,
        },
{
    let mut j: usize = v.len();
    assert(v@.subrange(0, j as int) == v@);
    while j > 0
        invariant
            j <= v@.len(),
            last_dot(v@) == last_dot(v@.subrange(0, j as int)),
        decreases j,
    {
        let ghost pre = v@.subrange(0, j as int);
        assert(pre.last() == v@[j - 1]);
        if v[j - 1] == '.' {
            return Some(j - 1);
        }
        assert(pre.drop_last() == v@.subrange(0, j - 1));
        j = j - 1;
    }
    None
}

/// `path` with the extension of its file name replaced by `ext`; an empty `ext` removes the
/// extension.
pub fn path_with_extension(path: &PathModel, ext: &str) -> (r: PathModel)
    ensures
        r@ == with_extension(path@, ext@),
{
    let name = match path.file_name() {
        Some(n) => n,
        None => return path.copy(),
    };
    let chars = chars_of(name.as_str());
    let mut stem: Vec<char> = Vec::new();
    let cut = match find_last_dot(&chars) {
        Some(i) => if i > 0 {
            i
        } else {
            chars.len()
        },
        None => chars.len(),
    };
    proof {
        lemma_last_dot_range(name@);
    }
    let mut k: usize = 0;
    while k < cut
        invariant
            k <= cut <= chars@.len(),
            stem@ == chars@.subrange(0, k as int),
        decreases cut - k,
    {
        stem.push(chars[k]);
        k = k + 1;
        assert(chars@.subrange(0, k as int) == chars@.subrange(0, k - 1 as int).push(chars@[k - 1]));
    }
    assert(stem@ == file_stem(name@));
    if !ext.is_empty() {
        let ghost stem_view = stem@;
        stem.push('.');
        push_str(&mut stem, ext);
        assert(stem@ == file_stem(name@) + seq!['.'] + ext@) by {
            assert(stem_view.push('.') == stem_view + seq!['.']);
        }
    }
    let new_name = string_from_chars(stem.as_slice());
    let parent = match path.parent() {
        Some(p) => p,
        None => return path.copy(),
    };
    parent.join(new_name.as_str())
}

/// `path` with `.tmp` appended to its file name.
pub fn sibling_tmp_path(path: &PathModel) -> (r: PathModel)
    ensures
        r@ == sibling_tmp(path@),
{
    match path.file_name() {
        Some(name) => {
            let tmp = concat_str(name.as_str(), ".tmp");
            match path.parent() {
                Some(parent) => parent.join(tmp.as_str()),
                None => path.copy(),
            }
        },
        None => {
            let empty = PathModel::empty();
            proof {
                reveal_strlit(".tmp");
            }
            let r = empty.join(".tmp");
            assert(r@ == seq![".tmp"@]);
            r
        },
    }
}

/// The writer paths of a pair artifact: its temporary file beside the published path and its
/// staging file as the published path with the extension `json.partial`.
pub fn writer_paths_from_pair_paths(paths: &PairPaths) -> (w: WriterPaths)
    ensures
        w.final_path@ == paths.final_path@,
        w.tmp_path@ == sibling_tmp(paths.final_path@),
        w.staging_path@ == with_extension(paths.final_path@, "json.partial"@),
        w.pair_pending_path@ == paths.pair_pending_path@,
        w.failed_path@ == paths.failed_path@,
{
    proof {
        reveal_strlit("json.partial");
    }
    WriterPaths {
        final_path: paths.final_path.copy(),
        tmp_path: sibling_tmp_path(&paths.final_path),
        staging_path: path_with_extension(&paths.final_path, "json.partial"),
        pair_pending_path: paths.pair_pending_path.copy(),
        failed_path: paths.failed_path.copy(),
    }
}

/// The five paths of a writer, in field order.
pub open spec fn writer_paths_view(w: WriterPaths) -> (
    Seq<Seq<char>>,
    Seq<Seq<char>>,
    Seq<Seq<char>>,
    Seq<Seq<char>>,
    Seq<Seq<char>>,
) {
    (w.final_path@, w.tmp_path@, w.staging_path@, w.pair_pending_path@, w.failed_path@)
}

/// The writer paths recovered from a pending path `{role}/.pair_pending/{name}`.
pub open spec fn paths_from_pending(p: Seq<Seq<char>>) -> (
    Seq<Seq<char>>,
    Seq<Seq<char>>,
    Seq<Seq<char>>,
    Seq<Seq<char>>,
    Seq<Seq<char>>,
) {
    let role_dir = p.subrange(0, p.len() - 2);
    let name = p.last();
    (
        role_dir.push(name),
        role_dir.push(name + ".tmp"@),
        role_dir.push(name + ".partial"@),
        p,
        role_dir.push(".failed"@).push(name),
    )
}

/// The writer paths of the artifact whose pending path is `pair_pending_path`
/// (`{role}/.pair_pending/{name}`), or `None` when the path is too short.
pub fn writer_paths_from_pair_pending_path(pair_pending_path: &PathModel) -> (r: Option<WriterPaths>)
    ensures
        r is Some <==> pair_pending_path@.len() >= 2,
        r matches Some(w) ==> writer_paths_view(w) == paths_from_pending(pair_pending_path@),
{
    let name = match pair_pending_path.file_name() {
        Some(n) => n,
        None => return None,
    };
    let role_dir = match pair_role_dir_from_member_path(pair_pending_path) {
        Some(d) => d,
        None => return None,
    };
    let tmp = concat_str(name.as_str(), ".tmp");
    let partial = concat_str(name.as_str(), ".partial");
    Some(
        WriterPaths {
            final_path: role_dir.join(name.as_str()),
            tmp_path: role_dir.join(tmp.as_str()),
            staging_path: role_dir.join(partial.as_str()),
            pair_pending_path: pair_pending_path.copy(),
            failed_path: role_dir.join(".failed").join(name.as_str()),
        },
    )
}

} // verus!

verus! {

/// Unicode `White_Space`, as `char::is_whitespace` documents it.
pub open spec fn unicode_white_space(c: char) -> bool {
    ||| ('\u{9}' <= c <= '\u{d}')
    ||| c == ' '
    ||| c == '\u{85}'
    ||| c == '\u{a0}'
    ||| c == '\u{1680}'
    ||| ('\u{2000}' <= c <= '\u{200a}')
    ||| c == '\u{2028}'
    ||| c == '\u{2029}'
    ||| c == '\u{202f}'
    ||| c == '\u{205f}'
    ||| c == '\u{3000}'
}

/// `s` without its leading and trailing white space, as `str::trim` documents it.
pub open spec fn trimmed(s: Seq<char>) -> Seq<char>
    decreases s.len(),
{
    if s.len() == 0 {
        s
    } else if unicode_white_space(s[0]) {
        trimmed(s.drop_first())
    } else if unicode_white_space(s.last()) {
        trimmed(s.drop_last())
    } else {
        s
    }
}

fn is_white_space(c: char) -> (r: bool)
    ensures
        r == unicode_white_space(c),
{
    ('\u{9}' <= c && c <= '\u{d}') || c == ' ' || c == '\u{85}' || c == '\u{a0}' || c
        == '\u{1680}' || ('\u{2000}' <= c && c <= '\u{200a}') || c == '\u{2028}' || c
        == '\u{2029}' || c == '\u{202f}' || c == '\u{205f}' || c == '\u{3000}'
}

/// `s` without its leading and trailing white space.
pub fn trim_text(s: &str) -> (r: String)
    ensures
        r@ == trimmed(s@),
{
    let v = chars_of(s);
    let mut lo: usize = 0;
    let mut hi: usize = v.len();
    assert(v@.subrange(0, v@.len() as int) == v@);
    while lo < hi
        invariant
            lo <= hi <= v@.len(),
            v@ == s@,
            trimmed(s@) == trimmed(v@.subrange(lo as int, hi as int)),
        ensures
            lo <= hi <= v@.len(),
            trimmed(s@) == v@.subrange(lo as int, hi as int),
        decreases hi - lo,
    {
        let ghost cur = v@.subrange(lo as int, hi as int);
        if is_white_space(v[lo]) {
            assert(cur[0] == v@[lo as int]);
            assert(cur.drop_first() == v@.subrange(lo + 1, hi as int));
            lo = lo + 1;
        } else if is_white_space(v[hi - 1]) {
            assert(cur[0] == v@[lo as int]);
            assert(cur.last() == v@[hi - 1]);
            assert(cur.drop_last() == v@.subrange(lo as int, hi - 1));
            hi = hi - 1;
        } else {
            assert(cur[0] == v@[lo as int]);
            assert(cur.last() == v@[hi - 1]);
            break;
        }
    }
    let mut out: Vec<char> = Vec::new();
    let mut k: usize = lo;
    while k < hi
        invariant
            lo <= k <= hi <= v@.len(),
            out@ == v@.subrange(lo as int, k as int),
        decreases hi - k,
    {
        out.push(v[k]);
        k = k + 1;
        assert(v@.subrange(lo as int, k as int) == v@.subrange(lo as int, k - 1 as int).push(
            v@[k - 1],
        ));
    }
    string_from_chars(out.as_slice())
}

/// The trimmed text when it is not empty.
pub fn non_empty_string(value: Option<String>) -> (r: Option<String>)
    ensures
        match value {
            Some(s) => if trimmed(s@).len() > 0 {
                r matches Some(t) && t@ == trimmed(s@)
            } else {
                r is None
            },
            None => r is None,
        },
{
    match value {
        Some(s) => {
            let t = trim_text(s.as_str());
            if t.as_str().is_empty() {
                None
            } else {
                Some(t)
            }
        },
        None => None,
    }
}

} // verus!

verus! {

/// ASCII hex digit, either case.
pub open spec fn ascii_hexdigit(c: char) -> bool {
    ('0' <= c <= '9') || ('a' <= c <= 'f') || ('A' <= c <= 'F')
}

/// A directory name that the guard wall could have produced: the marker `_q_` followed by
/// exactly 16 ASCII hex digits.
pub open spec fn materialized_quarantine_dir(s: Seq<char>) -> bool {
    &&& s.len() == 19
    &&& s[0] == '_' && s[1] == 'q' && s[2] == '_'
    &&& forall|i: int| 3 <= i < 19 ==> ascii_hexdigit(#[trigger] s[i])
}

/// Whether `component` is a materialized quarantine directory name.
pub fn late_expected_is_materialized_quarantine_dir(component: &str) -> (r: bool)
    ensures
        r == materialized_quarantine_dir(component@),
{
    let v = chars_of(component);
    if v.len() != 19 || v[0] != '_' || v[1] != 'q' || v[2] != '_' {
        return false;
    }
    let mut i: usize = 3;
    while i < 19
        invariant
            3 <= i <= 19,
            v@ == component@,
            v@.len() == 19,
            forall|j: int| 3 <= j < i ==> ascii_hexdigit(#[trigger] v@[j]),
        decreases 19 - i,
    {
        let c = v[i];
        if !(('0' <= c && c <= '9') || ('a' <= c && c <= 'f') || ('A' <= c && c <= 'F')) {
            return false;
        }
        i = i + 1;
    }
    true
}

/// Every name the guard wall produces is recognised as a materialized quarantine directory.
pub proof fn lemma_quarantine_shape_is_materialized(q: Seq<char>)
    requires
        crate::path_identity::is_quarantine_name_shape(q),
    ensures
        materialized_quarantine_dir(q),
{
    assert forall|i: int| 3 <= i < 19 implies ascii_hexdigit(#[trigger] q[i]) by {
        assert(('0' <= q[i] <= '9') || ('a' <= q[i] <= 'f'));
    }
}

/// The directory the late reconcile tick scans for a project hash: the hash itself when it is
/// path-safe or already a materialized quarantine name, its guarded form otherwise.
pub fn late_expected_project_dir_name(sink: &mut crate::path_identity::PathEventSink, project_hash: &str) -> (r: String)
    ensures
        crate::path_identity::path_safe(project_hash@) || materialized_quarantine_dir(project_hash@)
            ==> r@ == project_hash@ && final(sink)@ == old(sink)@,
        !(crate::path_identity::path_safe(project_hash@) || materialized_quarantine_dir(
            project_hash@,
        )) ==> r@ == crate::path_identity::guarded_component(project_hash@) && final(sink)@ == old(
            sink,
        )@ + crate::path_identity::guard_events(
            "record_expected.late_reconcile.project_hash"@,
            project_hash@,
        ),
{
    if crate::path_identity::is_path_safe_component(project_hash)
        || late_expected_is_materialized_quarantine_dir(project_hash) {
        project_hash.to_owned()
    } else {
        crate::path_identity::guard_path_component(
            sink,
            project_hash,
            "record_expected.late_reconcile.project_hash",
        )
    }
}

/// Directory of the pair-session manifests of a project.
pub const PAIR_RECORD_SESSIONS_DIR: &'static str = "record_sessions";

/// The manifest path `{root}/{guarded project}/record_sessions/{guarded session}.json` of a
/// pair session, or `None` when the project hash or the session id is blank.
pub fn pair_record_session_manifest_path(
    sink: &mut crate::path_identity::PathEventSink,
    plugin_data_root: &PathModel,
    project_hash: &str,
    session_id: &str,
) -> (r: Option<PathModel>)
    ensures
        trimmed(project_hash@).len() == 0 || trimmed(session_id@).len() == 0 ==> r is None
            && final(sink)@ == old(sink)@,
        trimmed(project_hash@).len() > 0 && trimmed(session_id@).len() > 0 ==> {
            &&& r matches Some(p) && p@ == plugin_data_root@.push(
                crate::path_identity::guarded_component(project_hash@),
            ).push("record_sessions"@).push(
                crate::path_identity::guarded_component(session_id@) + ".json"@,
            )
            &&& final(sink)@ == old(sink)@ + crate::path_identity::guard_events(
                "pair_record_session.exists.project_hash"@,
                project_hash@,
            ) + crate::path_identity::guard_events(
                "pair_record_session.exists.session_id"@,
                session_id@,
            )
        },
{
    let ph_trim = trim_text(project_hash);
    let sid_trim = trim_text(session_id);
    if ph_trim.as_str().is_empty() || sid_trim.as_str().is_empty() {
        return None;
    }
    let ph = crate::path_identity::guard_path_component(
        sink,
        project_hash,
        "pair_record_session.exists.project_hash",
    );
    let session = crate::path_identity::guard_path_component(
        sink,
        session_id,
        "pair_record_session.exists.session_id",
    );
    let file = concat_str(session.as_str(), ".json");
    proof {
        reveal_strlit("record_sessions");
    }
    Some(plugin_data_root.join(ph.as_str()).join(PAIR_RECORD_SESSIONS_DIR).join(file.as_str()))
}

/// The file name has the extension `json` (the text after its last `.`, that `.` not being
/// the first character).
pub open spec fn has_json_extension(name: Seq<char>) -> bool {
    last_dot(name) > 0 && name.subrange(last_dot(name) + 1, name.len() as int) == "json"@
}

fn is_json_name(name: &str) -> (r: bool)
    ensures
        r == has_json_extension(name@),
{
    let v = chars_of(name);
    proof {
        lemma_last_dot_range(name@);
        reveal_strlit("json");
    }
    match find_last_dot(&v) {
        Some(i) => {
            if i == 0 {
                return false;
            }
            let n = v.len();
            if n - i != 5 {
                assert(name@.subrange(i + 1, n as int).len() != "json"@.len());
                return false;
            }
            let r = v[i + 1] == 'j' && v[i + 2] == 's' && v[i + 3] == 'o' && v[i + 4] == 'n';
            assert(r == (name@.subrange(i + 1, n as int) == "json"@)) by {
                if r {
                    assert(name@.subrange(i + 1, n as int) =~= "json"@);
                }
                if name@.subrange(i + 1, n as int) == "json"@ {
                    assert(name@.subrange(i + 1, n as int)[0] == 'j');
                    assert(name@.subrange(i + 1, n as int)[1] == 's');
                    assert(name@.subrange(i + 1, n as int)[2] == 'o');
                    assert(name@.subrange(i + 1, n as int)[3] == 'n');
                }
            }
            r
        },
        None => false,
    }
}

/// The entry of `names` that the latest Record file has: the greatest `*.json` name in
/// character order (`{compact}.json` names sort by time). `None` when there is no `*.json`.
pub fn latest_json_name(names: &Vec<String>) -> (r: Option<usize>)
    ensures
        r is None <==> forall|j: int| 0 <= j < names@.len() ==> !has_json_extension(#[trigger] names@[j]@),
        r matches Some(i) ==> {
            &&& i < names@.len()
            &&& has_json_extension(names@[i as int]@)
            &&& forall|j: int|
                0 <= j < names@.len() && has_json_extension(#[trigger] names@[j]@) ==> !crate::text::lex_lt(
                    names@[i as int]@,
                    names@[j]@,
                )
        },
{
    let mut best: Option<usize> = None;
    let mut best_chars: Vec<char> = Vec::new();
    let mut k: usize = 0;
    while k < names.len()
        invariant
            k <= names@.len(),
            best is None <==> forall|j: int| 0 <= j < k ==> !has_json_extension(#[trigger] names@[j]@),
            best matches Some(i) ==> {
                &&& i < k
                &&& best_chars@ == names@[i as int]@
                &&& has_json_extension(names@[i as int]@)
                &&& forall|j: int|
                    0 <= j < k && has_json_extension(#[trigger] names@[j]@) ==> !crate::text::lex_lt(
                        names@[i as int]@,
                        names@[j]@,
                    )
            },
        decreases names@.len() - k,
    {
        let name = names[k].as_str();
        if is_json_name(name) {
            let cand = chars_of(name);
            let take = match best {
                None => true,
                Some(_) => !crate::text::chars_lex_lt(cand.as_slice(), best_chars.as_slice()),
            };
            proof {
                crate::text::lemma_lex_irreflexive(names@[k as int]@);
                if let Some(i) = best {
                    let b = names@[i as int]@;
                    let c = names@[k as int]@;
                    crate::text::lemma_lex_total(b, c);
                    crate::text::lemma_lex_asymmetric(c, b);
                    if take {
                        assert forall|j: int|
                            0 <= j < k && has_json_extension(#[trigger] names@[j]@) implies !crate::text::lex_lt(
                            c,
                            names@[j]@,
                        ) by {
                            crate::text::lemma_lex_transitive(b, c, names@[j]@);
                        }
                    }
                }
            }
            if take {
                best = Some(k);
                best_chars = cand;
            }
        }
        k = k + 1;
    }
    best
}

} // verus!

verus! {

/// Equality of two byte strings, in time that depends only on their lengths.
pub fn constant_time_eq(a: &[u8], b: &[u8]) -> (r: bool)
    ensures
        r == (a@ == b@),
{
    if a.len() != b.len() {
        return false;
    }
    let mut diff: u8 = 0;
    let mut i: usize = 0;
    while i < a.len()
        invariant
            a@.len() == b@.len(),
            i <= a@.len(),
            diff == 0 <==> forall|j: int| 0 <= j < i ==> a@[j] == b@[j],
        decreases a@.len() - i,
    {
        let x = a[i];
        let y = b[i];
        let d = diff;
        assert((d | (x ^ y)) == 0 <==> (d == 0 && x == y)) by (bit_vector);
        diff = d | (x ^ y);
        i = i + 1;
    }
    if diff == 0 {
        assert(a@ =~= b@);
    }
    diff == 0
}

/// The built-in HMAC key of Record checksums.
pub const DEFAULT_HMAC_KEY: &'static str = "kirin-hypha-phase1.0-hmac-key-deterrent-level-20260417";

/// The bytes of the HMAC key of Record checksums.
pub open spec fn hmac_key_bytes() -> Seq<u8> {
    vstd::utf8::encode_utf8(DEFAULT_HMAC_KEY@)
}

/// The HMAC key of Record checksums.
pub fn hmac_key() -> (k: &'static [u8])
    ensures
        k@ == hmac_key_bytes(),
{
    DEFAULT_HMAC_KEY.as_bytes()
}

/// The HMAC-SHA256 tag of `data` under `key`.
pub uninterp spec fn hmac_sha256_tag(key: Seq<u8>, data: Seq<u8>) -> Seq<u8>;

/// `hmac::Hmac::<sha2::Sha256>::new_from_slice(key)`, `update(data)` and `finalize()`: the
/// 32-byte HMAC-SHA256 tag. The tag is named, not stated; its length is claimed.
/// `new_from_slice` accepts keys of every length.
#[verifier::external_body]
fn hmac_sha256(key: &[u8], data: &[u8]) -> (tag: Vec<u8>)
    ensures
        tag@ == hmac_sha256_tag(key@, data@),
        tag@.len() == 32,
{
    match <hmac::Hmac<sha2::Sha256> as hmac::Mac>::new_from_slice(key) {
        Ok(mut mac) => {
            hmac::Mac::update(&mut mac, data);
            hmac::Mac::finalize(mac).into_bytes().to_vec()
        },
        Err(_) => Vec::new(),
    }
}

/// The checksum text of a Record: the lowercase hex of the HMAC-SHA256 tag of its JSON bytes
/// (serialized with an empty `checksum` field).
pub open spec fn checksum_text(unsigned_json: Seq<u8>) -> Seq<char> {
    crate::text::hex_lower(hmac_sha256_tag(hmac_key_bytes(), unsigned_json))
}

/// The checksum of a Record from its JSON bytes serialized with an empty `checksum` field.
pub fn checksum_hex(unsigned_json: &[u8]) -> (r: String)
    ensures
        r@ == checksum_text(unsigned_json@),
        r@.len() == 64,
{
    let tag = hmac_sha256(hmac_key(), unsigned_json);
    let hex = crate::text::hex_lower_chars(tag.as_slice());
    proof {
        crate::text::lemma_hex_lower_shape(tag@);
    }
    string_from_chars(hex.as_slice())
}

/// Whether `checksum` is the checksum of a Record whose JSON with an empty `checksum` field is
/// `unsigned_json`. The comparison takes time independent of where the texts differ.
pub fn verify_checksum_bytes(unsigned_json: &[u8], checksum: &str) -> (r: bool)
    ensures
        r == (checksum@ == checksum_text(unsigned_json@)),
{
    let expected = checksum_hex(unsigned_json);
    let r = constant_time_eq(expected.as_str().as_bytes(), checksum.as_bytes());
    proof {
        vstd::utf8::encode_utf8_decode_utf8(expected@);
        vstd::utf8::encode_utf8_decode_utf8(checksum@);
    }
    r
}

} // verus!

verus! {

/// Every path of a writer built in `{base}/{project}/{instance}/{role}` lies under that
/// directory, and so under `base`.
pub proof fn lemma_writer_paths_stay_in_base(
    w: WriterPaths,
    base: Seq<Seq<char>>,
    project: Seq<char>,
    instance: Seq<char>,
    role: Role,
    compact: Seq<char>,
)
    requires
        writer_paths_at(w, base.push(project).push(instance).push(role_dir_name(role)), compact),
    ensures
        path_has_prefix(w.final_path@, base),
        path_has_prefix(w.tmp_path@, base),
        path_has_prefix(w.staging_path@, base),
        path_has_prefix(w.pair_pending_path@, base),
        path_has_prefix(w.failed_path@, base),
        w.final_path@[base.len() as int] == project && w.final_path@[base.len() + 1int] == instance,
{
    let dir = base.push(project).push(instance).push(role_dir_name(role));
    assert(w.final_path@.subrange(0, base.len() as int) == base);
    assert(w.tmp_path@.subrange(0, base.len() as int) == base);
    assert(w.staging_path@.subrange(0, base.len() as int) == base);
    assert(w.pair_pending_path@.subrange(0, base.len() as int) == base);
    assert(w.failed_path@.subrange(0, base.len() as int) == base);
}

/// Whether `name` is one plain file name: no `/` or `\\` in it, and neither `.` nor `..`.
pub open spec fn plain_file_name(name: Seq<char>) -> bool {
    &&& forall|i: int| 0 <= i < name.len() ==> #[trigger] name[i] != '/' && name[i] != '\\'
    &&& name != "."@
    &&& name != ".."@
}

/// A writer whose stem is a compact wall clock (as `WriterPaths::build` gives) names plain
/// files: on a real file system none of its artifacts leaves the directory it is built in.
pub proof fn lemma_writer_file_names_are_plain(w: WriterPaths, dir: Seq<Seq<char>>, compact: Seq<char>)
    requires
        writer_paths_at(w, dir, compact),
        compact_stem_text(compact),
    ensures
        plain_file_name(w.final_path@.last()),
        plain_file_name(w.tmp_path@.last()),
        plain_file_name(w.staging_path@.last()),
        plain_file_name(w.pair_pending_path@.last()),
        plain_file_name(w.failed_path@.last()),
        plain_file_name(".pair_pending"@),
        plain_file_name(".failed"@),
{
    reveal_strlit(".json");
    reveal_strlit(".json.tmp");
    reveal_strlit(".json.partial");
    reveal_strlit(".pair_pending");
    reveal_strlit(".failed");
    reveal_strlit(".");
    reveal_strlit("..");
    lemma_stem_with_suffix_plain(compact, ".json"@);
    lemma_stem_with_suffix_plain(compact, ".json.tmp"@);
    lemma_stem_with_suffix_plain(compact, ".json.partial"@);
    assert(".pair_pending"@.len() != "."@.len() && ".pair_pending"@.len() != ".."@.len());
    assert(".failed"@.len() != "."@.len() && ".failed"@.len() != ".."@.len());
}

/// Every path of a writer built as `WriterPaths::build` builds it (guarded identities, a
/// compact wall-clock stem) lies under `base`, and each of its components after `base` is one
/// plain name: no separator, neither `.` nor `..`. So on a real file system no artifact of the
/// writer leaves `base`.
pub proof fn lemma_built_writer_stays_in_base(
    w: WriterPaths,
    base: Seq<Seq<char>>,
    project: Seq<char>,
    instance: Seq<char>,
    role: Role,
    compact: Seq<char>,
)
    requires
        writer_paths_at(w, base.push(project).push(instance).push(role_dir_name(role)), compact),
        guard_shaped(project),
        guard_shaped(instance),
        compact_stem_text(compact),
    ensures
        path_has_prefix(w.final_path@, base),
        path_has_prefix(w.tmp_path@, base),
        path_has_prefix(w.staging_path@, base),
        path_has_prefix(w.pair_pending_path@, base),
        path_has_prefix(w.failed_path@, base),
        forall|i: int| base.len() <= i < w.final_path@.len() ==> plain_file_name(#[trigger] w.final_path@[i]),
        forall|i: int| base.len() <= i < w.tmp_path@.len() ==> plain_file_name(#[trigger] w.tmp_path@[i]),
        forall|i: int| base.len() <= i < w.staging_path@.len() ==> plain_file_name(#[trigger] w.staging_path@[i]),
        forall|i: int|
            base.len() <= i < w.pair_pending_path@.len() ==> plain_file_name(#[trigger] w.pair_pending_path@[i]),
        forall|i: int| base.len() <= i < w.failed_path@.len() ==> plain_file_name(#[trigger] w.failed_path@[i]),
{
    let dir = base.push(project).push(instance).push(role_dir_name(role));
    lemma_writer_paths_stay_in_base(w, base, project, instance, role, compact);
    lemma_writer_file_names_are_plain(w, dir, compact);
    crate::path_identity::lemma_guard_result_is_inert(project);
    crate::path_identity::lemma_guard_result_is_inert(instance);
    reveal_strlit(".");
    reveal_strlit("..");
    let r = role_dir_name(role);
    assert(plain_file_name(r)) by {
        assert(r.len() > 2);
    }
    let b = base.len() as int;
    assert(dir[b] == project && dir[b + 1] == instance && dir[b + 2] == r);
    assert(dir.len() == b + 3);
}

proof fn lemma_stem_with_suffix_plain(compact: Seq<char>, suffix: Seq<char>)
    requires
        compact_stem_text(compact),
        suffix.len() > 2,
        forall|i: int| 0 <= i < suffix.len() ==> #[trigger] suffix[i] != '/' && suffix[i] != '\\',
    ensures
        plain_file_name(compact + suffix),
{
    let n = compact + suffix;
    reveal_strlit(".");
    reveal_strlit("..");
    assert forall|i: int| 0 <= i < n.len() implies #[trigger] n[i] != '/' && n[i] != '\\' by {
        if i < compact.len() {
            assert(compact_stem_char(compact[i]));
        } else {
            assert(n[i] == suffix[i - compact.len()]);
        }
    }
    assert(n.len() > 2);
}

/// Recovering a writer's paths from its pending artifact gives back exactly the paths the
/// writer was built with.
pub proof fn lemma_pending_path_recovers_writer_paths(w: WriterPaths, dir: Seq<Seq<char>>, compact: Seq<char>)
    requires
        writer_paths_at(w, dir, compact),
    ensures
        w.pair_pending_path@.len() >= 2,
        paths_from_pending(w.pair_pending_path@) == writer_paths_view(w),
{
    let p = w.pair_pending_path@;
    let name = compact + ".json"@;
    assert(p.subrange(0, p.len() - 2) == dir);
    assert(name + ".tmp"@ == compact + ".json.tmp"@) by {
        reveal_strlit(".json");
        reveal_strlit(".tmp");
        reveal_strlit(".json.tmp");
    }
    assert(name + ".partial"@ == compact + ".json.partial"@) by {
        reveal_strlit(".json");
        reveal_strlit(".partial");
        reveal_strlit(".json.partial");
    }
}

/// Wherever a writer's artifact sits when closed (published, pending, failed or as a hidden
/// member), it resolves to the writer's own role directory, so all four locations name the
/// same pair paths.
pub proof fn lemma_closed_locations_agree(w: WriterPaths, dir: Seq<Seq<char>>, compact: Seq<char>)
    requires
        writer_paths_at(w, dir, compact),
        dir.len() > 0,
        !is_artifact_subdir(dir.last()),
    ensures
        closed_artifact_role_dir(w.final_path@) == Some(dir),
        closed_artifact_role_dir(w.pair_pending_path@) == Some(dir),
        closed_artifact_role_dir(w.failed_path@) == Some(dir),
        closed_artifact_role_dir(dir.push(".pair_committed"@).push(compact + ".json"@)) == Some(dir),
        w.final_path@.last() == w.pair_pending_path@.last(),
        w.final_path@.last() == w.failed_path@.last(),
{
    assert(w.final_path@.drop_last() == dir);
    assert(w.pair_pending_path@.drop_last() == dir.push(".pair_pending"@));
    assert(w.pair_pending_path@.drop_last().drop_last() == dir);
    assert(w.failed_path@.drop_last() == dir.push(".failed"@));
    assert(w.failed_path@.drop_last().drop_last() == dir);
    assert(dir.push(".pair_committed"@).push(compact + ".json"@).drop_last() == dir.push(".pair_committed"@));
    assert(dir.push(".pair_committed"@).drop_last() == dir);
}

} // verus!

verus! {

proof fn lemma_last_dot_of_json_name(c: Seq<char>)
    requires
        c.len() > 0,
    ensures
        last_dot(c + ".json"@) == c.len(),
        file_stem(c + ".json"@) == c,
{
    reveal_strlit(".json");
    let s = c + ".json"@;
    let n = c.len() as int;
    assert(s.len() == n + 5);
    assert(s[n] == '.' && s[n + 1] == 'j' && s[n + 2] == 's' && s[n + 3] == 'o' && s[n + 4] == 'n');
    let s4 = s.drop_last();
    let s3 = s4.drop_last();
    let s2 = s3.drop_last();
    let s1 = s2.drop_last();
    assert(s1.len() == n + 1 && s1.last() == '.');
    assert(last_dot(s1) == n);
    assert(last_dot(s2) == n);
    assert(last_dot(s3) == n);
    assert(last_dot(s4) == n);
    assert(last_dot(s) == n);
    assert(s.subrange(0, n) == c);
}

/// Recovering the pair paths of a writer's artifact and turning them back into writer paths
/// gives the writer's own paths, for every non-empty compact name.
pub proof fn lemma_pair_paths_recover_writer_paths(
    w: WriterPaths,
    pp: PairPaths,
    dir: Seq<Seq<char>>,
    compact: Seq<char>,
)
    requires
        writer_paths_at(w, dir, compact),
        pair_paths_in(pp, dir, compact + ".json"@),
        compact.len() > 0,
    ensures
        pp.final_path@ == w.final_path@,
        sibling_tmp(pp.final_path@) == w.tmp_path@,
        with_extension(pp.final_path@, "json.partial"@) == w.staging_path@,
        pp.pair_pending_path@ == w.pair_pending_path@,
        pp.failed_path@ == w.failed_path@,
{
    lemma_last_dot_of_json_name(compact);
    reveal_strlit(".json");
    reveal_strlit(".tmp");
    reveal_strlit(".json.tmp");
    reveal_strlit("json.partial");
    reveal_strlit(".json.partial");
    let name = compact + ".json"@;
    assert(pp.final_path@.drop_last() == dir);
    assert(pp.final_path@.last() == name);
    assert(name + ".tmp"@ == compact + ".json.tmp"@);
    assert(file_stem(name) + seq!['.'] + "json.partial"@ == compact + ".json.partial"@);
}

} // verus!

verus! {

/// The identity fields of a Record file that pairing, publishing and reconciling decide on.
#[derive(Debug, Clone)]
pub struct RecordIdentity {
    pub project_hash: String,
    pub instance_id: String,
    /// Wall clock the Record started at (ISO 8601).
    pub timestamp: String,
    pub role: Role,
    pub status: Status,
    pub paired_pre_instance_id: Option<String>,
    pub paired_post_instance_id: Option<String>,
    pub record_session_id: Option<String>,
    pub capture_generation_id: Option<String>,
    pub commit_status: Option<String>,
}

pub open spec fn opt_view(o: Option<String>) -> Option<Seq<char>> {
    match o {
        Some(s) => Some(s@),
        None => None,
    }
}

/// The session id of a Record after trimming, when it is not blank.
pub open spec fn trimmed_session(sid: Option<Seq<char>>) -> Option<Seq<char>> {
    match sid {
        Some(s) => if trimmed(s).len() > 0 {
            Some(trimmed(s))
        } else {
            None
        },
        None => None,
    }
}

/// File name of a pair session: the guarded session id with `.json`.
pub open spec fn session_file_name(sid: Option<Seq<char>>) -> Option<Seq<char>> {
    match trimmed_session(sid) {
        Some(s) => Some(crate::path_identity::guarded_component(s) + ".json"@),
        None => None,
    }
}

/// Events recorded while naming the session file.
pub open spec fn session_file_events(sid: Option<Seq<char>>) -> Seq<(Option<Seq<char>>, Seq<char>)> {
    match trimmed_session(sid) {
        Some(s) => crate::path_identity::guard_events("pair_record_session.record_session_id"@, s),
        None => Seq::empty(),
    }
}

/// The file name `{guarded session id}.json` of the Record's pair session, or `None` when the
/// Record has no (non-blank) session id.
pub fn pair_session_file_name(sink: &mut crate::path_identity::PathEventSink, id: &RecordIdentity) -> (r: Option<String>)
    ensures
        opt_view(r) == session_file_name(opt_view(id.record_session_id)),
        final(sink)@ == old(sink)@ + session_file_events(opt_view(id.record_session_id)),
{
    match &id.record_session_id {
        Some(s) => {
            let t = trim_text(s.as_str());
            if t.as_str().is_empty() {
                assert(old(sink)@ + Seq::<(Option<Seq<char>>, Seq<char>)>::empty() == old(sink)@);
                return None;
            }
            let safe = crate::path_identity::guard_path_component(
                sink,
                t.as_str(),
                "pair_record_session.record_session_id",
            );
            Some(concat_str(safe.as_str(), ".json"))
        },
        None => {
            assert(old(sink)@ + Seq::<(Option<Seq<char>>, Seq<char>)>::empty() == old(sink)@);
            None
        },
    }
}

/// The pair paths of the writer's own artifact under its pair-session file name; without a
/// session, the writer's own paths with the published path standing for the member path.
pub fn self_paths_for(
    sink: &mut crate::path_identity::PathEventSink,
    paths: &WriterPaths,
    id: &RecordIdentity,
) -> (pp: PairPaths)
    ensures
        final(sink)@ == old(sink)@ + session_file_events(opt_view(id.record_session_id)),
        match session_file_name(opt_view(id.record_session_id)) {
            Some(name) => pair_paths_in(
                pp,
                if paths.final_path@.len() > 0 {
                    paths.final_path@.drop_last()
                } else {
                    Seq::empty()
                },
                name,
            ),
            None => pp.final_path@ == paths.final_path@ && pp.member_path@ == paths.final_path@
                && pp.pair_pending_path@ == paths.pair_pending_path@ && pp.failed_path@
                == paths.failed_path@,
        },
{
    let file_name = match pair_session_file_name(sink, id) {
        Some(n) => n,
        None => {
            return PairPaths {
                final_path: paths.final_path.copy(),
                member_path: paths.final_path.copy(),
                pair_pending_path: paths.pair_pending_path.copy(),
                failed_path: paths.failed_path.copy(),
            };
        },
    };
    let role_dir = match paths.final_path.parent() {
        Some(p) => p,
        None => PathModel::empty(),
    };
    proof {
        reveal_strlit(".pair_committed");
    }
    PairPaths {
        final_path: role_dir.join(file_name.as_str()),
        member_path: role_dir.join(PAIR_RECORD_MEMBERS_DIR).join(file_name.as_str()),
        pair_pending_path: role_dir.join(".pair_pending").join(file_name.as_str()),
        failed_path: role_dir.join(".failed").join(file_name.as_str()),
    }
}

/// The role and instance id of the Record's pair peer, when the Record names one.
pub open spec fn peer_of(id: RecordIdentity) -> Option<(Role, Seq<char>)> {
    match id.role {
        Role::Pre => match id.paired_post_instance_id {
            Some(p) => Some((Role::Post, p@)),
            None => None,
        },
        Role::Post => match id.paired_pre_instance_id {
            Some(p) => Some((Role::Pre, p@)),
            None => None,
        },
    }
}

/// The pair paths of the peer's artifact of the same session:
/// `{root}/{guarded project}/{guarded peer instance}/{peer role}/{session file}`. `None` when the
/// root cannot be resolved, the Record has no session, or it names no peer.
pub fn peer_paths_for(
    sink: &mut crate::path_identity::PathEventSink,
    paths: &WriterPaths,
    id: &RecordIdentity,
) -> (r: Option<PairPaths>)
    ensures
        paths.final_path@.len() < 4 ==> r is None && final(sink)@ == old(sink)@,
        paths.final_path@.len() >= 4 && session_file_name(opt_view(id.record_session_id)) is None ==> r
            is None && final(sink)@ == old(sink)@ + session_file_events(opt_view(id.record_session_id)),
        paths.final_path@.len() >= 4 && session_file_name(opt_view(id.record_session_id)) is Some
            && peer_of(*id) is None ==> r is None && final(sink)@ == old(sink)@ + session_file_events(
            opt_view(id.record_session_id),
        ),
        paths.final_path@.len() >= 4 ==> (session_file_name(opt_view(id.record_session_id)) matches Some(
            name,
        ) ==> (peer_of(*id) matches Some((peer_role, peer_iid)) ==> {
            &&& r matches Some(pp) && pair_paths_in(
                pp,
                paths.final_path@.subrange(0, paths.final_path@.len() - 4).push(
                    crate::path_identity::guarded_component(id.project_hash@),
                ).push(crate::path_identity::guarded_component(peer_iid)).push(
                    role_dir_name(peer_role),
                ),
                name,
            )
            &&& final(sink)@ == old(sink)@ + session_file_events(opt_view(id.record_session_id))
                + crate::path_identity::guard_events(
                "pair_record_session.peer.project_hash"@,
                id.project_hash@,
            ) + crate::path_identity::guard_events(
                "pair_record_session.peer.instance_id"@,
                peer_iid,
            )
        })),
{
    let root = match plugin_data_root_from_final_path(&paths.final_path) {
        Some(r) => r,
        None => return None,
    };
    let file_name = match pair_session_file_name(sink, id) {
        Some(n) => n,
        None => return None,
    };
    let (peer_role, peer_iid) = match id.role {
        Role::Pre => match &id.paired_post_instance_id {
            Some(p) => (Role::Post, p.as_str()),
            None => return None,
        },
        Role::Post => match &id.paired_pre_instance_id {
            Some(p) => (Role::Pre, p.as_str()),
            None => return None,
        },
    };
    let ph = crate::path_identity::guard_path_component(
        sink,
        id.project_hash.as_str(),
        "pair_record_session.peer.project_hash",
    );
    let iid = crate::path_identity::guard_path_component(
        sink,
        peer_iid,
        "pair_record_session.peer.instance_id",
    );
    let dir = root.join(ph.as_str()).join(iid.as_str()).join(peer_role.dir_name());
    proof {
        reveal_strlit(".pair_committed");
    }
    Some(
        PairPaths {
            final_path: dir.join(file_name.as_str()),
            member_path: dir.join(PAIR_RECORD_MEMBERS_DIR).join(file_name.as_str()),
            pair_pending_path: dir.join(".pair_pending").join(file_name.as_str()),
            failed_path: dir.join(".failed").join(file_name.as_str()),
        },
    )
}

/// Why a pair-session manifest path could not be formed.
#[derive(Debug, Clone, Copy, PartialEq, Eq, Structural)]
pub enum PairPathError {
    /// The artifact path is too short to hold `{root}/{project}/{instance}/{role}/{file}`.
    RootNotResolvable,
    /// The Record has no (non-blank) session id.
    RecordSessionIdMissing,
}

/// The manifest path `{root}/{guarded project}/record_sessions/{session file}` of the Record's
/// pair session.
pub fn pair_commit_manifest_path(
    sink: &mut crate::path_identity::PathEventSink,
    paths: &WriterPaths,
    id: &RecordIdentity,
) -> (r: Result<PathModel, PairPathError>)
    ensures
        paths.final_path@.len() < 4 ==> r == Err::<PathModel, PairPathError>(PairPathError::RootNotResolvable)
            && final(sink)@ == old(sink)@,
        paths.final_path@.len() >= 4 && session_file_name(opt_view(id.record_session_id)) is None ==> r
            == Err::<PathModel, PairPathError>(PairPathError::RecordSessionIdMissing) && final(sink)@
            == old(sink)@ + session_file_events(opt_view(id.record_session_id)),
        paths.final_path@.len() >= 4 ==> (session_file_name(opt_view(id.record_session_id)) matches Some(
            name,
        ) ==> {
            &&& r matches Ok(p) && p@ == paths.final_path@.subrange(
                0,
                paths.final_path@.len() - 4,
            ).push(crate::path_identity::guarded_component(id.project_hash@)).push(
                "record_sessions"@,
            ).push(name)
            &&& final(sink)@ == old(sink)@ + session_file_events(opt_view(id.record_session_id))
                + crate::path_identity::guard_events(
                "pair_record_session.manifest.project_hash"@,
                id.project_hash@,
            )
        }),
{
    let root = match plugin_data_root_from_final_path(&paths.final_path) {
        Some(r) => r,
        None => return Err(PairPathError::RootNotResolvable),
    };
    let file_name = match pair_session_file_name(sink, id) {
        Some(n) => n,
        None => return Err(PairPathError::RecordSessionIdMissing),
    };
    let ph = crate::path_identity::guard_path_component(
        sink,
        id.project_hash.as_str(),
        "pair_record_session.manifest.project_hash",
    );
    proof {
        reveal_strlit("record_sessions");
    }
    Ok(root.join(ph.as_str()).join(PAIR_RECORD_SESSIONS_DIR).join(file_name.as_str()))
}

} // verus!

verus! {

/// Two Records are the same Record: the same non-blank session (after trimming), project,
/// instance and role, and capture generations that do not contradict each other.
pub open spec fn same_record(existing: RecordIdentity, data: RecordIdentity) -> bool {
    &&& existing.record_session_id is Some
    &&& data.record_session_id matches Some(ds) && trimmed(ds@).len() > 0
    &&& trimmed(existing.record_session_id->0@) == trimmed(data.record_session_id->0@)
    &&& existing.project_hash@ == data.project_hash@
    &&& existing.instance_id@ == data.instance_id@
    &&& existing.role == data.role
    &&& (existing.capture_generation_id is None || data.capture_generation_id is None || opt_view(
        existing.capture_generation_id,
    ) == opt_view(data.capture_generation_id))
}

fn opt_string_eq(a: &Option<String>, b: &Option<String>) -> (r: bool)
    ensures
        r == (opt_view(*a) == opt_view(*b)),
{
    match (a, b) {
        (Some(x), Some(y)) => str_equal(x.as_str(), y.as_str()),
        (None, None) => true,
        _ => false,
    }
}

/// Whether an existing TRACE shelf file already holds this very Record.
pub fn trace_shelf_same_record(existing: &RecordIdentity, data: &RecordIdentity) -> (r: bool)
    ensures
        r == same_record(*existing, *data),
{
    let e = match &existing.record_session_id {
        Some(s) => trim_text(s.as_str()),
        None => return false,
    };
    let d = match &data.record_session_id {
        Some(s) => trim_text(s.as_str()),
        None => return false,
    };
    !d.as_str().is_empty() && str_equal(e.as_str(), d.as_str()) && str_equal(
        existing.project_hash.as_str(),
        data.project_hash.as_str(),
    ) && str_equal(existing.instance_id.as_str(), data.instance_id.as_str()) && existing.role
        == data.role && (existing.capture_generation_id.is_none()
        || data.capture_generation_id.is_none() || opt_string_eq(
        &existing.capture_generation_id,
        &data.capture_generation_id,
    ))
}

/// Commit states of a closed artifact that an exact Drop may still complete.
pub open spec fn drop_open_commit(c: Option<Seq<char>>) -> bool {
    c == Some("pair_pending"@) || c == Some("failed"@)
}

/// Two closed artifacts form the exact pair of session `session_id` that a late Drop may
/// complete: PRE and POST, both closed, one project, both naming the session, each naming the
/// other as its peer, and neither already committed.
pub open spec fn can_accept_exact_drop(pre: RecordIdentity, post: RecordIdentity, session_id: Seq<char>) -> bool {
    &&& pre.role == Role::Pre && post.role == Role::Post
    &&& pre.status == Status::Closed && post.status == Status::Closed
    &&& pre.project_hash@ == post.project_hash@
    &&& opt_view(pre.record_session_id) == Some(session_id)
    &&& opt_view(post.record_session_id) == Some(session_id)
    &&& opt_view(pre.paired_post_instance_id) == Some(post.instance_id@)
    &&& opt_view(post.paired_pre_instance_id) == Some(pre.instance_id@)
    &&& drop_open_commit(opt_view(pre.commit_status))
    &&& drop_open_commit(opt_view(post.commit_status))
}

fn opt_is_str(o: &Option<String>, s: &str) -> (r: bool)
    ensures
        r == (opt_view(*o) == Some(s@)),
{
    match o {
        Some(v) => str_equal(v.as_str(), s),
        None => false,
    }
}

/// Whether the closed PRE and POST artifacts can take the exact Drop of `session_id`.
pub fn closed_pair_can_accept_exact_drop(pre: &RecordIdentity, post: &RecordIdentity, session_id: &str) -> (r: bool)
    ensures
        r == can_accept_exact_drop(*pre, *post, session_id@),
{
    pre.role == Role::Pre && post.role == Role::Post && pre.status == Status::Closed && post.status
        == Status::Closed && str_equal(pre.project_hash.as_str(), post.project_hash.as_str())
        && opt_is_str(&pre.record_session_id, session_id) && opt_is_str(
        &post.record_session_id,
        session_id,
    ) && opt_is_str(&pre.paired_post_instance_id, post.instance_id.as_str()) && opt_is_str(
        &post.paired_pre_instance_id,
        pre.instance_id.as_str(),
    ) && (opt_is_str(&pre.commit_status, "pair_pending") || opt_is_str(&pre.commit_status, "failed"))
        && (opt_is_str(&post.commit_status, "pair_pending") || opt_is_str(
        &post.commit_status,
        "failed",
    ))
}

/// State of one candidate TRACE shelf slot.
#[derive(Debug, Clone, Copy, PartialEq, Eq, Structural)]
pub enum TraceShelfSlotState {
    /// No file there.
    Vacant,
    /// A valid file of this very Record.
    SameRecord,
    /// Any other file.
    Occupied,
}

/// The slot a Record's TRACE shelf goes to among the candidate slots (one per second of offset,
/// in order): the first slot that already holds this Record, else the first vacant slot, else
/// none.
pub fn choose_trace_shelf_slot(states: &Vec<TraceShelfSlotState>) -> (r: Option<usize>)
    ensures
        (exists|i: int| 0 <= i < states@.len() && states@[i] == TraceShelfSlotState::SameRecord) ==> (r
            matches Some(k) && k < states@.len() && states@[k as int] == TraceShelfSlotState::SameRecord
            && forall|j: int| 0 <= j < k ==> states@[j] != TraceShelfSlotState::SameRecord),
        !(exists|i: int| 0 <= i < states@.len() && states@[i] == TraceShelfSlotState::SameRecord) ==> (
        (exists|i: int| 0 <= i < states@.len() && states@[i] == TraceShelfSlotState::Vacant) ==> (r
            matches Some(k) && k < states@.len() && states@[k as int] == TraceShelfSlotState::Vacant
            && forall|j: int| 0 <= j < k ==> states@[j] != TraceShelfSlotState::Vacant)),
        !(exists|i: int| 0 <= i < states@.len() && (states@[i] == TraceShelfSlotState::SameRecord
            || states@[i] == TraceShelfSlotState::Vacant)) ==> r is None,
{
    let mut first_vacant: Option<usize> = None;
    let mut i: usize = 0;
    while i < states.len()
        invariant
            i <= states@.len(),
            forall|j: int| 0 <= j < i ==> states@[j] != TraceShelfSlotState::SameRecord,
            match first_vacant {
                Some(k) => k < i && states@[k as int] == TraceShelfSlotState::Vacant && forall|j: int|
                    0 <= j < k ==> states@[j] != TraceShelfSlotState::Vacant,
                None => forall|j: int| 0 <= j < i ==> states@[j] != TraceShelfSlotState::Vacant,
            },
        decreases states@.len() - i,
    {
        match states[i] {
            TraceShelfSlotState::SameRecord => return Some(i),
            TraceShelfSlotState::Vacant => {
                if first_vacant.is_none() {
                    first_vacant = Some(i);
                }
            },
            TraceShelfSlotState::Occupied => {},
        }
        i = i + 1;
    }
    first_vacant
}

pub open spec fn slot_writable(s: TraceShelfSlotState) -> bool {
    s == TraceShelfSlotState::Vacant || s == TraceShelfSlotState::SameRecord
}

/// The first offset at which both sides of a pair can write their TRACE shelf, among the
/// candidate slots both sides list.
pub fn choose_pair_shelf_slot(
    self_states: &Vec<TraceShelfSlotState>,
    peer_states: &Vec<TraceShelfSlotState>,
) -> (r: Option<usize>)
    ensures
        match r {
            Some(k) => k < self_states@.len() && k < peer_states@.len() && slot_writable(self_states@[k as int])
                && slot_writable(peer_states@[k as int]) && forall|j: int|
                0 <= j < k ==> !(slot_writable(self_states@[j]) && slot_writable(peer_states@[j])),
            None => forall|j: int|
                0 <= j < self_states@.len() && j < peer_states@.len() ==> !(slot_writable(
                    self_states@[j],
                ) && slot_writable(peer_states@[j])),
        },
{
    let n = if self_states.len() < peer_states.len() {
        self_states.len()
    } else {
        peer_states.len()
    };
    let mut i: usize = 0;
    while i < n
        invariant
            i <= n,
            n <= self_states@.len(),
            n <= peer_states@.len(),
            n == self_states@.len() || n == peer_states@.len(),
            forall|j: int| 0 <= j < i ==> !(slot_writable(self_states@[j]) && slot_writable(peer_states@[j])),
        decreases n - i,
    {
        let a = self_states[i];
        let b = peer_states[i];
        let wa = a == TraceShelfSlotState::Vacant || a == TraceShelfSlotState::SameRecord;
        let wb = b == TraceShelfSlotState::Vacant || b == TraceShelfSlotState::SameRecord;
        if wa && wb {
            return Some(i);
        }
        i = i + 1;
    }
    None
}

} // verus!

verus! {

/// The compact wall clock `compact` (`%Y%m%dT%H%M%S`) moved by `offset_secs` seconds, in the
/// same format, or `None` when it does not parse or the result leaves chrono's range.
pub uninterp spec fn compact_shifted(compact: Seq<char>, offset_secs: int) -> Option<Seq<char>>;

/// `chrono::NaiveDateTime::parse_from_str(compact, "%Y%m%dT%H%M%S")`, then
/// `checked_add_signed` of `chrono::TimeDelta::try_seconds(offset_secs)` and
/// `format("%Y%m%dT%H%M%S")`. `try_seconds` gives `None` (where `seconds` would panic) beyond
/// `i64::MAX / 1000` seconds either way, far outside chrono's date range, so every offset is
/// accepted. The calendar arithmetic is named, not stated.
#[verifier::external_body]
fn shift_compact(compact: &str, offset_secs: i64) -> (r: Option<String>)
    ensures
        opt_view(r) == compact_shifted(compact@, offset_secs as int),
{
    chrono::NaiveDateTime::parse_from_str(compact, "%Y%m%dT%H%M%S").ok().and_then(
        |naive| chrono::TimeDelta::try_seconds(offset_secs).and_then(|d| naive.checked_add_signed(d)),
    ).map(|shifted| shifted.format("%Y%m%dT%H%M%S").to_string())
}

/// Why a TRACE shelf stamp could not be formed.
#[derive(Debug, Clone, Copy, PartialEq, Eq, Structural)]
pub enum ShelfStampError {
    /// The Record's wall clock compacts to nothing.
    TimestampMissing,
    /// The compact wall clock does not parse as a date-time, or the shift leaves the range.
    CompactNotParsed,
}

/// The file stem of the TRACE shelf slot `offset_secs` seconds after the Record's compact wall
/// clock `compact`.
pub fn trace_shelf_stamp(compact: &str, offset_secs: i64) -> (r: Result<String, ShelfStampError>)
    ensures
        compact@.len() == 0 ==> r == Err::<String, ShelfStampError>(ShelfStampError::TimestampMissing),
        compact@.len() > 0 && offset_secs == 0 ==> (r matches Ok(s) && s@ == compact@),
        compact@.len() > 0 && offset_secs != 0 ==> match compact_shifted(compact@, offset_secs as int) {
            Some(t) => r matches Ok(s) && s@ == t,
            None => r == Err::<String, ShelfStampError>(ShelfStampError::CompactNotParsed),
        },
{
    if compact.is_empty() {
        return Err(ShelfStampError::TimestampMissing);
    }
    if offset_secs == 0 {
        return Ok(compact.to_owned());
    }
    match shift_compact(compact, offset_secs) {
        Some(s) => Ok(s),
        None => Err(ShelfStampError::CompactNotParsed),
    }
}

/// The TRACE shelf slot `{role_dir}/{stamp}.json` at `offset_secs` seconds after `compact`.
pub fn trace_shelf_path_for_offset(role_dir: &PathModel, compact: &str, offset_secs: i64) -> (r: Result<
    PathModel,
    ShelfStampError,
>)
    ensures
        compact@.len() == 0 ==> r == Err::<PathModel, ShelfStampError>(ShelfStampError::TimestampMissing),
        compact@.len() > 0 && offset_secs == 0 ==> (r matches Ok(p) && p@ == role_dir@.push(compact@ + ".json"@)),
        compact@.len() > 0 && offset_secs != 0 ==> match compact_shifted(compact@, offset_secs as int) {
            Some(t) => r matches Ok(p) && p@ == role_dir@.push(t + ".json"@),
            None => r == Err::<PathModel, ShelfStampError>(ShelfStampError::CompactNotParsed),
        },
{
    match trace_shelf_stamp(compact, offset_secs) {
        Ok(stamp) => {
            let name = concat_str(stamp.as_str(), ".json");
            Ok(role_dir.join(name.as_str()))
        },
        Err(e) => Err(e),
    }
}

/// Where an annotation appended to a committed pair artifact is mirrored.
#[derive(Debug, Clone)]
pub enum AnnotationMirror {
    /// Nothing to mirror: the artifact is not a committed pair member with a session.
    NoMirror,
    /// The artifact is a hidden pair member: mirror onto its public TRACE shelf file.
    ShelfOfMember,
    /// The artifact is the public file: mirror onto this hidden member.
    Member(PathModel),
}

/// The mirror of an annotation appended to the artifact at `path` with identity `id`.
pub fn pair_annotation_mirror(
    sink: &mut crate::path_identity::PathEventSink,
    path: &PathModel,
    id: &RecordIdentity,
) -> (r: AnnotationMirror)
    ensures
        opt_view(id.commit_status) != Some("committed"@) || trimmed_session(opt_view(id.record_session_id))
            is None || path@.len() == 0 ==> r is NoMirror && final(sink)@ == old(sink)@,
        opt_view(id.commit_status) == Some("committed"@) && path@.len() >= 2 && path@[path@.len() - 2]
            == ".pair_committed"@ && trimmed_session(opt_view(id.record_session_id)) is Some ==> r is ShelfOfMember
            && final(sink)@ == old(sink)@,
        opt_view(id.commit_status) == Some("committed"@) && path@.len() > 0 && !(path@.len() >= 2
            && path@[path@.len() - 2] == ".pair_committed"@) ==> (trimmed_session(opt_view(id.record_session_id))
            matches Some(sid) ==> {
            &&& r matches AnnotationMirror::Member(m) && m@ == path@.drop_last().push(
                ".pair_committed"@,
            ).push(crate::path_identity::guarded_component(sid) + ".json"@)
            &&& final(sink)@ == old(sink)@ + crate::path_identity::guard_events(
                "append_annotation.record_session_id"@,
                sid,
            )
        }),
{
    if !opt_is_str(&id.commit_status, "committed") {
        return AnnotationMirror::NoMirror;
    }
    let sid = match &id.record_session_id {
        Some(s) => trim_text(s.as_str()),
        None => return AnnotationMirror::NoMirror,
    };
    if sid.as_str().is_empty() {
        return AnnotationMirror::NoMirror;
    }
    let parent = match path.parent() {
        Some(p) => p,
        None => return AnnotationMirror::NoMirror,
    };
    proof {
        reveal_strlit(".pair_committed");
    }
    if parent.file_name_is(PAIR_RECORD_MEMBERS_DIR) {
        return AnnotationMirror::ShelfOfMember;
    }
    let safe = crate::path_identity::guard_path_component(
        sink,
        sid.as_str(),
        "append_annotation.record_session_id",
    );
    let name = concat_str(safe.as_str(), ".json");
    AnnotationMirror::Member(parent.join(PAIR_RECORD_MEMBERS_DIR).join(name.as_str()))
}

} // verus!

verus! {

/// One side of a pair-session manifest.
#[derive(Debug, Clone)]
pub struct PairCommitSide {
    pub instance_id: String,
    pub role: String,
    /// Where the side's hidden member was committed.
    pub path: PathModel,
    pub checksum: String,
}

/// A pair-session manifest (`record_sessions/{session}.json`) and its file name.
#[derive(Debug, Clone)]
pub struct PairCommitManifest {
    pub file_name: String,
    pub schema_version: String,
    pub session_id: String,
    pub project_hash: String,
    pub committed_at: String,
    pub pre: PairCommitSide,
    pub post: PairCommitSide,
}

/// A committed member path that lies outside the plug-in data base.
#[derive(Debug, Clone, Copy, PartialEq, Eq, Structural)]
pub struct MemberPathEscapesBase;

pub open spec fn manifest_side(m: PairCommitManifest, role: Role) -> PairCommitSide {
    match role {
        Role::Pre => m.pre,
        Role::Post => m.post,
    }
}

/// The manifest names this instance's side of a session of this (guarded) project.
pub open spec fn manifest_matches(m: PairCommitManifest, guarded_project: Seq<char>, instance_id: Seq<char>, role: Role) -> bool {
    &&& crate::path_identity::guarded_component(m.project_hash@) == guarded_project
    &&& m.schema_version@ == "pair_record_session.v1"@
    &&& manifest_side(m, role).role@ == role_field_name(role)
    &&& manifest_side(m, role).instance_id@ == instance_id
}

/// Order key of a manifest: its commit time, `:`, its file name.
pub open spec fn manifest_key(m: PairCommitManifest) -> Seq<char> {
    m.committed_at@ + ":"@ + m.file_name@
}

/// Events the guard wall records while the manifests are read.
pub open spec fn manifest_events(ms: Seq<PairCommitManifest>) -> Seq<(Option<Seq<char>>, Seq<char>)>
    decreases ms.len(),
{
    if ms.len() == 0 {
        Seq::empty()
    } else {
        manifest_events(ms.drop_last()) + crate::path_identity::guard_events(
            "append_annotation.manifest_project_hash"@,
            ms.last().project_hash@,
        )
    }
}

/// The member path an annotation falls back to when the role directory holds no published
/// file: among the manifests naming this instance's side, the one with the greatest key (the
/// first such on ties). Any matching member outside `base_dir` is refused.
pub fn latest_pair_member_for_annotation(
    sink: &mut crate::path_identity::PathEventSink,
    base_dir: &PathModel,
    guarded_project_hash: &str,
    instance_id: &str,
    role: Role,
    manifests: &Vec<PairCommitManifest>,
) -> (r: Result<Option<PathModel>, MemberPathEscapesBase>)
    ensures
        r is Ok ==> final(sink)@ == old(sink)@ + manifest_events(manifests@),
        r is Err <==> exists|i: int|
            0 <= i < manifests@.len() && manifest_matches(#[trigger] manifests@[i], guarded_project_hash@, instance_id@, role)
                && !path_has_prefix(manifest_side(manifests@[i], role).path@, base_dir@),
        r matches Ok(None) ==> forall|i: int|
            0 <= i < manifests@.len() ==> !manifest_matches(#[trigger] manifests@[i], guarded_project_hash@, instance_id@, role),
        r matches Ok(Some(p)) ==> exists|i: int|
            0 <= i < manifests@.len() && manifest_matches(#[trigger] manifests@[i], guarded_project_hash@, instance_id@, role)
                && p@ == manifest_side(manifests@[i], role).path@ && forall|j: int|
                0 <= j < manifests@.len() && manifest_matches(#[trigger] manifests@[j], guarded_project_hash@, instance_id@, role)
                    ==> !crate::text::lex_lt(manifest_key(manifests@[i]), manifest_key(manifests@[j])),
{
    let mut best: Option<usize> = None;
    let mut best_key: Vec<char> = Vec::new();
    let mut i: usize = 0;
    assert(manifests@.subrange(0, 0) == Seq::<PairCommitManifest>::empty());
    while i < manifests.len()
        invariant
            i <= manifests@.len(),
            sink@ == old(sink)@ + manifest_events(manifests@.subrange(0, i as int)),
            forall|j: int|
                0 <= j < i && manifest_matches(#[trigger] manifests@[j], guarded_project_hash@, instance_id@, role)
                    ==> path_has_prefix(manifest_side(manifests@[j], role).path@, base_dir@),
            best is None ==> forall|j: int|
                0 <= j < i ==> !manifest_matches(#[trigger] manifests@[j], guarded_project_hash@, instance_id@, role),
            best matches Some(b) ==> {
                &&& b < i
                &&& manifest_matches(manifests@[b as int], guarded_project_hash@, instance_id@, role)
                &&& best_key@ == manifest_key(manifests@[b as int])
                &&& forall|j: int|
                    0 <= j < i && manifest_matches(#[trigger] manifests@[j], guarded_project_hash@, instance_id@, role)
                        ==> !crate::text::lex_lt(manifest_key(manifests@[b as int]), manifest_key(manifests@[j]))
            },
        decreases manifests@.len() - i,
    {
        let m = &manifests[i];
        let ghost pre = manifests@.subrange(0, i as int);
        assert(manifests@.subrange(0, i + 1).drop_last() == pre);
        assert(manifests@.subrange(0, i + 1).last() == manifests@[i as int]);
        let mph = crate::path_identity::guard_path_component(
            sink,
            m.project_hash.as_str(),
            "append_annotation.manifest_project_hash",
        );
        assert(old(sink)@ + manifest_events(pre) + crate::path_identity::guard_events(
            "append_annotation.manifest_project_hash"@,
            m.project_hash@,
        ) == old(sink)@ + manifest_events(manifests@.subrange(0, i + 1)));
        let side = match role {
            Role::Pre => &m.pre,
            Role::Post => &m.post,
        };
        let matches = str_equal(mph.as_str(), guarded_project_hash) && str_equal(
            m.schema_version.as_str(),
            "pair_record_session.v1",
        ) && str_equal(side.role.as_str(), role.as_str()) && str_equal(
            side.instance_id.as_str(),
            instance_id,
        );
        if matches {
            if !side.path.starts_with(base_dir) {
                return Err(MemberPathEscapesBase);
            }
            let mut key = chars_of(m.committed_at.as_str());
            push_str(&mut key, ":");
            push_str(&mut key, m.file_name.as_str());
            let take = match best {
                None => true,
                Some(_) => crate::text::chars_lex_lt(best_key.as_slice(), key.as_slice()),
            };
            proof {
                let k = manifest_key(manifests@[i as int]);
                crate::text::lemma_lex_irreflexive(k);
                if let Some(b) = best {
                    let bk = manifest_key(manifests@[b as int]);
                    crate::text::lemma_lex_asymmetric(bk, k);
                    if take {
                        assert forall|j: int|
                            0 <= j < i && manifest_matches(#[trigger] manifests@[j], guarded_project_hash@, instance_id@, role)
                                implies !crate::text::lex_lt(k, manifest_key(manifests@[j])) by {
                            crate::text::lemma_lex_transitive(bk, k, manifest_key(manifests@[j]));
                        }
                    }
                }
            }
            if take {
                best = Some(i);
                best_key = key;
            }
        }
        i = i + 1;
    }
    assert(manifests@.subrange(0, manifests@.len() as int) == manifests@);
    match best {
        Some(b) => {
            let side = match role {
                Role::Pre => &manifests[b].pre,
                Role::Post => &manifests[b].post,
            };
            Ok(Some(side.path.copy()))
        },
        None => Ok(None),
    }
}

} // verus!
