//! The publish gate of a Record side: the facts a Record's TRACE timing is judged on, the
//! coverage of a latency-mapped TRACE lattice, and the failure reasons that keep a side out of
//! the public shelf. Only the integer facts of a Record take part; measured values do not.
use vstd::prelude::*;

use crate::path_model::str_equal;
use crate::plugin_data::{BounceTake, TraceDiagnostics};

verus! {

/// Interval between TRACE frames, in milliseconds.
pub const TRACE_FRAME_INTERVAL_MS: u64 = 100;

/// One untouched producer clock observation that formed a measured TRACE frame.
#[derive(Debug, Clone)]
pub struct ClockObservation {
    /// `t_ms` of the frame the observation produced.
    pub frame_t_ms: u64,
    pub producer_position_samples: Option<i64>,
    pub output_presentation_latency_samples: Option<u32>,
}

/// The timing facts of one Record side.
#[derive(Debug, Clone)]
pub struct TraceFacts {
    /// `t_ms` of each measured frame, in order.
    pub frame_t_ms: Vec<u64>,
    /// WAV-axis position of each measured frame's slot, in order.
    pub trace_slot_positions: Vec<i64>,
    pub trace_clock_resolution: Option<String>,
    pub trace_clock_observations: Vec<ClockObservation>,
    /// WAV time reference of the expected WAV, when one is known.
    pub expected_wav_time_reference_samples: Option<u64>,
    /// Callback position of `t_ms = 0` on the producer's TRACE clock, when one is known.
    pub trace_clock_origin_position_samples: Option<i64>,
    pub trace_diagnostics: Option<TraceDiagnostics>,
    pub bounce_take: Option<BounceTake>,
}

pub open spec fn fits_i64(x: int) -> bool {
    i64::MIN <= x <= i64::MAX
}

/// The TRACE uses the producer-plus-output-latency WAV lattice.
pub open spec fn latency_mapped(f: TraceFacts) -> bool {
    match f.trace_clock_resolution {
        Some(r) => r@ == "producer_plus_output_latency"@,
        None => false,
    }
}

/// Whether the TRACE uses the producer-plus-output-latency WAV lattice.
pub fn uses_latency_mapped_wav_grid(f: &TraceFacts) -> (r: bool)
    ensures
        r == latency_mapped(*f),
{
    match &f.trace_clock_resolution {
        Some(r) => str_equal(r.as_str(), "producer_plus_output_latency"),
        None => false,
    }
}

/// WAV sample of TRACE slot 0: the expected WAV's time reference when it fits `i64`, else the
/// producer clock origin.
pub open spec fn wav_origin(f: TraceFacts) -> Option<int> {
    match f.expected_wav_time_reference_samples {
        Some(r) if r <= i64::MAX => Some(r as int),
        _ => match f.trace_clock_origin_position_samples {
            Some(o) => Some(o as int),
            None => None,
        },
    }
}

fn wav_origin_exec(f: &TraceFacts) -> (r: Option<i64>)
    ensures
        match r {
            Some(o) => wav_origin(*f) == Some(o as int),
            None => wav_origin(*f) is None,
        },
{
    match f.expected_wav_time_reference_samples {
        Some(r) if r <= (i64::MAX as u64) => Some(r as i64),
        _ => f.trace_clock_origin_position_samples,
    }
}

/// The slot-to-time journal after one more observation: observations without both a producer
/// position and an output latency are skipped, an arithmetic overflow or a second observation
/// for one listed slot spoils the journal (`None`), and observations of unlisted slots are
/// ignored.
pub open spec fn journal_step(
    state: Option<Map<int, u64>>,
    o: ClockObservation,
    origin: int,
    slots: Seq<i64>,
) -> Option<Map<int, u64>> {
    match state {
        None => None,
        Some(m) => match (o.producer_position_samples, o.output_presentation_latency_samples) {
            (Some(p), Some(l)) => {
                let aligned = p + l;
                let slot = aligned - origin;
                if !fits_i64(aligned) || !fits_i64(slot) {
                    None
                } else if !slots.contains(slot as i64) {
                    Some(m)
                } else if m.dom().contains(slot) {
                    None
                } else {
                    Some(m.insert(slot, o.frame_t_ms))
                }
            },
            _ => Some(m),
        },
    }
}

/// The slot-to-time journal of a sequence of observations.
pub open spec fn journal(obs: Seq<ClockObservation>, origin: int, slots: Seq<i64>) -> Option<Map<int, u64>>
    decreases obs.len(),
{
    if obs.len() == 0 {
        Some(Map::empty())
    } else {
        journal_step(journal(obs.drop_last(), origin, slots), obs.last(), origin, slots)
    }
}

pub open spec fn strictly_increasing(s: Seq<u64>) -> bool {
    forall|i: int, j: int| 0 <= i < j < s.len() ==> s[i] < s[j]
}

/// The producer time of every TRACE slot, read from the untouched observation journal: `None`
/// when there is no journal, no origin, the journal is spoiled, a slot has no observation, or
/// the times do not strictly increase.
pub open spec fn source_times(f: TraceFacts) -> Option<Seq<u64>> {
    if f.trace_clock_observations@.len() == 0 {
        None
    } else {
        match wav_origin(f) {
            None => None,
            Some(origin) => match journal(f.trace_clock_observations@, origin, f.trace_slot_positions@) {
                None => None,
                Some(m) => {
                    let slots = f.trace_slot_positions@;
                    if (forall|i: int| 0 <= i < slots.len() ==> m.dom().contains(slots[i] as int)) {
                        let times = Seq::new(slots.len(), |i: int| m[slots[i] as int]);
                        if strictly_increasing(times) {
                            Some(times)
                        } else {
                            None
                        }
                    } else {
                        None
                    }
                },
            },
        }
    }
}

proof fn lemma_journal_spoiled_stays(obs: Seq<ClockObservation>, k: int, origin: int, slots: Seq<i64>)
    requires
        0 <= k <= obs.len(),
        journal(obs.subrange(0, k), origin, slots) is None,
    ensures
        journal(obs, origin, slots) is None,
    decreases obs.len() - k,
{
    if k < obs.len() {
        let next = obs.subrange(0, k + 1);
        assert(next.drop_last() == obs.subrange(0, k));
        lemma_journal_spoiled_stays(obs, k + 1, origin, slots);
    } else {
        assert(obs.subrange(0, k) == obs);
    }
}

/// The journal as two parallel lists: `keys` distinct, `vals[i]` the time of slot `keys[i]`.
pub open spec fn as_map(keys: Seq<i64>, vals: Seq<u64>) -> Map<int, u64>
    decreases keys.len(),
{
    if keys.len() == 0 || vals.len() == 0 {
        Map::empty()
    } else {
        as_map(keys.drop_last(), vals.drop_last()).insert(keys.last() as int, vals.last())
    }
}

proof fn lemma_as_map_contains(keys: Seq<i64>, vals: Seq<u64>, i: int)
    requires
        keys.len() == vals.len(),
        0 <= i < keys.len(),
    ensures
        as_map(keys, vals).dom().contains(keys[i] as int),
    decreases keys.len(),
{
    if i < keys.len() - 1 {
        lemma_as_map_contains(keys.drop_last(), vals.drop_last(), i);
        assert(keys.drop_last()[i] == keys[i]);
    }
}

proof fn lemma_as_map_only(keys: Seq<i64>, vals: Seq<u64>, x: int)
    requires
        keys.len() == vals.len(),
        as_map(keys, vals).dom().contains(x),
    ensures
        keys.contains(x as i64),
        fits_i64(x),
    decreases keys.len(),
{
    if x == keys.last() as int {
        assert(keys[keys.len() - 1] == x as i64);
    } else {
        lemma_as_map_only(keys.drop_last(), vals.drop_last(), x);
        let i = choose|i: int| 0 <= i < keys.drop_last().len() && keys.drop_last()[i] == x as i64;
        assert(keys[i] == x as i64);
    }
}

proof fn lemma_as_map_value(keys: Seq<i64>, vals: Seq<u64>, i: int)
    requires
        keys.len() == vals.len(),
        0 <= i < keys.len(),
        forall|a: int, b: int| 0 <= a < b < keys.len() ==> keys[a] != keys[b],
    ensures
        as_map(keys, vals).dom().contains(keys[i] as int),
        as_map(keys, vals)[keys[i] as int] == vals[i],
    decreases keys.len(),
{
    lemma_as_map_contains(keys, vals, i);
    if i < keys.len() - 1 {
        lemma_as_map_value(keys.drop_last(), vals.drop_last(), i);
        assert(keys[i] != keys[keys.len() - 1]);
        assert(keys.drop_last()[i] == keys[i]);
        assert(vals.drop_last()[i] == vals[i]);
    }
}

fn contains_i64(v: &Vec<i64>, x: i64) -> (r: Option<usize>)
    ensures
        match r {
            Some(k) => k < v@.len() && v@[k as int] == x,
            None => !v@.contains(x),
        },
{
    let mut i: usize = 0;
    while i < v.len()
        invariant
            i <= v@.len(),
            forall|j: int| 0 <= j < i ==> v@[j] != x,
        decreases v@.len() - i,
    {
        if v[i] == x {
            return Some(i);
        }
        i = i + 1;
    }
    None
}

/// The producer time of every TRACE slot, from the untouched observation journal.
pub fn latency_mapped_source_times(f: &TraceFacts) -> (r: Option<Vec<u64>>)
    ensures
        match r {
            Some(v) => source_times(*f) == Some(v@),
            None => source_times(*f) is None,
        },
{
    let obs = &f.trace_clock_observations;
    let slots = &f.trace_slot_positions;
    if obs.len() == 0 {
        return None;
    }
    let origin = match wav_origin_exec(f) {
        Some(o) => o,
        None => return None,
    };
    let ghost g = origin as int;
    let mut keys: Vec<i64> = Vec::new();
    let mut vals: Vec<u64> = Vec::new();
    let mut i: usize = 0;
    assert(obs@.subrange(0, 0) == Seq::<ClockObservation>::empty());
    while i < obs.len()
        invariant
            i <= obs@.len(),
            obs@ == f.trace_clock_observations@,
            slots@ == f.trace_slot_positions@,
            obs@.len() > 0,
            wav_origin(*f) == Some(g),
            g == origin as int,
            keys@.len() == vals@.len(),
            forall|a: int, b: int| 0 <= a < b < keys@.len() ==> keys@[a] != keys@[b],
            journal(obs@.subrange(0, i as int), g, slots@) == Some(as_map(keys@, vals@)),
        decreases obs@.len() - i,
    {
        let o = &obs[i];
        let ghost pre = obs@.subrange(0, i as int);
        assert(obs@.subrange(0, i + 1).drop_last() == pre);
        assert(obs@.subrange(0, i + 1).last() == obs@[i as int]);
        match (o.producer_position_samples, o.output_presentation_latency_samples) {
            (Some(p), Some(l)) => {
                let aligned = match p.checked_add(l as i64) {
                    Some(a) => a,
                    None => {
                        proof {
                            lemma_journal_spoiled_stays(obs@, i + 1, g, slots@);
                        }
                        return None;
                    },
                };
                let slot = match aligned.checked_sub(origin) {
                    Some(s) => s,
                    None => {
                        proof {
                            lemma_journal_spoiled_stays(obs@, i + 1, g, slots@);
                        }
                        return None;
                    },
                };
                if contains_i64(slots, slot).is_some() {
                    if let Some(k) = contains_i64(&keys, slot) {
                        proof {
                            lemma_as_map_contains(keys@, vals@, k as int);
                            lemma_journal_spoiled_stays(obs@, i + 1, g, slots@);
                        }
                        return None;
                    }
                    proof {
                        if as_map(keys@, vals@).dom().contains(slot as int) {
                            lemma_as_map_only(keys@, vals@, slot as int);
                        }
                    }
                    let ghost old_keys = keys@;
                    let ghost old_vals = vals@;
                    keys.push(slot);
                    vals.push(o.frame_t_ms);
                    assert(keys@.drop_last() == old_keys);
                    assert(vals@.drop_last() == old_vals);
                }
            },
            _ => {},
        }
        i = i + 1;
    }
    assert(obs@.subrange(0, obs@.len() as int) == obs@);
    let mut times: Vec<u64> = Vec::new();
    let mut j: usize = 0;
    while j < slots.len()
        invariant
            j <= slots@.len(),
            obs@ == f.trace_clock_observations@,
            slots@ == f.trace_slot_positions@,
            obs@.len() > 0,
            wav_origin(*f) == Some(g),
            keys@.len() == vals@.len(),
            forall|a: int, b: int| 0 <= a < b < keys@.len() ==> keys@[a] != keys@[b],
            journal(obs@, g, slots@) == Some(as_map(keys@, vals@)),
            times@.len() == j,
            forall|t: int|
                #![trigger slots@[t]]
                0 <= t < j ==> as_map(keys@, vals@).dom().contains(slots@[t] as int) && times@[t]
                    == as_map(keys@, vals@)[slots@[t] as int],
        decreases slots@.len() - j,
    {
        match contains_i64(&keys, slots[j]) {
            Some(k) => {
                proof {
                    lemma_as_map_value(keys@, vals@, k as int);
                }
                let ghost before = times@;
                times.push(vals[k]);
                assert forall|t: int|
                    #![trigger slots@[t]]
                    0 <= t < j + 1 implies as_map(keys@, vals@).dom().contains(slots@[t] as int)
                        && times@[t] == as_map(keys@, vals@)[slots@[t] as int] by {
                    if t < j {
                        assert(times@[t] == before[t]);
                    }
                }
            },
            None => {
                proof {
                    if as_map(keys@, vals@).dom().contains(slots@[j as int] as int) {
                        lemma_as_map_only(keys@, vals@, slots@[j as int] as int);
                    }
                }
                return None;
            },
        }
        j = j + 1;
    }
    let ghost m = as_map(keys@, vals@);
    assert(times@ == Seq::new(slots@.len(), |t: int| m[slots@[t] as int]));
    assert forall|t: int| 0 <= t < slots@.len() implies m.dom().contains(#[trigger] slots@[t] as int) by {
        assert(t < j);
    }
    let mut k: usize = 1;
    while k < times.len()
        invariant
            1 <= k,
            times@.len() == slots@.len(),
            source_times(*f) == (if strictly_increasing(times@) {
                Some(times@)
            } else {
                None
            }),
            forall|a: int, b: int| 0 <= a < b < k && b < times@.len() ==> times@[a] < times@[b],
        decreases times@.len() - k,
    {
        if times[k - 1] >= times[k] {
            assert(!strictly_increasing(times@));
            return None;
        }
        k = k + 1;
    }
    Some(times)
}

} // verus!

verus! {

/// How a Record side's TRACE covers its WAV lattice.
#[derive(Debug, Clone, Copy, PartialEq, Eq, Structural)]
pub struct LatencyMappedTraceCoverage {
    pub expected_frame_count: u64,
    pub measured_frame_count: u64,
    pub missing_slots: u64,
}

/// Samples per 100 ms TRACE slot (at least 1).
pub open spec fn slot_len(sample_rate: u32) -> int {
    if sample_rate / 10 >= 1 { (sample_rate / 10) as int } else { 1 }
}

/// Half a slot (at least 1).
pub open spec fn half_len(sample_rate: u32) -> int {
    if slot_len(sample_rate) / 2 >= 1 { slot_len(sample_rate) / 2 } else { 1 }
}

/// `t_ms` a frame of the slot at WAV position `slot` carries.
pub open spec fn slot_time_ms(slot: i64, sample_rate: u32) -> int {
    (if slot * 1000 > u64::MAX { u64::MAX as int } else { slot * 1000 }) / sample_rate as int
}

pub open spec fn increasing_slots(s: Seq<i64>) -> bool {
    forall|i: int, j: int| 0 <= i < j < s.len() ==> s[i] < s[j]
}

/// The lattice facts that must hold before coverage is counted: a latency-mapped TRACE with
/// one slot per frame, the first slot at least one slot into the WAV, the last within it,
/// every frame time equal to its slot's time, and slots strictly increasing.
pub open spec fn coverage_shape_ok(f: TraceFacts, duration_samples: u64, sample_rate: u32) -> bool {
    let slots = f.trace_slot_positions@;
    let times = f.frame_t_ms@;
    &&& latency_mapped(f)
    &&& sample_rate != 0
    &&& times.len() > 0
    &&& slots.len() == times.len()
    &&& duration_samples <= i64::MAX
    &&& slots[0] >= slot_len(sample_rate)
    &&& slots.last() <= duration_samples
    &&& forall|i: int| 0 <= i < slots.len() ==> #[trigger] slots[i] >= 0 && times[i] == slot_time_ms(slots[i], sample_rate)
    &&& increasing_slots(slots)
}

/// Missing slots between consecutive producer times: every 100 ms step beyond the first is a
/// missing frame; a step that is not a positive multiple of 100 ms makes the journal unusable.
pub open spec fn time_gap_terms(t: Seq<u64>) -> Option<int>
    decreases t.len(),
{
    if t.len() < 2 {
        Some(0)
    } else {
        match time_gap_terms(t.drop_last()) {
            None => None,
            Some(g) => {
                let d = t.last() - t[t.len() - 2];
                if d < 100 || d % 100 != 0 {
                    None
                } else {
                    Some(g + d / 100 - 1)
                }
            },
        }
    }
}

/// Missing slots between consecutive WAV slots by cadence (rounded to whole slots); a step
/// shorter than half a slot, or one that overflows, makes the lattice unusable.
pub open spec fn cadence_terms(s: Seq<i64>, slot: int, half: int) -> Option<int>
    decreases s.len(),
{
    if s.len() < 2 {
        Some(0)
    } else {
        match cadence_terms(s.drop_last(), slot, half) {
            None => None,
            Some(g) => {
                let d = s.last() - s[s.len() - 2];
                if !fits_i64(d) || d < half || !fits_i64(d + half) {
                    None
                } else {
                    let c = (d + half) / slot;
                    Some(g + (if c >= 1 { c } else { 1 }) - 1)
                }
            },
        }
    }
}

/// Completes a coverage count from the head and internal gaps: adds the missing tail slots and
/// the measured frames, and fails on `u64` overflow.
pub open spec fn coverage_with(f: TraceFacts, duration_samples: u64, sample_rate: u32, missing: int) -> Option<LatencyMappedTraceCoverage> {
    let slot = slot_len(sample_rate);
    let total = missing + (duration_samples - f.trace_slot_positions@.last()) / slot;
    let measured = f.frame_t_ms@.len();
    if measured + total > u64::MAX {
        None
    } else {
        Some(LatencyMappedTraceCoverage {
            expected_frame_count: (measured + total) as u64,
            measured_frame_count: measured as u64,
            missing_slots: total as u64,
        })
    }
}

/// The already-signed diagnostics stand for the coverage when they agree with the payload.
pub open spec fn diagnostics_agree(f: TraceFacts) -> bool {
    f.trace_diagnostics matches Some(d) && d.measured_frame_count == f.frame_t_ms@.len() && d.expected_frame_count
        == (if d.measured_frame_count + d.missing_slots > u64::MAX {
        u64::MAX as int
    } else {
        d.measured_frame_count + d.missing_slots
    })
}

/// Coverage of a latency-mapped TRACE over a WAV of `duration_samples` samples: complete 100 ms
/// windows that can exist on this side's lattice. Head slots before the first measured one,
/// internal gaps and tail slots count as missing; the partial edges left by a presentation
/// latency phase do not. Internal gaps come from the producer journal when there is one, from
/// the signed diagnostics when they agree with the payload, and otherwise from the slot cadence.
pub open spec fn coverage(f: TraceFacts, duration_samples: u64, sample_rate: u32) -> Option<LatencyMappedTraceCoverage> {
    if !coverage_shape_ok(f, duration_samples, sample_rate) {
        None
    } else {
        let slot = slot_len(sample_rate);
        let first = f.trace_slot_positions@[0] as int;
        let head = if first / slot >= 1 { first / slot - 1 } else { 0 };
        if f.trace_clock_observations@.len() > 0 {
            match source_times(f) {
                None => None,
                Some(t) => match time_gap_terms(t) {
                    None => None,
                    Some(g) => coverage_with(f, duration_samples, sample_rate, head + g),
                },
            }
        } else if diagnostics_agree(f) {
            let d = f.trace_diagnostics->0;
            Some(LatencyMappedTraceCoverage {
                expected_frame_count: d.expected_frame_count,
                measured_frame_count: d.measured_frame_count,
                missing_slots: d.missing_slots,
            })
        } else {
            match cadence_terms(f.trace_slot_positions@, slot, half_len(sample_rate)) {
                None => None,
                Some(g) => coverage_with(f, duration_samples, sample_rate, head + g),
            }
        }
    }
}

proof fn lemma_time_gap_terms_prefix(t: Seq<u64>, k: int)
    requires
        0 <= k <= t.len(),
    ensures
        time_gap_terms(t.subrange(0, k)) is None ==> time_gap_terms(t) is None,
        time_gap_terms(t.subrange(0, k)) matches Some(a) ==> (time_gap_terms(t) matches Some(b) ==> a <= b),
        time_gap_terms(t.subrange(0, k)) matches Some(a) ==> a >= 0,
    decreases t.len() - k,
{
    if k < t.len() {
        let n = t.subrange(0, k + 1);
        assert(n.drop_last() == t.subrange(0, k));
        if k >= 1 {
            assert(n[n.len() - 2] == t[k - 1]);
        }
        lemma_time_gap_terms_prefix(t, k + 1);
    } else {
        assert(t.subrange(0, k) == t);
    }
    lemma_time_gap_terms_nonneg(t.subrange(0, k));
}

proof fn lemma_time_gap_terms_nonneg(t: Seq<u64>)
    ensures
        time_gap_terms(t) matches Some(a) ==> a >= 0,
    decreases t.len(),
{
    if t.len() >= 2 {
        lemma_time_gap_terms_nonneg(t.drop_last());
    }
}

proof fn lemma_cadence_terms_nonneg(s: Seq<i64>, slot: int, half: int)
    requires
        slot >= 1,
    ensures
        cadence_terms(s, slot, half) matches Some(a) ==> a >= 0,
    decreases s.len(),
{
    if s.len() >= 2 {
        lemma_cadence_terms_nonneg(s.drop_last(), slot, half);
    }
}

proof fn lemma_cadence_terms_prefix(s: Seq<i64>, k: int, slot: int, half: int)
    requires
        0 <= k <= s.len(),
        slot >= 1,
    ensures
        cadence_terms(s.subrange(0, k), slot, half) is None ==> cadence_terms(s, slot, half) is None,
        cadence_terms(s.subrange(0, k), slot, half) matches Some(a) ==> (cadence_terms(s, slot, half) matches Some(b) ==> a <= b),
    decreases s.len() - k,
{
    if k < s.len() {
        let n = s.subrange(0, k + 1);
        assert(n.drop_last() == s.subrange(0, k));
        if k >= 1 {
            assert(n[n.len() - 2] == s[k - 1]);
        }
        lemma_cadence_terms_prefix(s, k + 1, slot, half);
    } else {
        assert(s.subrange(0, k) == s);
    }
}

} // verus!

verus! {

fn slot_time_ms_exec(slot: i64, sample_rate: u32) -> (t: u64)
    requires
        slot >= 0,
        sample_rate != 0,
    ensures
        t == slot_time_ms(slot, sample_rate),
{
    let s = slot as u64;
    let m: u64 = if s > u64::MAX / 1000 {
        u64::MAX
    } else {
        s * 1000
    };
    m / (sample_rate as u64)
}

proof fn lemma_div_nonneg(a: int, b: int)
    requires
        a >= 0,
        b >= 1,
    ensures
        a / b >= 0,
        a / b <= a,
{
    assert(a / b >= 0) by (nonlinear_arith)
        requires
            a >= 0,
            b >= 1,
    ;
    assert(a / b <= a) by (nonlinear_arith)
        requires
            a >= 0,
            b >= 1,
    ;
}

fn coverage_shape_check(f: &TraceFacts, duration_samples: u64, sample_rate: u32) -> (r: bool)
    ensures
        r == coverage_shape_ok(*f, duration_samples, sample_rate),
{
    let slots = &f.trace_slot_positions;
    let times = &f.frame_t_ms;
    if !uses_latency_mapped_wav_grid(f) || sample_rate == 0 || times.len() == 0 || slots.len()
        != times.len() {
        return false;
    }
    let slot: i64 = if sample_rate / 10 >= 1 {
        (sample_rate / 10) as i64
    } else {
        1
    };
    if duration_samples > (i64::MAX as u64) {
        return false;
    }
    let n = slots.len();
    if slots[0] < slot || slots[n - 1] > (duration_samples as i64) {
        return false;
    }
    let mut i: usize = 0;
    while i < n
        invariant
            i <= n,
            n == slots@.len(),
            n == times@.len(),
            slots@ == f.trace_slot_positions@,
            times@ == f.frame_t_ms@,
            sample_rate != 0,
            forall|j: int| 0 <= j < i ==> #[trigger] slots@[j] >= 0 && times@[j] == slot_time_ms(slots@[j], sample_rate),
        decreases n - i,
    {
        let s = slots[i];
        if s < 0 {
            assert(!(slots@[i as int] >= 0));
            return false;
        }
        if times[i] != slot_time_ms_exec(s, sample_rate) {
            assert(!(times@[i as int] == slot_time_ms(slots@[i as int], sample_rate)));
            return false;
        }
        i = i + 1;
    }
    let mut k: usize = 1;
    while k < n
        invariant
            1 <= k <= n,
            n == slots@.len(),
            slots@ == f.trace_slot_positions@,
            forall|a: int, b: int| 0 <= a < b < k ==> slots@[a] < slots@[b],
        decreases n - k,
    {
        if slots[k - 1] >= slots[k] {
            assert(!increasing_slots(f.trace_slot_positions@));
            return false;
        }
        k = k + 1;
    }
    true
}

/// `head` plus the journal's internal gaps, or `None` when the journal is unusable or the sum
/// leaves `u64`.
fn time_gaps_after(t: &Vec<u64>, head: u64) -> (r: Option<u64>)
    ensures
        match time_gap_terms(t@) {
            None => r is None,
            Some(g) => if head + g > u64::MAX {
                r is None
            } else {
                r == Some((head + g) as u64)
            },
        },
{
    let tn = t.len();
    if tn < 2 {
        return Some(head);
    }
    let mut missing = head;
    let mut i: usize = 1;
    assert(time_gap_terms(t@.subrange(0, 1)) == Some(0int));
    while i < tn
        invariant
            1 <= i <= tn,
            tn == t@.len(),
            time_gap_terms(t@.subrange(0, i as int)) == Some(missing - head),
        decreases tn - i,
    {
        let a = t[i - 1];
        let b = t[i];
        let ghost pre = t@.subrange(0, i as int);
        let ghost nxt = t@.subrange(0, i + 1);
        assert(nxt.drop_last() == pre);
        assert(nxt.last() == b && nxt[nxt.len() - 2] == a);
        proof {
            lemma_time_gap_terms_prefix(t@, i + 1);
        }
        if b < a {
            return None;
        }
        let d = b - a;
        if d < 100 || d % 100 != 0 {
            return None;
        }
        missing = match missing.checked_add(d / 100 - 1) {
            Some(m) => m,
            None => return None,
        };
        i = i + 1;
    }
    assert(t@.subrange(0, tn as int) == t@);
    Some(missing)
}

/// `head` plus the cadence gaps between WAV slots, or `None` when the lattice is unusable or
/// the sum leaves `u64`.
fn cadence_gaps_after(slots: &Vec<i64>, slot: i64, half: i64, head: u64) -> (r: Option<u64>)
    requires
        slot >= 1,
        half >= 1,
    ensures
        match cadence_terms(slots@, slot as int, half as int) {
            None => r is None,
            Some(g) => if head + g > u64::MAX {
                r is None
            } else {
                r == Some((head + g) as u64)
            },
        },
{
    let n = slots.len();
    if n < 2 {
        return Some(head);
    }
    let mut missing = head;
    let mut i: usize = 1;
    assert(cadence_terms(slots@.subrange(0, 1), slot as int, half as int) == Some(0int));
    while i < n
        invariant
            1 <= i <= n,
            n == slots@.len(),
            slot >= 1,
            half >= 1,
            cadence_terms(slots@.subrange(0, i as int), slot as int, half as int) == Some(missing - head),
        decreases n - i,
    {
        let a = slots[i - 1];
        let b = slots[i];
        let ghost pre = slots@.subrange(0, i as int);
        let ghost nxt = slots@.subrange(0, i + 1);
        assert(nxt.drop_last() == pre);
        assert(nxt.last() == b && nxt[nxt.len() - 2] == a);
        proof {
            lemma_cadence_terms_prefix(slots@, i + 1, slot as int, half as int);
        }
        let d = match b.checked_sub(a) {
            Some(d) => d,
            None => return None,
        };
        if d < half {
            return None;
        }
        let dh = match d.checked_add(half) {
            Some(x) => x,
            None => return None,
        };
        let c = ((dh as u64) / (slot as u64)) as i64;
        let cc: i64 = if c >= 1 {
            c
        } else {
            1
        };
        missing = match missing.checked_add((cc - 1) as u64) {
            Some(m) => m,
            None => return None,
        };
        i = i + 1;
    }
    assert(slots@.subrange(0, n as int) == slots@);
    Some(missing)
}

/// Coverage of a latency-mapped TRACE over a WAV of `duration_samples` samples at
/// `sample_rate`, or `None` when the lattice facts do not support a count.
pub fn latency_mapped_trace_coverage(f: &TraceFacts, duration_samples: u64, sample_rate: u32) -> (r: Option<
    LatencyMappedTraceCoverage,
>)
    ensures
        r == coverage(*f, duration_samples, sample_rate),
{
    if !coverage_shape_check(f, duration_samples, sample_rate) {
        return None;
    }
    let slots = &f.trace_slot_positions;
    let n = slots.len();
    let slot: i64 = if sample_rate / 10 >= 1 {
        (sample_rate / 10) as i64
    } else {
        1
    };
    let half: i64 = if slot / 2 >= 1 {
        slot / 2
    } else {
        1
    };
    let first = slots[0];
    let q = ((first as u64) / (slot as u64)) as i64;
    proof {
        assert(q >= 1) by (nonlinear_arith)
            requires
                first >= slot,
                slot >= 1,
                q == first / slot,
        ;
    }
    let head: u64 = (q - 1) as u64;
    let tail = (duration_samples as i64) - slots[n - 1];
    proof {
        lemma_div_nonneg(tail as int, slot as int);
    }
    let tail_slots: u64 = (tail as u64) / (slot as u64);
    let measured: u64 = n as u64;
    let missing = if f.trace_clock_observations.len() > 0 {
        let t = match latency_mapped_source_times(f) {
            Some(t) => t,
            None => return None,
        };
        proof {
            lemma_time_gap_terms_nonneg(t@);
        }
        match time_gaps_after(&t, head) {
            Some(m) => m,
            None => return None,
        }
    } else {
        match &f.trace_diagnostics {
            Some(d) => {
                let sat = if d.measured_frame_count > u64::MAX - d.missing_slots {
                    u64::MAX
                } else {
                    d.measured_frame_count + d.missing_slots
                };
                if d.measured_frame_count == measured && d.expected_frame_count == sat {
                    return Some(
                        LatencyMappedTraceCoverage {
                            expected_frame_count: d.expected_frame_count,
                            measured_frame_count: d.measured_frame_count,
                            missing_slots: d.missing_slots,
                        },
                    );
                }
            },
            None => {},
        }
        proof {
            lemma_cadence_terms_nonneg(slots@, slot as int, half as int);
        }
        match cadence_gaps_after(slots, slot, half, head) {
            Some(m) => m,
            None => return None,
        }
    };
    let total = match missing.checked_add(tail_slots) {
        Some(m) => m,
        None => return None,
    };
    let expected = match measured.checked_add(total) {
        Some(e) => e,
        None => return None,
    };
    Some(
        LatencyMappedTraceCoverage {
            expected_frame_count: expected,
            measured_frame_count: measured,
            missing_slots: total,
        },
    )
}

} // verus!

verus! {

/// `seq![r]` when `cond` holds, else nothing.
pub open spec fn reason_if(cond: bool, r: Seq<char>) -> Seq<Seq<char>> {
    if cond {
        seq![r]
    } else {
        Seq::empty()
    }
}

pub(crate) fn push_if(v: &mut Vec<&'static str>, cond: bool, r: &'static str)
    ensures
        crate::plugin_data::str_views(final(v)@) == crate::plugin_data::str_views(old(v)@) + reason_if(cond, r@),
{
    let ghost before = v@;
    if cond {
        v.push(r);
        assert(crate::plugin_data::str_views(v@) == crate::plugin_data::str_views(before).push(r@));
        assert(crate::plugin_data::str_views(before).push(r@) == crate::plugin_data::str_views(before) + seq![r@]);
    } else {
        assert(crate::plugin_data::str_views(before) + Seq::<Seq<char>>::empty() == crate::plugin_data::str_views(before));
    }
}

/// A frame time differs from its slot's time (over the slots and frames both lists hold).
pub open spec fn mapped_timeline_mismatch(f: TraceFacts, sample_rate: u32) -> bool {
    exists|i: int|
        0 <= i < f.trace_slot_positions@.len() && i < f.frame_t_ms@.len() && (#[trigger] f.trace_slot_positions@[i] < 0
            || f.frame_t_ms@[i] != slot_time_ms(f.trace_slot_positions@[i], sample_rate))
}

/// A frame time differs from the 100 ms cadence `(index + 1) * 100`.
pub open spec fn cadence_timeline_mismatch(f: TraceFacts) -> bool {
    exists|i: int| 0 <= i < f.frame_t_ms@.len() && #[trigger] f.frame_t_ms@[i] != (i + 1) * 100
}

/// The failure reasons of a bounce take against the TRACE it bounds, in the order they are
/// checked and without repeats; none when there is no take or its sample rate is 0.
pub open spec fn bounce_take_reasons(f: TraceFacts) -> Seq<Seq<char>> {
    match f.bounce_take {
        None => Seq::empty(),
        Some(take) => if take.sample_rate == 0 {
            Seq::empty()
        } else {
            let duration_ms = crate::plugin_data::rescaled_duration(take.duration_samples as nat, take.sample_rate as nat, 1000);
            let frames48k = crate::plugin_data::rescaled_duration(take.duration_samples as nat, take.sample_rate as nat, 48_000);
            let mapped = coverage(f, take.duration_samples, take.sample_rate);
            let expected = match mapped {
                Some(c) => c.expected_frame_count as int,
                None => duration_ms / 100,
            };
            let frames = f.frame_t_ms@.len();
            let diag_expected = match f.trace_diagnostics {
                Some(d) => d.expected_frame_count != expected,
                None => false,
            };
            let diag_measured = match f.trace_diagnostics {
                Some(d) => take.frame_count != d.measured_frame_count,
                None => false,
            };
            let overflow = expected > usize::MAX;
            let timeline = !overflow && (if mapped is Some {
                mapped_timeline_mismatch(f, take.sample_rate)
            } else {
                cadence_timeline_mismatch(f)
            });
            crate::plugin_data::dedup_first(
                reason_if(take.wav_start_sample != 0, "bounce_take_start_sample_nonzero"@)
                    + reason_if(take.wav_end_sample != take.duration_samples, "bounce_take_end_sample_mismatch"@)
                    + reason_if(take.start_t_ms != 0, "bounce_take_start_time_nonzero"@)
                    + reason_if(take.end_t_ms != duration_ms, "bounce_take_end_time_mismatch"@)
                    + reason_if(take.duration_frames_48k != frames48k, "bounce_take_48k_duration_mismatch"@)
                    + reason_if(diag_expected, "trace_expected_frame_count_bounce_take_mismatch"@)
                    + reason_if(diag_measured, "bounce_take_trace_frame_count_mismatch"@)
                    + reason_if(take.frame_count != frames, "bounce_take_frame_payload_count_mismatch"@)
                    + reason_if(take.trace_sample_count < take.frame_count, "bounce_take_trace_sample_count_mismatch"@)
                    + (if overflow {
                    reason_if(true, "trace_expected_frame_count_overflow"@)
                } else {
                    reason_if(frames != expected, "trace_frame_payload_count_bounce_take_mismatch"@)
                })
                    + reason_if(timeline, "trace_frame_timeline_mismatch"@),
            )
        },
    }
}

fn mapped_timeline_mismatch_exec(f: &TraceFacts, sample_rate: u32) -> (r: bool)
    requires
        sample_rate != 0,
    ensures
        r == mapped_timeline_mismatch(*f, sample_rate),
{
    let slots = &f.trace_slot_positions;
    let times = &f.frame_t_ms;
    let n = if slots.len() < times.len() {
        slots.len()
    } else {
        times.len()
    };
    let mut i: usize = 0;
    while i < n
        invariant
            i <= n,
            n <= slots@.len(),
            n <= times@.len(),
            n == slots@.len() || n == times@.len(),
            slots@ == f.trace_slot_positions@,
            times@ == f.frame_t_ms@,
            sample_rate != 0,
            forall|j: int| 0 <= j < i ==> !(#[trigger] slots@[j] < 0 || times@[j] != slot_time_ms(slots@[j], sample_rate)),
        decreases n - i,
    {
        let s = slots[i];
        if s < 0 || times[i] != slot_time_ms_exec(s, sample_rate) {
            assert(f.trace_slot_positions@[i as int] < 0 || f.frame_t_ms@[i as int] != slot_time_ms(
                f.trace_slot_positions@[i as int],
                sample_rate,
            ));
            return true;
        }
        i = i + 1;
    }
    false
}

fn cadence_timeline_mismatch_exec(f: &TraceFacts) -> (r: bool)
    requires
        f.frame_t_ms@.len() <= u64::MAX / 100,
    ensures
        r == cadence_timeline_mismatch(*f),
{
    let times = &f.frame_t_ms;
    let mut i: usize = 0;
    while i < times.len()
        invariant
            i <= times@.len(),
            times@ == f.frame_t_ms@,
            times@.len() <= u64::MAX / 100,
            forall|j: int| 0 <= j < i ==> #[trigger] times@[j] == (j + 1) * 100,
        decreases times@.len() - i,
    {
        let expected: u64 = ((i as u64) + 1) * 100;
        if times[i] != expected {
            assert(f.frame_t_ms@[i as int] != (i + 1) * 100);
            return true;
        }
        i = i + 1;
    }
    false
}

/// The failure reasons of the Record's bounce take against its TRACE.
#[verifier::rlimit(50)]
pub fn trace_bounce_take_failure_reasons(f: &TraceFacts) -> (r: Vec<&'static str>)
    requires
        f.frame_t_ms@.len() <= u64::MAX / 100,
    ensures
        crate::plugin_data::str_views(r@) == bounce_take_reasons(*f),
{
    let take = match &f.bounce_take {
        Some(t) => t,
        None => {
            let v: Vec<&'static str> = Vec::new();
            assert(crate::plugin_data::str_views(v@) == Seq::<Seq<char>>::empty());
            return v;
        },
    };
    let duration_ms = match crate::plugin_data::bounce_take_duration_ms(take) {
        Some(d) => d,
        None => {
            let v: Vec<&'static str> = Vec::new();
            assert(crate::plugin_data::str_views(v@) == Seq::<Seq<char>>::empty());
            return v;
        },
    };
    let frames48k = crate::plugin_data::bounce_take_duration_frames_48k(take);
    let mapped = latency_mapped_trace_coverage(f, take.duration_samples, take.sample_rate);
    let expected: u64 = match mapped {
        Some(c) => c.expected_frame_count,
        None => duration_ms / TRACE_FRAME_INTERVAL_MS,
    };
    let frames = f.frame_t_ms.len();
    let mut v: Vec<&'static str> = Vec::new();
    assert(crate::plugin_data::str_views(v@) == Seq::<Seq<char>>::empty());
    push_if(&mut v, take.wav_start_sample != 0, "bounce_take_start_sample_nonzero");
    push_if(&mut v, take.wav_end_sample != take.duration_samples, "bounce_take_end_sample_mismatch");
    push_if(&mut v, take.start_t_ms != 0, "bounce_take_start_time_nonzero");
    push_if(&mut v, take.end_t_ms != duration_ms, "bounce_take_end_time_mismatch");
    let mismatch48 = match frames48k {
        Some(e) => take.duration_frames_48k != e,
        None => false,
    };
    push_if(&mut v, mismatch48, "bounce_take_48k_duration_mismatch");
    let (diag_expected, diag_measured) = match &f.trace_diagnostics {
        Some(d) => (d.expected_frame_count != expected, take.frame_count != d.measured_frame_count),
        None => (false, false),
    };
    push_if(&mut v, diag_expected, "trace_expected_frame_count_bounce_take_mismatch");
    push_if(&mut v, diag_measured, "bounce_take_trace_frame_count_mismatch");
    push_if(&mut v, take.frame_count != (frames as u64), "bounce_take_frame_payload_count_mismatch");
    push_if(&mut v, take.trace_sample_count < take.frame_count, "bounce_take_trace_sample_count_mismatch");
    let overflow = expected > (usize::MAX as u64);
    if overflow {
        push_if(&mut v, true, "trace_expected_frame_count_overflow");
    } else {
        push_if(&mut v, frames != (expected as usize), "trace_frame_payload_count_bounce_take_mismatch");
    }
    let timeline = if overflow {
        false
    } else {
        match mapped {
            Some(_) => mapped_timeline_mismatch_exec(f, take.sample_rate),
            None => cadence_timeline_mismatch_exec(f),
        }
    };
    push_if(&mut v, timeline, "trace_frame_timeline_mismatch");
    crate::plugin_data::dedup_reasons(v)
}

} // verus!

verus! {

/// The faults a Record side's TRACE diagnostics state of themselves.
pub open spec fn diag_part(f: TraceFacts) -> Seq<Seq<char>> {
    match f.trace_diagnostics {
        Some(d) => reason_if(d.expected_frame_count == 0, "zero_expected_trace_frames"@)
            + reason_if(d.missing_slots > 0, "missing_trace_slots"@)
            + reason_if(d.measured_frame_count != d.expected_frame_count, "trace_frame_count_mismatch"@)
            + reason_if((d.measured_frame_count as usize) != f.frame_t_ms@.len(), "trace_frame_payload_count_mismatch"@),
        None => seq!["missing_trace_diagnostics"@],
    }
}

/// The TRACE publish failure reasons of a Record side: its diagnostics' own faults, then the
/// bounce take's, without repeats.
pub open spec fn trace_publish_reasons(f: TraceFacts) -> Seq<Seq<char>> {
    crate::plugin_data::dedup_first(diag_part(f) + bounce_take_reasons(f))
}

pub(crate) fn append_reasons(v: &mut Vec<&'static str>, w: Vec<&'static str>)
    ensures
        crate::plugin_data::str_views(final(v)@) == crate::plugin_data::str_views(old(v)@) + crate::plugin_data::str_views(w@),
{
    let mut w = w;
    let ghost a = v@;
    let ghost b = w@;
    v.append(&mut w);
    assert(crate::plugin_data::str_views(v@) == crate::plugin_data::str_views(a) + crate::plugin_data::str_views(b));
}

fn push_diag_reasons(v: &mut Vec<&'static str>, f: &TraceFacts)
    ensures
        crate::plugin_data::str_views(final(v)@) == crate::plugin_data::str_views(old(v)@) + diag_part(*f),
{
    let ghost start = crate::plugin_data::str_views(v@);
    match &f.trace_diagnostics {
        Some(d) => {
            push_if(v, d.expected_frame_count == 0, "zero_expected_trace_frames");
            push_if(v, d.missing_slots > 0, "missing_trace_slots");
            push_if(v, d.measured_frame_count != d.expected_frame_count, "trace_frame_count_mismatch");
            push_if(
                v,
                (d.measured_frame_count as usize) != f.frame_t_ms.len(),
                "trace_frame_payload_count_mismatch",
            );
            assert(start + diag_part(*f) == start + reason_if(d.expected_frame_count == 0, "zero_expected_trace_frames"@)
                + reason_if(d.missing_slots > 0, "missing_trace_slots"@) + reason_if(
                d.measured_frame_count != d.expected_frame_count,
                "trace_frame_count_mismatch"@,
            ) + reason_if(
                (d.measured_frame_count as usize) != f.frame_t_ms@.len(),
                "trace_frame_payload_count_mismatch"@,
            ));
        },
        None => {
            push_if(v, true, "missing_trace_diagnostics");
        },
    }
}

/// The TRACE publish failure reasons of a Record side.
pub fn trace_publish_failure_reasons(f: &TraceFacts) -> (r: Vec<&'static str>)
    requires
        f.frame_t_ms@.len() <= u64::MAX / 100,
    ensures
        crate::plugin_data::str_views(r@) == trace_publish_reasons(*f),
{
    let mut v: Vec<&'static str> = Vec::new();
    assert(crate::plugin_data::str_views(v@) == Seq::<Seq<char>>::empty());
    push_diag_reasons(&mut v, f);
    assert(crate::plugin_data::str_views(v@) == diag_part(*f));
    append_reasons(&mut v, trace_bounce_take_failure_reasons(f));
    crate::plugin_data::dedup_reasons(v)
}

/// The facts a Record side is published on besides its TRACE timing.
#[derive(Debug, Clone)]
pub struct SideFacts {
    pub role: crate::plugin_data::Role,
    pub project_hash: String,
    pub instance_id: String,
    pub validity: bool,
    pub frame_count: u64,
    pub sample_rate: u32,
    pub record_session_id: Option<String>,
    pub paired_pre_instance_id: Option<String>,
    pub paired_post_instance_id: Option<String>,
    pub capture_generation_id: Option<String>,
    pub generation_started_at_ms: i64,
}

pub open spec fn missing_text(o: Option<String>) -> bool {
    match o {
        Some(s) => s@.len() == 0,
        None => true,
    }
}

/// The side does not name its pair peer.
pub open spec fn peer_missing_reason(s: SideFacts) -> Seq<Seq<char>> {
    match s.role {
        crate::plugin_data::Role::Pre => reason_if(missing_text(s.paired_post_instance_id), "missing_paired_post_instance_id"@),
        crate::plugin_data::Role::Post => reason_if(missing_text(s.paired_pre_instance_id), "missing_paired_pre_instance_id"@),
    }
}

/// Reasons a side cannot be published normally: invalid, empty, without sample rate, session
/// or peer.
pub open spec fn side_publish_reasons(s: SideFacts) -> Seq<Seq<char>> {
    crate::plugin_data::dedup_first(
        reason_if(!s.validity, "validity_false"@) + reason_if(s.frame_count == 0, "zero_trace_frames"@)
            + reason_if(s.sample_rate == 0, "missing_sample_rate"@) + reason_if(
            missing_text(s.record_session_id),
            "missing_record_session_id"@,
        ) + peer_missing_reason(s),
    )
}

/// The side belongs to a started capture generation.
pub open spec fn in_capture_generation(s: SideFacts) -> bool {
    !missing_text(s.capture_generation_id) && s.generation_started_at_ms > 0
}

/// Reasons a side cannot even be identified or displayed: an empty side outside any capture
/// generation, or no sample rate, session or peer. Timing and integrity are not among them.
pub open spec fn side_visibility_reasons(s: SideFacts) -> Seq<Seq<char>> {
    crate::plugin_data::dedup_first(
        reason_if(s.frame_count == 0 && !in_capture_generation(s), "zero_trace_frames"@) + reason_if(
            s.sample_rate == 0,
            "missing_sample_rate"@,
        ) + reason_if(missing_text(s.record_session_id), "missing_record_session_id"@)
            + peer_missing_reason(s),
    )
}

fn missing_text_exec(o: &Option<String>) -> (r: bool)
    ensures
        r == missing_text(*o),
{
    match o {
        Some(s) => s.as_str().is_empty(),
        None => true,
    }
}

fn push_peer_reason(v: &mut Vec<&'static str>, s: &SideFacts)
    ensures
        crate::plugin_data::str_views(final(v)@) == crate::plugin_data::str_views(old(v)@) + peer_missing_reason(*s),
{
    match s.role {
        crate::plugin_data::Role::Pre => push_if(v, missing_text_exec(&s.paired_post_instance_id), "missing_paired_post_instance_id"),
        crate::plugin_data::Role::Post => push_if(v, missing_text_exec(&s.paired_pre_instance_id), "missing_paired_pre_instance_id"),
    }
}

/// Reasons the side cannot be published normally.
pub fn side_publish_failure_reasons(s: &SideFacts) -> (r: Vec<&'static str>)
    ensures
        crate::plugin_data::str_views(r@) == side_publish_reasons(*s),
{
    let mut v: Vec<&'static str> = Vec::new();
    assert(crate::plugin_data::str_views(v@) == Seq::<Seq<char>>::empty());
    push_if(&mut v, !s.validity, "validity_false");
    assert(crate::plugin_data::str_views(v@) == reason_if(!s.validity, "validity_false"@));
    push_if(&mut v, s.frame_count == 0, "zero_trace_frames");
    push_if(&mut v, s.sample_rate == 0, "missing_sample_rate");
    push_if(&mut v, missing_text_exec(&s.record_session_id), "missing_record_session_id");
    push_peer_reason(&mut v, s);
    crate::plugin_data::dedup_reasons(v)
}

/// Reasons the side cannot be identified or displayed.
pub fn side_visibility_failure_reasons(s: &SideFacts) -> (r: Vec<&'static str>)
    ensures
        crate::plugin_data::str_views(r@) == side_visibility_reasons(*s),
{
    let mut v: Vec<&'static str> = Vec::new();
    assert(crate::plugin_data::str_views(v@) == Seq::<Seq<char>>::empty());
    let in_generation = !missing_text_exec(&s.capture_generation_id) && s.generation_started_at_ms > 0;
    push_if(&mut v, s.frame_count == 0 && !in_generation, "zero_trace_frames");
    assert(crate::plugin_data::str_views(v@) == reason_if(
        s.frame_count == 0 && !in_capture_generation(*s),
        "zero_trace_frames"@,
    ));
    push_if(&mut v, s.sample_rate == 0, "missing_sample_rate");
    push_if(&mut v, missing_text_exec(&s.record_session_id), "missing_record_session_id");
    push_peer_reason(&mut v, s);
    crate::plugin_data::dedup_reasons(v)
}

} // verus!

verus! {

/// Every reason that keeps a side from being displayed also keeps it from being published
/// normally: visibility is the weaker gate.
pub proof fn lemma_visibility_reasons_are_publish_reasons(s: SideFacts, x: Seq<char>)
    requires
        side_visibility_reasons(s).contains(x),
    ensures
        side_publish_reasons(s).contains(x),
{
    let vis_raw = reason_if(s.frame_count == 0 && !in_capture_generation(s), "zero_trace_frames"@) + reason_if(
        s.sample_rate == 0,
        "missing_sample_rate"@,
    ) + reason_if(missing_text(s.record_session_id), "missing_record_session_id"@) + peer_missing_reason(s);
    let pub_raw = reason_if(!s.validity, "validity_false"@) + reason_if(s.frame_count == 0, "zero_trace_frames"@)
        + reason_if(s.sample_rate == 0, "missing_sample_rate"@) + reason_if(
        missing_text(s.record_session_id),
        "missing_record_session_id"@,
    ) + peer_missing_reason(s);
    crate::plugin_data::lemma_dedup_same_entries(vis_raw);
    crate::plugin_data::lemma_dedup_same_entries(pub_raw);
    assert(vis_raw.contains(x));
    let k = choose|k: int| 0 <= k < vis_raw.len() && vis_raw[k] == x;
    let a = reason_if(s.frame_count == 0 && !in_capture_generation(s), "zero_trace_frames"@);
    let b = reason_if(s.sample_rate == 0, "missing_sample_rate"@);
    let c = reason_if(missing_text(s.record_session_id), "missing_record_session_id"@);
    let d = peer_missing_reason(s);
    let pa = reason_if(!s.validity, "validity_false"@);
    let pb = reason_if(s.frame_count == 0, "zero_trace_frames"@);
    if k < a.len() {
        assert(x == "zero_trace_frames"@);
        assert(pub_raw[pa.len() as int] == x);
    } else if k < a.len() + b.len() {
        assert(x == "missing_sample_rate"@);
        assert(pub_raw[(pa.len() + pb.len()) as int] == x);
    } else if k < a.len() + b.len() + c.len() {
        assert(x == "missing_record_session_id"@);
        assert(pub_raw[(pa.len() + pb.len() + b.len()) as int] == x);
    } else {
        let j = k - (a.len() + b.len() + c.len());
        assert(d[j] == x);
        assert(pub_raw[(pa.len() + pb.len() + b.len() + c.len()) + j] == x);
    }
    assert(pub_raw.contains(x));
}

/// A counted coverage accounts for every expected window: the measured frames are the
/// payload's frames and the expected count is measured plus missing (clamped to `u64`).
pub proof fn lemma_coverage_accounts_for_every_window(f: TraceFacts, duration_samples: u64, sample_rate: u32)
    requires
        coverage(f, duration_samples, sample_rate) is Some,
    ensures
        ({
            let c = coverage(f, duration_samples, sample_rate)->0;
            &&& c.measured_frame_count == f.frame_t_ms@.len()
            &&& c.expected_frame_count == (if c.measured_frame_count + c.missing_slots > u64::MAX {
                u64::MAX as int
            } else {
                c.measured_frame_count + c.missing_slots
            })
            &&& c.measured_frame_count > 0
        }),
{
    let slot = slot_len(sample_rate);
    let first = f.trace_slot_positions@[0] as int;
    let head = if first / slot >= 1 { first / slot - 1 } else { 0 };
    lemma_div_nonneg(duration_samples - f.trace_slot_positions@.last(), slot);
    lemma_cadence_terms_nonneg(f.trace_slot_positions@, slot, half_len(sample_rate));
    if f.trace_clock_observations@.len() > 0 {
        let t = source_times(f)->0;
        lemma_time_gap_terms_nonneg(t);
        let g = time_gap_terms(t)->0;
        assert(coverage(f, duration_samples, sample_rate) == coverage_with(f, duration_samples, sample_rate, head + g));
    } else if diagnostics_agree(f) {
    } else {
        let g = cadence_terms(f.trace_slot_positions@, slot, half_len(sample_rate))->0;
        assert(coverage(f, duration_samples, sample_rate) == coverage_with(f, duration_samples, sample_rate, head + g));
    }
}

} // verus!

verus! {

/// The expected WAV of a Record, as far as the publish gate looks at it.
#[derive(Debug, Clone)]
pub struct ExpectedWavFacts {
    /// The expected WAV metadata is complete and recent enough to bind a Record to.
    pub usable: bool,
    pub expected_duration_samples: u64,
    pub expected_sample_rate: u32,
    /// Position of the WAV's first sample on the producer's clock, when the WAV states it.
    pub wav_time_reference_samples: Option<u64>,
    pub wav_path: String,
    pub bounce_id: String,
    /// When the metadata was written, in Unix milliseconds.
    pub created_at_ms: i64,
    pub wav_file_size: Option<u64>,
    /// Modification time of the WAV, in Unix milliseconds.
    pub wav_mtime_ms: i64,
    pub wav_hash: Option<String>,
    pub consumed_at_ms: Option<i64>,
    pub consumed_by_session_id: Option<String>,
}

/// The time axis a Record's TRACE slots are positioned on.
#[derive(Debug, Clone, Copy, PartialEq, Eq, Structural)]
pub enum TraceAxis {
    /// The producer's host callback clock.
    HostClock,
    /// The WAV selected by Drop.
    WavClock,
    /// Any other or no axis.
    Unrecognized,
}

/// Every fact the publish gate and the quality summary read of one Record side.
/// `side.frame_count` is the number of measured frames, `trace.frame_t_ms` their times.
#[derive(Debug, Clone)]
pub struct RecordFacts {
    pub side: SideFacts,
    pub trace: TraceFacts,
    pub expected_wav: Option<ExpectedWavFacts>,
    pub integrity_degraded: bool,
    pub integrity_reasons: Vec<String>,
    pub commit_status: Option<String>,
    pub trace_axis: TraceAxis,
    pub trace_clock: Option<crate::plugin_data::TraceClock>,
    /// The TRACE clock's basis is the producer TRACE clock basis.
    pub trace_clock_basis_canonical: bool,
    /// The Record carries a canonical reference to the exact dropped WAV.
    pub canonical_wav_reference: bool,
    pub trace_wav_reference: Option<crate::plugin_data::TraceWavReference>,
}

pub open spec fn expected_usable(r: RecordFacts) -> bool {
    r.expected_wav matches Some(e) && e.usable
}

/// The take's length matches the usable expected WAV on one sample rate.
pub open spec fn expected_matches_take(r: RecordFacts, take: BounceTake) -> bool {
    r.expected_wav matches Some(e) && e.usable && r.side.sample_rate == e.expected_sample_rate && take.sample_rate
        == e.expected_sample_rate && take.duration_samples == e.expected_duration_samples
}

/// The Record's bounce take is bounded by an exact sample count it can be trusted with.
pub open spec fn sample_count_ready(r: RecordFacts) -> bool {
    match r.trace.bounce_take {
        None => false,
        Some(take) => {
            &&& take.alignment_status@ == "sample_count_ready"@
            &&& r.side.sample_rate != 0
            &&& take.sample_rate == r.side.sample_rate
            &&& take.duration_samples != 0
            &&& take.wav_end_sample >= take.wav_start_sample
            &&& take.frame_count != 0
            &&& if take.source@ == "expected_wav_duration_native"@ {
                expected_matches_take(r, take)
            } else {
                take.source@ == "wav_clock_native"@ || take.source@ == "render_clock_native"@
            }
        },
    }
}

fn expected_wav_matches_take(r: &RecordFacts, take: &BounceTake) -> (b: bool)
    ensures
        b == expected_matches_take(*r, *take),
{
    match &r.expected_wav {
        Some(e) => e.usable && r.side.sample_rate == e.expected_sample_rate && take.sample_rate
            == e.expected_sample_rate && take.duration_samples == e.expected_duration_samples,
        None => false,
    }
}

/// Whether the Record's bounce take is bounded by an exact sample count.
pub fn bounce_take_sample_count_ready(r: &RecordFacts) -> (b: bool)
    ensures
        b == sample_count_ready(*r),
{
    let take = match &r.trace.bounce_take {
        Some(t) => t,
        None => return false,
    };
    if !str_equal(take.alignment_status.as_str(), "sample_count_ready") || r.side.sample_rate == 0
        || take.sample_rate != r.side.sample_rate || take.duration_samples == 0 || take.wav_end_sample
        < take.wav_start_sample || take.frame_count == 0 {
        return false;
    }
    if str_equal(take.source.as_str(), "expected_wav_duration_native") {
        expected_wav_matches_take(r, take)
    } else {
        str_equal(take.source.as_str(), "wav_clock_native") || str_equal(take.source.as_str(), "render_clock_native")
    }
}

/// Consecutive slots are exactly one slot apart.
pub open spec fn uniform_cadence(s: Seq<i64>, slot: int) -> bool {
    forall|i: int| 0 <= i < s.len() - 1 ==> #[trigger] s[i + 1] - s[i] == slot
}

/// Every measured frame has exactly the slot identity its axis requires: on the host clock, a
/// uniform cadence from the TRACE clock's origin to its end; on the WAV clock, a canonical WAV
/// reference with either a gap-free latency-mapped lattice or the uniform lattice
/// `slot, 2 slot, ..., n slot`.
pub open spec fn slot_identity_complete(r: RecordFacts) -> bool {
    let sr = r.side.sample_rate;
    let slots = r.trace.trace_slot_positions@;
    let n = r.trace.frame_t_ms@.len();
    let slot = slot_len(sr);
    if sr == 0 || n == 0 || slots.len() != n {
        false
    } else {
        match r.trace_axis {
            TraceAxis::HostClock => uniform_cadence(slots, slot) && match r.trace_clock {
                Some(clock) => r.trace_clock_basis_canonical && clock.sample_rate == sr && clock.sources@.len() > 0
                    && slots[0] - slot == clock.origin_position_samples && slots.last() == clock.end_position_samples,
                None => false,
            },
            TraceAxis::WavClock => r.canonical_wav_reference && if latency_mapped(r.trace) {
                match r.trace_wav_reference {
                    Some(reference) => reference.end_sample >= reference.start_sample && match coverage(
                        r.trace,
                        (reference.end_sample - reference.start_sample) as u64,
                        sr,
                    ) {
                        Some(c) => c.missing_slots == 0 && c.measured_frame_count == c.expected_frame_count,
                        None => false,
                    },
                    None => false,
                }
            } else {
                uniform_cadence(slots, slot) && slots[0] == slot && slots.len() * slot == slots.last()
            },
            TraceAxis::Unrecognized => false,
        }
    }
}

fn uniform_cadence_exec(s: &Vec<i64>, slot: i64) -> (b: bool)
    ensures
        b == uniform_cadence(s@, slot as int),
{
    let n = s.len();
    if n < 2 {
        return true;
    }
    let mut i: usize = 0;
    while i < n - 1
        invariant
            n == s@.len(),
            n >= 2,
            i <= n - 1,
            forall|j: int| 0 <= j < i ==> #[trigger] s@[j + 1] - s@[j] == slot,
        decreases n - 1 - i,
    {
        match s[i + 1].checked_sub(s[i]) {
            Some(d) => {
                if d != slot {
                    assert(s@[i + 1] - s@[i as int] != slot);
                    return false;
                }
            },
            None => {
                assert(s@[i + 1] - s@[i as int] != slot);
                return false;
            },
        }
        i = i + 1;
    }
    true
}

/// Whether every measured frame has exactly the slot identity its axis requires.
pub fn trace_slot_identity_is_complete(r: &RecordFacts) -> (b: bool)
    ensures
        b == slot_identity_complete(*r),
{
    let sr = r.side.sample_rate;
    let slots = &r.trace.trace_slot_positions;
    let n = r.trace.frame_t_ms.len();
    if sr == 0 || n == 0 || slots.len() != n {
        return false;
    }
    let slot: i64 = if sr / 10 >= 1 {
        (sr / 10) as i64
    } else {
        1
    };
    match r.trace_axis {
        TraceAxis::HostClock => {
            if !uniform_cadence_exec(slots, slot) {
                return false;
            }
            match &r.trace_clock {
                Some(clock) => r.trace_clock_basis_canonical && clock.sample_rate == sr && clock.sources.len()
                    > 0 && slots[0].checked_sub(slot) == Some(clock.origin_position_samples) && slots[n - 1]
                    == clock.end_position_samples,
                None => false,
            }
        },
        TraceAxis::WavClock => {
            if !r.canonical_wav_reference {
                return false;
            }
            if uses_latency_mapped_wav_grid(&r.trace) {
                match &r.trace_wav_reference {
                    Some(reference) => {
                        if reference.end_sample < reference.start_sample {
                            return false;
                        }
                        match latency_mapped_trace_coverage(
                            &r.trace,
                            reference.end_sample - reference.start_sample,
                            sr,
                        ) {
                            Some(c) => c.missing_slots == 0 && c.measured_frame_count == c.expected_frame_count,
                            None => false,
                        }
                    },
                    None => false,
                }
            } else {
                if !uniform_cadence_exec(slots, slot) || slots[0] != slot {
                    return false;
                }
                let count = n as u128;
                assert(count * (slot as u128) <= 0xffff_ffff_ffff_ffff * 0xffff_ffff) by (nonlinear_arith)
                    requires
                        count <= 0xffff_ffff_ffff_ffff,
                        0 <= slot <= 0xffff_ffff,
                ;
                let product = count * (slot as u128);
                product <= (i64::MAX as u128) && (product as i64) == slots[n - 1]
            }
        },
        TraceAxis::Unrecognized => false,
    }
}

} // verus!

verus! {

/// The TRACE is fit to publish and every frame has its exact slot identity.
pub open spec fn slots_complete(r: RecordFacts) -> bool {
    trace_publish_reasons(r.trace).len() == 0 && slot_identity_complete(r)
}

/// Whether the TRACE is fit to publish and every frame has its exact slot identity.
pub fn trace_slots_are_complete(r: &RecordFacts) -> (b: bool)
    requires
        r.trace.frame_t_ms@.len() <= u64::MAX / 100,
    ensures
        b == slots_complete(*r),
{
    trace_publish_failure_reasons(&r.trace).len() == 0 && trace_slot_identity_is_complete(r)
}

/// The take's own measurement faults, or its absence.
pub open spec fn take_measure_part(r: RecordFacts) -> Seq<Seq<char>> {
    match r.trace.bounce_take {
        Some(t) => reason_if(t.alignment_status@ != "sample_count_ready"@, "bounce_take_not_sample_count_ready"@)
            + reason_if(!crate::plugin_data::sample_count_ready_source(t.source@), "bounce_take_source_not_sample_count_ready"@)
            + reason_if(r.side.sample_rate == 0 || t.sample_rate != r.side.sample_rate, "bounce_take_sample_rate_mismatch"@)
            + reason_if(t.duration_samples == 0 || t.wav_end_sample < t.wav_start_sample, "bounce_take_duration_invalid"@)
            + reason_if(t.frame_count == 0, "bounce_take_zero_frames"@),
        None => seq!["missing_bounce_take"@],
    }
}

/// Reasons the side's measurement is not the exact product: take faults, TRACE faults, no
/// sample-count bound, incomplete slots.
pub open spec fn side_measurement_reasons(r: RecordFacts) -> Seq<Seq<char>> {
    crate::plugin_data::dedup_first(
        take_measure_part(r) + trace_publish_reasons(r.trace) + reason_if(
            !sample_count_ready(r),
            "bounce_take_not_sample_count_ready"@,
        ) + reason_if(!slots_complete(r), "trace_slots_not_complete"@),
    )
}

fn push_take_measure_reasons(v: &mut Vec<&'static str>, r: &RecordFacts)
    ensures
        crate::plugin_data::str_views(final(v)@) == crate::plugin_data::str_views(old(v)@) + take_measure_part(*r),
{
    let ghost start = crate::plugin_data::str_views(v@);
    match &r.trace.bounce_take {
        Some(t) => {
            let sr = r.side.sample_rate;
            push_if(v, !str_equal(t.alignment_status.as_str(), "sample_count_ready"), "bounce_take_not_sample_count_ready");
            push_if(
                v,
                !crate::plugin_data::bounce_source_is_sample_count_ready(t.source.as_str()),
                "bounce_take_source_not_sample_count_ready",
            );
            push_if(v, sr == 0 || t.sample_rate != sr, "bounce_take_sample_rate_mismatch");
            push_if(v, t.duration_samples == 0 || t.wav_end_sample < t.wav_start_sample, "bounce_take_duration_invalid");
            push_if(v, t.frame_count == 0, "bounce_take_zero_frames");
            assert(start + take_measure_part(*r) == start + reason_if(
                t.alignment_status@ != "sample_count_ready"@,
                "bounce_take_not_sample_count_ready"@,
            ) + reason_if(
                !crate::plugin_data::sample_count_ready_source(t.source@),
                "bounce_take_source_not_sample_count_ready"@,
            ) + reason_if(sr == 0 || t.sample_rate != sr, "bounce_take_sample_rate_mismatch"@) + reason_if(
                t.duration_samples == 0 || t.wav_end_sample < t.wav_start_sample,
                "bounce_take_duration_invalid"@,
            ) + reason_if(t.frame_count == 0, "bounce_take_zero_frames"@));
        },
        None => {
            push_if(v, true, "missing_bounce_take");
        },
    }
}

/// Reasons the side's measurement is not the exact product.
pub fn side_measurement_failure_reasons(r: &RecordFacts) -> (out: Vec<&'static str>)
    requires
        r.trace.frame_t_ms@.len() <= u64::MAX / 100,
    ensures
        crate::plugin_data::str_views(out@) == side_measurement_reasons(*r),
{
    let mut v: Vec<&'static str> = Vec::new();
    assert(crate::plugin_data::str_views(v@) == Seq::<Seq<char>>::empty());
    push_take_measure_reasons(&mut v, r);
    assert(crate::plugin_data::str_views(v@) == take_measure_part(*r));
    append_reasons(&mut v, trace_publish_failure_reasons(&r.trace));
    push_if(&mut v, !bounce_take_sample_count_ready(r), "bounce_take_not_sample_count_ready");
    push_if(&mut v, !trace_slots_are_complete(r), "trace_slots_not_complete");
    crate::plugin_data::dedup_reasons(v)
}

/// Integrity reasons a Record carries over from its own journal.
pub open spec fn carried_reason(x: Seq<char>) -> bool {
    ||| x == "zero_trace_frames"@
    ||| x == "frame_timeline_gap"@
    ||| x == "raw_trace_timeline_gap"@
    ||| x == "sparse_trace_density"@
    ||| x == "record_too_short"@
    ||| x == "record_clock_not_wav_bounded"@
    ||| x == "drain_seal_timeout"@
    ||| x == "missing_trace_slots"@
}

/// The carried-over reasons of a journal, in order.
pub open spec fn carried(s: Seq<String>) -> Seq<Seq<char>>
    decreases s.len(),
{
    if s.len() == 0 {
        Seq::empty()
    } else {
        carried(s.drop_last()) + reason_if(carried_reason(s.last()@), s.last()@)
    }
}

fn carried_name(x: &str) -> (r: Option<&'static str>)
    ensures
        match r {
            Some(n) => carried_reason(x@) && n@ == x@,
            None => !carried_reason(x@),
        },
{
    let names: [&'static str; 8] = [
        "zero_trace_frames",
        "frame_timeline_gap",
        "raw_trace_timeline_gap",
        "sparse_trace_density",
        "record_too_short",
        "record_clock_not_wav_bounded",
        "drain_seal_timeout",
        "missing_trace_slots",
    ];
    let mut i: usize = 0;
    while i < 8
        invariant
            i <= 8,
            names@ == seq![
                "zero_trace_frames",
                "frame_timeline_gap",
                "raw_trace_timeline_gap",
                "sparse_trace_density",
                "record_too_short",
                "record_clock_not_wav_bounded",
                "drain_seal_timeout",
                "missing_trace_slots",
            ],
            forall|j: int| 0 <= j < i ==> names@[j]@ != x@,
        decreases 8 - i,
    {
        if str_equal(names[i], x) {
            return Some(names[i]);
        }
        i = i + 1;
    }
    None
}

fn push_carried(v: &mut Vec<&'static str>, journal: &Vec<String>)
    ensures
        crate::plugin_data::str_views(final(v)@) == crate::plugin_data::str_views(old(v)@) + carried(journal@),
{
    let mut i: usize = 0;
    assert(journal@.subrange(0, 0) == Seq::<String>::empty());
    assert(crate::plugin_data::str_views(old(v)@) + carried(Seq::<String>::empty()) == crate::plugin_data::str_views(old(v)@));
    while i < journal.len()
        invariant
            i <= journal@.len(),
            crate::plugin_data::str_views(v@) == crate::plugin_data::str_views(old(v)@) + carried(journal@.subrange(0, i as int)),
        decreases journal@.len() - i,
    {
        let ghost pre = journal@.subrange(0, i as int);
        let ghost nxt = journal@.subrange(0, i + 1);
        assert(nxt.drop_last() == pre);
        assert(nxt.last() == journal@[i as int]);
        let ghost before = crate::plugin_data::str_views(v@);
        match carried_name(journal[i].as_str()) {
            Some(n) => push_if(v, true, n),
            None => push_if(v, false, "missing_trace_slots"),
        }
        assert(crate::plugin_data::str_views(old(v)@) + carried(nxt) == crate::plugin_data::str_views(old(v)@) + carried(pre)
            + reason_if(carried_reason(journal@[i as int]@), journal@[i as int]@));
        i = i + 1;
    }
    assert(journal@.subrange(0, journal@.len() as int) == journal@);
}

/// The take's faults against the usable expected WAV, or against the side when there is none.
pub open spec fn integrity_take_part(r: RecordFacts) -> Seq<Seq<char>> {
    match r.trace.bounce_take {
        None => Seq::empty(),
        Some(t) => if expected_usable(r) {
            let e = r.expected_wav->0;
            reason_if(r.side.sample_rate != e.expected_sample_rate, "sample_rate_expected_mismatch"@)
                + reason_if(t.sample_rate != e.expected_sample_rate, "bounce_take_sample_rate_mismatch"@)
                + reason_if(t.duration_samples != e.expected_duration_samples, "bounce_take_duration_mismatch"@)
                + reason_if(t.alignment_status@ != "sample_count_ready"@, "bounce_take_not_sample_count_ready"@)
                + reason_if(!crate::plugin_data::sample_count_ready_source(t.source@), "bounce_take_source_not_sample_count_ready"@)
        } else {
            reason_if(t.alignment_status@ != "sample_count_ready"@, "bounce_take_not_sample_count_ready"@)
                + reason_if(!crate::plugin_data::sample_count_ready_source(t.source@), "bounce_take_source_not_sample_count_ready"@)
                + reason_if(r.side.sample_rate == 0 || t.sample_rate != r.side.sample_rate, "bounce_take_sample_rate_mismatch"@)
        },
    }
}

/// Integrity reasons of a side: no usable expected WAV where one is needed, no take, take
/// faults, TRACE faults, a degraded integrity flag, and the carried-over journal reasons.
pub open spec fn side_integrity_reasons(r: RecordFacts) -> Seq<Seq<char>> {
    let e_ok = expected_usable(r);
    crate::plugin_data::dedup_first(
        reason_if(!e_ok && !sample_count_ready(r), "missing_expected_wav_metadata"@) + reason_if(
            r.trace.bounce_take is None,
            "missing_bounce_take"@,
        ) + reason_if(
            !e_ok && (r.trace.bounce_take matches Some(t) && t.source@ == "expected_wav_duration_native"@),
            "missing_expected_wav_metadata"@,
        ) + integrity_take_part(r) + diag_part(r.trace) + bounce_take_reasons(r.trace) + reason_if(
            r.integrity_degraded,
            "integrity_degraded"@,
        ) + carried(r.integrity_reasons@),
    )
}

fn push_integrity_take_reasons(v: &mut Vec<&'static str>, r: &RecordFacts, e_ok: bool)
    requires
        e_ok == expected_usable(*r),
    ensures
        crate::plugin_data::str_views(final(v)@) == crate::plugin_data::str_views(old(v)@) + integrity_take_part(*r),
{
    let ghost start = crate::plugin_data::str_views(v@);
    let sr = r.side.sample_rate;
    match &r.trace.bounce_take {
        None => {
            assert(start + Seq::<Seq<char>>::empty() == start);
        },
        Some(t) => {
            let source_ready = crate::plugin_data::bounce_source_is_sample_count_ready(t.source.as_str());
            let aligned = str_equal(t.alignment_status.as_str(), "sample_count_ready");
            match &r.expected_wav {
                Some(e) if e_ok => {
                    push_if(v, sr != e.expected_sample_rate, "sample_rate_expected_mismatch");
                    push_if(v, t.sample_rate != e.expected_sample_rate, "bounce_take_sample_rate_mismatch");
                    push_if(v, t.duration_samples != e.expected_duration_samples, "bounce_take_duration_mismatch");
                    push_if(v, !aligned, "bounce_take_not_sample_count_ready");
                    push_if(v, !source_ready, "bounce_take_source_not_sample_count_ready");
                    assert(start + integrity_take_part(*r) == start + reason_if(
                        sr != e.expected_sample_rate,
                        "sample_rate_expected_mismatch"@,
                    ) + reason_if(t.sample_rate != e.expected_sample_rate, "bounce_take_sample_rate_mismatch"@)
                        + reason_if(t.duration_samples != e.expected_duration_samples, "bounce_take_duration_mismatch"@)
                        + reason_if(!aligned, "bounce_take_not_sample_count_ready"@) + reason_if(
                        !source_ready,
                        "bounce_take_source_not_sample_count_ready"@,
                    ));
                },
                _ => {
                    push_if(v, !aligned, "bounce_take_not_sample_count_ready");
                    push_if(v, !source_ready, "bounce_take_source_not_sample_count_ready");
                    push_if(v, sr == 0 || t.sample_rate != sr, "bounce_take_sample_rate_mismatch");
                    assert(start + integrity_take_part(*r) == start + reason_if(
                        !aligned,
                        "bounce_take_not_sample_count_ready"@,
                    ) + reason_if(!source_ready, "bounce_take_source_not_sample_count_ready"@) + reason_if(
                        sr == 0 || t.sample_rate != sr,
                        "bounce_take_sample_rate_mismatch"@,
                    ));
                },
            }
        },
    }
}

/// Integrity reasons of the side.
#[verifier::rlimit(50)]
pub fn side_publish_integrity_reasons(r: &RecordFacts) -> (out: Vec<&'static str>)
    requires
        r.trace.frame_t_ms@.len() <= u64::MAX / 100,
    ensures
        crate::plugin_data::str_views(out@) == side_integrity_reasons(*r),
{
    let e_ok = match &r.expected_wav {
        Some(e) => e.usable,
        None => false,
    };
    let ready = bounce_take_sample_count_ready(r);
    let mut v: Vec<&'static str> = Vec::new();
    assert(crate::plugin_data::str_views(v@) == Seq::<Seq<char>>::empty());
    push_if(&mut v, !e_ok && !ready, "missing_expected_wav_metadata");
    assert(crate::plugin_data::str_views(v@) == reason_if(
        !expected_usable(*r) && !sample_count_ready(*r),
        "missing_expected_wav_metadata"@,
    ));
    push_if(&mut v, r.trace.bounce_take.is_none(), "missing_bounce_take");
    let expected_source = match &r.trace.bounce_take {
        Some(t) => str_equal(t.source.as_str(), "expected_wav_duration_native"),
        None => false,
    };
    push_if(&mut v, !e_ok && expected_source, "missing_expected_wav_metadata");
    push_integrity_take_reasons(&mut v, r, e_ok);
    push_diag_reasons(&mut v, &r.trace);
    append_reasons(&mut v, trace_bounce_take_failure_reasons(&r.trace));
    push_if(&mut v, r.integrity_degraded, "integrity_degraded");
    push_carried(&mut v, &r.integrity_reasons);
    crate::plugin_data::dedup_reasons(v)
}

/// Reasons a side is not the complete normal product: publish, measurement and integrity
/// reasons together, without repeats.
pub open spec fn normal_publish_reasons(r: RecordFacts) -> Seq<Seq<char>> {
    crate::plugin_data::dedup_first(
        side_publish_reasons(r.side) + side_measurement_reasons(r) + side_integrity_reasons(r),
    )
}

/// Reasons the side is not the complete normal product.
pub fn normal_publish_failure_reasons(r: &RecordFacts) -> (out: Vec<&'static str>)
    requires
        r.trace.frame_t_ms@.len() <= u64::MAX / 100,
    ensures
        crate::plugin_data::str_views(out@) == normal_publish_reasons(*r),
{
    let mut v = side_publish_failure_reasons(&r.side);
    append_reasons(&mut v, side_measurement_failure_reasons(r));
    append_reasons(&mut v, side_publish_integrity_reasons(r));
    crate::plugin_data::dedup_reasons(v)
}

} // verus!

verus! {

/// The side can be shown at all: its commit did not fail and nothing keeps it out of view.
pub open spec fn quality_usable(r: RecordFacts) -> bool {
    &&& !(r.commit_status matches Some(s) && s@ == "failed"@)
    &&& side_visibility_reasons(r.side).len() == 0
}

/// The side is usable and the complete normal product.
pub open spec fn quality_complete(r: RecordFacts) -> bool {
    quality_usable(r) && normal_publish_reasons(r).len() == 0
}

/// `complete`, `usable_fallback` or `failed`.
pub open spec fn quality_status(r: RecordFacts) -> Seq<char> {
    if quality_complete(r) {
        "complete"@
    } else if quality_usable(r) {
        "usable_fallback"@
    } else {
        "failed"@
    }
}

/// The quality summary of a Record side. The frame counts come from its TRACE diagnostics;
/// without them the expected and missing counts are zero and the measured count is the number
/// of frames.
pub open spec fn record_quality(r: RecordFacts) -> (Seq<char>, bool, bool, bool, bool, bool, u64, u64, u64) {
    let (expected, measured, missing, slots) = match r.trace.trace_diagnostics {
        Some(d) => (d.expected_frame_count, d.measured_frame_count, d.missing_slots, slots_complete(r)),
        None => (0u64, r.side.frame_count, 0u64, false),
    };
    (
        quality_status(r),
        quality_complete(r),
        quality_usable(r),
        expected_usable(r),
        sample_count_ready(r),
        slots,
        expected,
        measured,
        missing,
    )
}

pub open spec fn quality_view(q: crate::plugin_data::RecordQuality) -> (Seq<char>, bool, bool, bool, bool, bool, u64, u64, u64) {
    (
        q.status@,
        q.complete,
        q.usable,
        q.expected_wav_ready,
        q.sample_count_ready,
        q.trace_slots_complete,
        q.expected_frame_count,
        q.measured_frame_count,
        q.missing_trace_slots,
    )
}

/// The quality summary of a Record side.
pub fn refresh_record_quality(r: &RecordFacts) -> (q: crate::plugin_data::RecordQuality)
    requires
        r.trace.frame_t_ms@.len() <= u64::MAX / 100,
    ensures
        quality_view(q) == record_quality(*r),
{
    let expected_wav_ready = match &r.expected_wav {
        Some(e) => e.usable,
        None => false,
    };
    let sample_count_ready = bounce_take_sample_count_ready(r);
    let (expected_frame_count, measured_frame_count, missing_trace_slots, trace_slots_complete) =
        match &r.trace.trace_diagnostics {
        Some(d) => (d.expected_frame_count, d.measured_frame_count, d.missing_slots, trace_slots_are_complete(r)),
        None => (0u64, r.side.frame_count, 0u64, false),
    };
    let failed_commit = match &r.commit_status {
        Some(s) => str_equal(s.as_str(), "failed"),
        None => false,
    };
    let usable = !failed_commit && side_visibility_failure_reasons(&r.side).len() == 0;
    let complete = usable && normal_publish_failure_reasons(r).len() == 0;
    let status: &str = if complete {
        "complete"
    } else if usable {
        "usable_fallback"
    } else {
        "failed"
    };
    crate::plugin_data::RecordQuality {
        status: status.to_owned(),
        complete,
        usable,
        expected_wav_ready,
        sample_count_ready,
        trace_slots_complete,
        expected_frame_count,
        measured_frame_count,
        missing_trace_slots,
    }
}


pub(crate) proof fn lemma_dedup_empty(s: Seq<Seq<char>>)
    requires
        crate::plugin_data::dedup_first(s).len() == 0,
    ensures
        s.len() == 0,
{
    crate::plugin_data::lemma_dedup_same_entries(s);
    if s.len() > 0 {
        assert(s.contains(s[0]));
        assert(crate::plugin_data::dedup_first(s).contains(s[0]));
    }
}

/// A complete side is usable, bounded by an exact sample count, and has TRACE diagnostics
/// and every TRACE slot with its identity.
pub proof fn lemma_complete_quality_is_exact(r: RecordFacts)
    ensures
        record_quality(r).1 ==> {
            &&& record_quality(r).2
            &&& record_quality(r).4
            &&& record_quality(r).5
            &&& r.trace.trace_diagnostics is Some
        },
{
    if quality_complete(r) {
        lemma_dedup_empty(side_publish_reasons(r.side) + side_measurement_reasons(r) + side_integrity_reasons(r));
        assert(side_measurement_reasons(r).len() == 0);
        let m = take_measure_part(r) + trace_publish_reasons(r.trace) + reason_if(
            !sample_count_ready(r),
            "bounce_take_not_sample_count_ready"@,
        ) + reason_if(!slots_complete(r), "trace_slots_not_complete"@);
        lemma_dedup_empty(m);
        assert(reason_if(!sample_count_ready(r), "bounce_take_not_sample_count_ready"@).len() == 0);
        assert(reason_if(!slots_complete(r), "trace_slots_not_complete"@).len() == 0);
        assert(slots_complete(r));
        assert(trace_publish_reasons(r.trace).len() == 0);
        if r.trace.trace_diagnostics is None {
            lemma_dedup_empty(diag_part(r.trace) + bounce_take_reasons(r.trace));
        }
    }
}

/// The status names exactly one of the three grades: `failed` when and only when the side is
/// not usable, `complete` when and only when it is complete.
pub proof fn lemma_quality_status_grades(r: RecordFacts)
    ensures
        (record_quality(r).0 == "failed"@) <==> !record_quality(r).2,
        (record_quality(r).0 == "complete"@) <==> record_quality(r).1,
        record_quality(r).1 ==> record_quality(r).2,
{
    reveal_strlit("failed");
    reveal_strlit("complete");
    reveal_strlit("usable_fallback");
    assert("failed"@ != "complete"@) by {
        assert("failed"@[0] != "complete"@[0]);
    }
    assert("failed"@ != "usable_fallback"@) by {
        assert("failed"@[0] != "usable_fallback"@[0]);
    }
    assert("complete"@ != "usable_fallback"@) by {
        assert("complete"@[0] != "usable_fallback"@[0]);
    }
}


/// `existing` with each reason of `added` appended in order, unless it is already there.
pub open spec fn with_new_reasons(existing: Seq<Seq<char>>, added: Seq<Seq<char>>) -> Seq<Seq<char>>
    decreases added.len(),
{
    if added.len() == 0 {
        existing
    } else {
        let e = with_new_reasons(existing, added.drop_last());
        if e.contains(added.last()) {
            e
        } else {
            e.push(added.last())
        }
    }
}

fn strings_contain(v: &Vec<String>, x: &str) -> (b: bool)
    ensures
        b == crate::path_model::strs_view(v@).contains(x@),
{
    let mut i: usize = 0;
    while i < v.len()
        invariant
            i <= v@.len(),
            forall|j: int| 0 <= j < i ==> v@[j]@ != x@,
        decreases v@.len() - i,
    {
        if str_equal(v[i].as_str(), x) {
            assert(crate::path_model::strs_view(v@)[i as int] == x@);
            return true;
        }
        i = i + 1;
    }
    assert forall|k: int| 0 <= k < v@.len() implies crate::path_model::strs_view(v@)[k] != x@ by {
        assert(v@[k]@ != x@);
    }
    false
}

pub(crate) fn append_new_reasons(list: &mut Vec<String>, reasons: &[&'static str])
    ensures
        crate::path_model::strs_view(final(list)@) == with_new_reasons(
            crate::path_model::strs_view(old(list)@),
            crate::plugin_data::str_views(reasons@),
        ),
{
    let ghost start = crate::path_model::strs_view(list@);
    let mut i: usize = 0;
    while i < reasons.len()
        invariant
            i <= reasons@.len(),
            start == crate::path_model::strs_view(old(list)@),
            crate::path_model::strs_view(list@) == with_new_reasons(
                start,
                crate::plugin_data::str_views(reasons@).subrange(0, i as int),
            ),
        decreases reasons@.len() - i,
    {
        let ghost pre = crate::plugin_data::str_views(reasons@).subrange(0, i as int);
        let ghost nxt = crate::plugin_data::str_views(reasons@).subrange(0, i + 1);
        assert(nxt.drop_last() == pre);
        assert(nxt.last() == reasons@[i as int]@);
        let reason = reasons[i];
        if !strings_contain(list, reason) {
            let ghost before = list@;
            list.push(reason.to_owned());
            assert(crate::path_model::strs_view(list@) == crate::path_model::strs_view(before).push(reason@));
        }
        i = i + 1;
    }
    assert(crate::plugin_data::str_views(reasons@).subrange(0, reasons@.len() as int) == crate::plugin_data::str_views(
        reasons@,
    ));
}

/// Marks the side's integrity as degraded by `reasons` and records each reason it does not
/// already carry. An empty `reasons` changes nothing.
pub fn add_integrity_reasons(r: &mut RecordFacts, reasons: &[&'static str])
    ensures
        final(r).integrity_degraded == (old(r).integrity_degraded || reasons@.len() > 0),
        crate::path_model::strs_view(final(r).integrity_reasons@) == with_new_reasons(
            crate::path_model::strs_view(old(r).integrity_reasons@),
            crate::plugin_data::str_views(reasons@),
        ),
        final(r).side == old(r).side,
        final(r).trace == old(r).trace,
        final(r).expected_wav == old(r).expected_wav,
        final(r).commit_status == old(r).commit_status,
        final(r).trace_axis == old(r).trace_axis,
        final(r).trace_clock == old(r).trace_clock,
        final(r).trace_clock_basis_canonical == old(r).trace_clock_basis_canonical,
        final(r).canonical_wav_reference == old(r).canonical_wav_reference,
        final(r).trace_wav_reference == old(r).trace_wav_reference,
{
    if reasons.len() == 0 {
        assert(crate::plugin_data::str_views(reasons@) == Seq::<Seq<char>>::empty());
        return;
    }
    r.integrity_degraded = true;
    append_new_reasons(&mut r.integrity_reasons, reasons);
}


proof fn lemma_new_reasons_entries(existing: Seq<Seq<char>>, added: Seq<Seq<char>>)
    ensures
        forall|x: Seq<char>|
            #![trigger with_new_reasons(existing, added).contains(x)]
            with_new_reasons(existing, added).contains(x) <==> (existing.contains(x) || added.contains(x)),
        with_new_reasons(existing, added).len() >= existing.len(),
        with_new_reasons(existing, added).subrange(0, existing.len() as int) == existing,
    decreases added.len(),
{
    if added.len() > 0 {
        let p = added.drop_last();
        lemma_new_reasons_entries(existing, p);
        let e = with_new_reasons(existing, p);
        let l = added.last();
        assert forall|x: Seq<char>| with_new_reasons(existing, added).contains(x) <==> (existing.contains(x)
            || added.contains(x)) by {
            assert(added == p.push(l));
            if p.contains(x) {
                let k = choose|k: int| 0 <= k < p.len() && p[k] == x;
                assert(added[k] == x);
            }
            if added.contains(x) && x != l {
                let k = choose|k: int| 0 <= k < added.len() && added[k] == x;
                assert(k < p.len());
                assert(p[k] == x);
            }
            if !e.contains(l) {
                if e.push(l).contains(x) && x != l {
                    let k = choose|k: int| 0 <= k < e.push(l).len() && e.push(l)[k] == x;
                    assert(e[k] == x);
                }
                if e.contains(x) {
                    let k = choose|k: int| 0 <= k < e.len() && e[k] == x;
                    assert(e.push(l)[k] == x);
                }
                assert(e.push(l)[e.len() as int] == l);
            }
        }
        if !e.contains(l) {
            assert(e.push(l).subrange(0, existing.len() as int) == e.subrange(0, existing.len() as int));
        }
    }
}

proof fn lemma_new_reasons_already_there(existing: Seq<Seq<char>>, added: Seq<Seq<char>>)
    requires
        forall|i: int| 0 <= i < added.len() ==> existing.contains(#[trigger] added[i]),
    ensures
        with_new_reasons(existing, added) == existing,
    decreases added.len(),
{
    if added.len() > 0 {
        let p = added.drop_last();
        assert forall|i: int| 0 <= i < p.len() implies existing.contains(#[trigger] p[i]) by {
            assert(p[i] == added[i]);
        }
        lemma_new_reasons_already_there(existing, p);
        assert(existing.contains(added[added.len() - 1]));
    }
}

/// After integrity reasons are added, the side carries every reason it carried before and
/// every added one, and nothing else; what it carried before stays first and in order; and
/// adding the same reasons a second time changes nothing.
pub proof fn lemma_integrity_reasons_accumulate(existing: Seq<Seq<char>>, added: Seq<Seq<char>>)
    ensures
        forall|x: Seq<char>|
            #![trigger with_new_reasons(existing, added).contains(x)]
            with_new_reasons(existing, added).contains(x) <==> (existing.contains(x) || added.contains(x)),
        with_new_reasons(existing, added).subrange(0, existing.len() as int) == existing,
        with_new_reasons(with_new_reasons(existing, added), added) == with_new_reasons(existing, added),
{
    lemma_new_reasons_entries(existing, added);
    let once = with_new_reasons(existing, added);
    assert forall|i: int| 0 <= i < added.len() implies once.contains(#[trigger] added[i]) by {
        assert(added.contains(added[i]));
    }
    lemma_new_reasons_already_there(once, added);
}

proof fn lemma_in_concat<A>(a: Seq<A>, b: Seq<A>, x: A)
    ensures
        a.contains(x) || b.contains(x) ==> (a + b).contains(x),
{
    if a.contains(x) {
        let i = choose|i: int| 0 <= i < a.len() && a[i] == x;
        assert((a + b)[i] == x);
    } else if b.contains(x) {
        let i = choose|i: int| 0 <= i < b.len() && b[i] == x;
        assert((a + b)[a.len() + i] == x);
    }
}

proof fn lemma_reason_reaches_side(r: RecordFacts, x: Seq<char>)
    requires
        reason_if(r.trace.bounce_take is None, "missing_bounce_take"@).contains(x) || integrity_take_part(r).contains(x)
            || diag_part(r.trace).contains(x) || reason_if(r.integrity_degraded, "integrity_degraded"@).contains(x),
    ensures
        side_integrity_reasons(r).contains(x),
{
    let e_ok = expected_usable(r);
    let p0 = reason_if(!e_ok && !sample_count_ready(r), "missing_expected_wav_metadata"@);
    let p1 = reason_if(r.trace.bounce_take is None, "missing_bounce_take"@);
    let p2 = reason_if(
        !e_ok && (r.trace.bounce_take matches Some(t) && t.source@ == "expected_wav_duration_native"@),
        "missing_expected_wav_metadata"@,
    );
    let p3 = integrity_take_part(r);
    let p4 = diag_part(r.trace);
    let p5 = bounce_take_reasons(r.trace);
    let p6 = reason_if(r.integrity_degraded, "integrity_degraded"@);
    let p7 = carried(r.integrity_reasons@);
    lemma_in_concat(p0, p1, x);
    lemma_in_concat(p0 + p1, p2, x);
    lemma_in_concat(p0 + p1 + p2, p3, x);
    lemma_in_concat(p0 + p1 + p2 + p3, p4, x);
    lemma_in_concat(p0 + p1 + p2 + p3 + p4, p5, x);
    lemma_in_concat(p0 + p1 + p2 + p3 + p4 + p5, p6, x);
    lemma_in_concat(p0 + p1 + p2 + p3 + p4 + p5 + p6, p7, x);
    crate::plugin_data::lemma_dedup_same_entries(p0 + p1 + p2 + p3 + p4 + p5 + p6 + p7);
}

/// A side whose bounce take disagrees with its usable expected WAV is reported for it: a take
/// of another length than the WAV gives `bounce_take_duration_mismatch`, a take of another
/// sample rate gives `bounce_take_sample_rate_mismatch`, and a side of another sample rate
/// gives `sample_rate_expected_mismatch`, whatever else the side carries.
pub proof fn lemma_take_disagreeing_with_the_wav_is_reported(r: RecordFacts)
    requires
        r.expected_wav matches Some(e) && e.usable,
        r.trace.bounce_take is Some,
    ensures
        r.trace.bounce_take->0.duration_samples != r.expected_wav->0.expected_duration_samples
            ==> side_integrity_reasons(r).contains("bounce_take_duration_mismatch"@),
        r.trace.bounce_take->0.sample_rate != r.expected_wav->0.expected_sample_rate
            ==> side_integrity_reasons(r).contains("bounce_take_sample_rate_mismatch"@),
        r.side.sample_rate != r.expected_wav->0.expected_sample_rate
            ==> side_integrity_reasons(r).contains("sample_rate_expected_mismatch"@),
{
    let t = r.trace.bounce_take->0;
    let e = r.expected_wav->0;
    let a = reason_if(r.side.sample_rate != e.expected_sample_rate, "sample_rate_expected_mismatch"@);
    let b = reason_if(t.sample_rate != e.expected_sample_rate, "bounce_take_sample_rate_mismatch"@);
    let c = reason_if(t.duration_samples != e.expected_duration_samples, "bounce_take_duration_mismatch"@);
    let d = reason_if(t.alignment_status@ != "sample_count_ready"@, "bounce_take_not_sample_count_ready"@);
    let f = reason_if(
        !crate::plugin_data::sample_count_ready_source(t.source@),
        "bounce_take_source_not_sample_count_ready"@,
    );
    let part = integrity_take_part(r);
    assert(part == a + b + c + d + f);
    if t.duration_samples != e.expected_duration_samples {
        assert(part[(a.len() + b.len()) as int] == "bounce_take_duration_mismatch"@);
        lemma_reason_reaches_side(r, "bounce_take_duration_mismatch"@);
    }
    if t.sample_rate != e.expected_sample_rate {
        assert(part[a.len() as int] == "bounce_take_sample_rate_mismatch"@);
        lemma_reason_reaches_side(r, "bounce_take_sample_rate_mismatch"@);
    }
    if r.side.sample_rate != e.expected_sample_rate {
        assert(part[0] == "sample_rate_expected_mismatch"@);
        lemma_reason_reaches_side(r, "sample_rate_expected_mismatch"@);
    }
}

/// A side is never passed as intact with a missing or unready take, missing TRACE
/// diagnostics, missing TRACE slots, or a degraded integrity flag: each is reported among its
/// integrity reasons.
pub proof fn lemma_side_faults_are_reported(r: RecordFacts)
    ensures
        r.trace.bounce_take is None ==> side_integrity_reasons(r).contains("missing_bounce_take"@),
        (r.trace.bounce_take matches Some(t) && t.alignment_status@ != "sample_count_ready"@)
            ==> side_integrity_reasons(r).contains("bounce_take_not_sample_count_ready"@),
        r.trace.trace_diagnostics is None ==> side_integrity_reasons(r).contains("missing_trace_diagnostics"@),
        (r.trace.trace_diagnostics matches Some(d) && d.missing_slots > 0)
            ==> side_integrity_reasons(r).contains("missing_trace_slots"@),
        r.integrity_degraded ==> side_integrity_reasons(r).contains("integrity_degraded"@),
{
    if r.trace.bounce_take is None {
        assert(reason_if(true, "missing_bounce_take"@)[0] == "missing_bounce_take"@);
        lemma_reason_reaches_side(r, "missing_bounce_take"@);
    }
    if r.trace.bounce_take matches Some(t) && t.alignment_status@ != "sample_count_ready"@ {
        let t = r.trace.bounce_take->0;
        let x = "bounce_take_not_sample_count_ready"@;
        let part = integrity_take_part(r);
        if expected_usable(r) {
            let e = r.expected_wav->0;
            let a = reason_if(r.side.sample_rate != e.expected_sample_rate, "sample_rate_expected_mismatch"@);
            let b = reason_if(t.sample_rate != e.expected_sample_rate, "bounce_take_sample_rate_mismatch"@);
            let c = reason_if(t.duration_samples != e.expected_duration_samples, "bounce_take_duration_mismatch"@);
            assert(part[(a.len() + b.len() + c.len()) as int] == x);
        } else {
            assert(part[0] == x);
        }
        lemma_reason_reaches_side(r, x);
    }
    if r.trace.trace_diagnostics is None {
        assert(diag_part(r.trace)[0] == "missing_trace_diagnostics"@);
        lemma_reason_reaches_side(r, "missing_trace_diagnostics"@);
    }
    if r.trace.trace_diagnostics matches Some(d) && d.missing_slots > 0 {
        let d = r.trace.trace_diagnostics->0;
        let a = reason_if(d.expected_frame_count == 0, "zero_expected_trace_frames"@);
        assert(diag_part(r.trace)[a.len() as int] == "missing_trace_slots"@);
        lemma_reason_reaches_side(r, "missing_trace_slots"@);
    }
    if r.integrity_degraded {
        assert(reason_if(true, "integrity_degraded"@)[0] == "integrity_degraded"@);
        lemma_reason_reaches_side(r, "integrity_degraded"@);
    }
}

} // verus!
