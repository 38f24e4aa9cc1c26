//! Settling a PRE/POST pair whose two sides are pending: publish it with exact WAV timing,
//! publish it as a measured fallback, quarantine it, or wait for more facts.
use vstd::prelude::*;

use crate::late_expected::RecordFile;
use crate::pair_gate::{
    pair_order, pair_publish_failure_reasons, pair_publish_integrity_reasons, pair_publish_reasons,
    pair_integrity_reasons, pair_visibility_failure_reasons, pair_visibility_reasons,
};
use crate::path_model::{str_equal, strs_view};
use crate::plugin_data::{opt_view, str_views, Role};
use crate::record_gate::{
    add_integrity_reasons, quality_view, record_quality, refresh_record_quality, with_new_reasons, RecordFacts,
    SideFacts, TraceAxis, TraceFacts,
};

verus! {

/// What the owner of the two pending files does next.
#[derive(Debug)]
pub enum PairFinalizeAction {
    /// Leave both pending files as they are.
    Wait,
    /// Publish both sides, committed, as a measured fallback on the WAV axis.
    PublishMeasuredFallback,
    /// Publish both sides, committed, with exact WAV timing.
    PublishExact,
    /// Quarantine both sides as failed for these reasons.
    Quarantine(Vec<&'static str>),
}

/// `b` is `a` with `added` integrity reasons recorded (each once) and the integrity flag
/// raised when there was any.
pub open spec fn integrity_added(a: RecordFile, b: RecordFile, added: Seq<Seq<char>>) -> bool {
    &&& b == RecordFile {
        facts: RecordFacts {
            integrity_degraded: a.facts.integrity_degraded || added.len() > 0,
            integrity_reasons: b.facts.integrity_reasons,
            ..a.facts
        },
        ..a
    }
    &&& strs_view(b.facts.integrity_reasons@) == with_new_reasons(strs_view(a.facts.integrity_reasons@), added)
}

/// `b` is `a` committed: `added` integrity reasons recorded, the producer clock journal
/// dropped when `clear_journal` holds, the status `committed`, and a fresh quality summary.
pub open spec fn committed_with(a: RecordFile, b: RecordFile, added: Seq<Seq<char>>, clear_journal: bool) -> bool {
    &&& b == RecordFile {
        facts: RecordFacts {
            trace: if clear_journal {
                TraceFacts { trace_clock_observations: b.facts.trace.trace_clock_observations, ..a.facts.trace }
            } else {
                a.facts.trace
            },
            integrity_degraded: a.facts.integrity_degraded || added.len() > 0,
            integrity_reasons: b.facts.integrity_reasons,
            commit_status: b.facts.commit_status,
            ..a.facts
        },
        record_quality: b.record_quality,
        ..a
    }
    &&& clear_journal ==> b.facts.trace.trace_clock_observations@.len() == 0
    &&& strs_view(b.facts.integrity_reasons@) == with_new_reasons(strs_view(a.facts.integrity_reasons@), added)
    &&& opt_view(b.facts.commit_status) == Some("committed"@)
    &&& b.record_quality matches Some(q) && quality_view(q) == record_quality(b.facts)
}

/// `b` is `a` failed: invalid, degraded, `reasons` recorded, the status `failed`, and a fresh
/// quality summary.
pub open spec fn failed_with(a: RecordFile, b: RecordFile, reasons: Seq<Seq<char>>) -> bool {
    &&& b == RecordFile {
        facts: RecordFacts {
            side: SideFacts { validity: false, ..a.facts.side },
            integrity_degraded: true,
            integrity_reasons: b.facts.integrity_reasons,
            commit_status: b.facts.commit_status,
            ..a.facts
        },
        record_quality: b.record_quality,
        ..a
    }
    &&& strs_view(b.facts.integrity_reasons@) == with_new_reasons(strs_view(a.facts.integrity_reasons@), reasons)
    &&& opt_view(b.facts.commit_status) == Some("failed"@)
    &&& b.record_quality matches Some(q) && quality_view(q) == record_quality(b.facts)
}

/// `b` is `a` with the pair's provisional context dropped and `alignment` stored as its WAV
/// content alignment: no pair offset, score or WAV start basis, and no context frames, slots
/// or PSB snapshots. Nothing else changes.
pub open spec fn context_settled(a: RecordFile, b: RecordFile, alignment: Option<String>) -> bool {
    &&& b == RecordFile {
        trace_content_alignment: b.trace_content_alignment,
        trace_context_frames: b.trace_context_frames,
        trace_context_slot_positions: b.trace_context_slot_positions,
        trace_pair_wav_start_basis: None,
        trace_pair_offset_samples: None,
        trace_pair_alignment_scored: false,
        trace_context_psb_snapshot_t_ms: b.trace_context_psb_snapshot_t_ms,
        ..a
    }
    &&& opt_view(b.trace_content_alignment) == opt_view(alignment)
    &&& b.trace_context_frames@.len() == 0
    &&& b.trace_context_slot_positions@.len() == 0
    &&& b.trace_context_psb_snapshot_t_ms@.len() == 0
}

fn settle_pair_context(r: &mut RecordFile, alignment: &Option<String>)
    ensures
        context_settled(*old(r), *final(r), *alignment),
{
    r.trace_content_alignment = crate::path_model::copy_opt_string(alignment);
    r.trace_context_frames = Vec::new();
    r.trace_context_slot_positions = Vec::new();
    r.trace_pair_wav_start_basis = None;
    r.trace_pair_offset_samples = None;
    r.trace_pair_alignment_scored = false;
    r.trace_context_psb_snapshot_t_ms = Vec::new();
}

/// Both sides lie on the WAV axis.
pub open spec fn on_wav_axis(s: RecordFacts, p: RecordFacts) -> bool {
    s.trace_axis == TraceAxis::WavClock && p.trace_axis == TraceAxis::WavClock
}

/// The pair's timing is exact: the WAV content alignment holds and nothing keeps it from the
/// normal product.
pub open spec fn timing_exact(s: RecordFacts, p: RecordFacts, content_aligned: bool) -> bool {
    content_aligned && pair_publish_reasons(s, p).len() == 0
}

/// The pair is not exact but can be shown on the WAV axis.
pub open spec fn measured_fallback(s: RecordFacts, p: RecordFacts, content_aligned: bool) -> bool {
    !timing_exact(s, p, content_aligned) && pair_visibility_reasons(s, p).len() == 0 && on_wav_axis(s, p)
}

/// The side's take was bounded by expected WAV metadata.
pub open spec fn take_from_expected(r: RecordFacts) -> bool {
    r.trace.bounce_take matches Some(t) && t.source@ == "expected_wav_duration_native"@
}

/// The pair can never become exact: its expected WAV metadata was lost after a take was bound
/// to it, or both sides are measured on the WAV axis and still fail.
pub open spec fn must_quarantine(s: RecordFile, p: RecordFile) -> bool {
    let reasons = pair_publish_reasons(s.facts, p.facts);
    ||| reasons.contains("missing_expected_wav_metadata"@) && (take_from_expected(s.facts) || take_from_expected(
        p.facts,
    ))
    ||| s.frames@.len() > 0 && p.frames@.len() > 0 && on_wav_axis(s.facts, p.facts) && reasons.len() > 0
}

/// The publish reasons of the pair in PRE, POST order.
pub open spec fn ordered_publish_reasons(s: RecordFacts, p: RecordFacts) -> Seq<Seq<char>> {
    match pair_order(s, p) {
        Some((pre, post)) => pair_publish_reasons(pre, post),
        None => Seq::empty(),
    }
}

pub open spec fn frames_fit(r: RecordFile) -> bool {
    r.facts.trace.frame_t_ms@.len() <= u64::MAX / 100
}

fn add_record_integrity_reasons(r: &mut RecordFile, reasons: &[&'static str])
    ensures
        integrity_added(*old(r), *final(r), str_views(reasons@)),
{
    add_integrity_reasons(&mut r.facts, reasons);
}

/// Records `added`, drops the clock journal when `clear_journal` holds, and commits the side.
pub fn commit_pair_record(r: &mut RecordFile, added: &[&'static str], clear_journal: bool)
    requires
        frames_fit(*old(r)),
    ensures
        committed_with(*old(r), *final(r), str_views(added@), clear_journal),
{
    add_integrity_reasons(&mut r.facts, added);
    if clear_journal {
        r.facts.trace.trace_clock_observations = Vec::new();
    }
    r.facts.commit_status = Some("committed".to_owned());
    r.record_quality = Some(refresh_record_quality(&r.facts));
}

/// Fails the side for `reasons`.
pub fn fail_pair_record(r: &mut RecordFile, reasons: &[&'static str])
    requires
        frames_fit(*old(r)),
    ensures
        failed_with(*old(r), *final(r), str_views(reasons@)),
{
    r.facts.commit_status = Some("failed".to_owned());
    r.facts.side.validity = false;
    r.facts.integrity_degraded = true;
    crate::record_gate::append_new_reasons(&mut r.facts.integrity_reasons, reasons);
    r.record_quality = Some(refresh_record_quality(&r.facts));
}

fn reasons_contain(v: &Vec<&'static str>, x: &str) -> (b: bool)
    ensures
        b == str_views(v@).contains(x@),
{
    let mut i: usize = 0;
    while i < v.len()
        invariant
            i <= v@.len(),
            forall|j: int| 0 <= j < i ==> v@[j]@ != x@,
        decreases v@.len() - i,
    {
        if str_equal(v[i], x) {
            assert(str_views(v@)[i as int] == x@);
            return true;
        }
        i = i + 1;
    }
    assert forall|k: int| 0 <= k < v@.len() implies str_views(v@)[k] != x@ by {
        assert(v@[k]@ != x@);
    }
    false
}

fn take_from_expected_exec(r: &RecordFacts) -> (b: bool)
    ensures
        b == take_from_expected(*r),
{
    match &r.trace.bounce_take {
        Some(t) => str_equal(t.source.as_str(), "expected_wav_duration_native"),
        None => false,
    }
}

/// The pair's sides can be shown together, judged in PRE, POST order; never for two sides that
/// are not one PRE and one POST.
pub open spec fn pair_shown(s: RecordFacts, p: RecordFacts) -> bool {
    match pair_order(s, p) {
        Some((pre, post)) => pair_visibility_reasons(pre, post).len() == 0,
        None => false,
    }
}

/// Commits a late-bound pair as a measured product when its sides can be shown together.
/// When the two are one PRE and one POST, each first stores `content_alignment` as its WAV
/// content alignment and drops its provisional pair context; then, if the pair can be shown,
/// each side records the pair's publish reasons (in PRE, POST order), drops its producer
/// clock journal, is committed and gets a fresh quality summary. Sides that are not one PRE
/// and one POST are left unchanged. Returns whether the pair was committed.
pub fn prepare_late_expected_pair(left: &mut RecordFile, right: &mut RecordFile, content_alignment: Option<String>) -> (ok: bool)
    requires
        frames_fit(*old(left)),
        frames_fit(*old(right)),
    ensures
        ok == pair_shown(old(left).facts, old(right).facts),
        pair_order(old(left).facts, old(right).facts) is None ==> *final(left) == *old(left) && *final(right)
            == *old(right),
        pair_order(old(left).facts, old(right).facts) is Some ==> exists|ml: RecordFile, mr: RecordFile|
            #![trigger context_settled(*old(left), ml, content_alignment), context_settled(*old(right), mr, content_alignment)]
            {
                &&& context_settled(*old(left), ml, content_alignment)
                &&& context_settled(*old(right), mr, content_alignment)
                &&& ok ==> committed_with(ml, *final(left), ordered_publish_reasons(old(left).facts, old(right).facts), true)
                    && committed_with(mr, *final(right), ordered_publish_reasons(old(left).facts, old(right).facts), true)
                &&& !ok ==> *final(left) == ml && *final(right) == mr
            },
{
    let (shown, timing) = match (left.facts.side.role, right.facts.side.role) {
        (Role::Pre, Role::Post) => (
            pair_visibility_failure_reasons(&left.facts, &right.facts).len() == 0,
            pair_publish_failure_reasons(&left.facts, &right.facts),
        ),
        (Role::Post, Role::Pre) => (
            pair_visibility_failure_reasons(&right.facts, &left.facts).len() == 0,
            pair_publish_failure_reasons(&right.facts, &left.facts),
        ),
        _ => return false,
    };
    settle_pair_context(left, &content_alignment);
    settle_pair_context(right, &content_alignment);
    let ghost ml = *left;
    let ghost mr = *right;
    if !shown {
        return false;
    }
    commit_pair_record(left, timing.as_slice(), true);
    commit_pair_record(right, timing.as_slice(), true);
    assert(context_settled(*old(left), ml, content_alignment) && context_settled(*old(right), mr, content_alignment));
    true
}

/// Settles a pair of pending sides `s` and `p` (in either role order) once their annotations
/// agree. `content_alignment` is the two TRACEs' exact alignment on the WAV's content, when
/// there is one. An exact pair stores that alignment and drops its provisional pair context,
/// gets the pair's integrity reasons and is committed, or quarantined if they keep it from the
/// normal product; a pair that is not exact but can be shown on the WAV axis is committed as a
/// measured fallback (with the same context step) and its publish reasons recorded; a pair
/// that can never become exact is quarantined with its publish reasons; any other pair waits
/// unchanged.
pub fn finalize_pair_records(s: &mut RecordFile, p: &mut RecordFile, content_alignment: Option<String>) -> (action:
    PairFinalizeAction)
    requires
        frames_fit(*old(s)),
        frames_fit(*old(p)),
    ensures
        timing_exact(old(s).facts, old(p).facts, content_alignment is Some) ==> exists|
            cs: RecordFile,
            cp: RecordFile,
            ms: RecordFile,
            mp: RecordFile,
        |
            #![trigger context_settled(*old(s), cs, content_alignment), context_settled(*old(p), cp, content_alignment), integrity_added(cs, ms, pair_integrity_reasons(old(s).facts, old(p).facts)), integrity_added(cp, mp, pair_integrity_reasons(old(s).facts, old(p).facts))]
            {
                &&& context_settled(*old(s), cs, content_alignment)
                &&& context_settled(*old(p), cp, content_alignment)
                &&& integrity_added(cs, ms, pair_integrity_reasons(old(s).facts, old(p).facts))
                &&& integrity_added(cp, mp, pair_integrity_reasons(old(s).facts, old(p).facts))
                &&& if pair_publish_reasons(ms.facts, mp.facts).len() == 0 {
                    &&& action is PublishExact
                    &&& committed_with(ms, *final(s), Seq::empty(), false)
                    &&& committed_with(mp, *final(p), Seq::empty(), false)
                } else {
                    &&& action matches PairFinalizeAction::Quarantine(v) && str_views(v@) == pair_publish_reasons(
                        ms.facts,
                        mp.facts,
                    )
                    &&& failed_with(ms, *final(s), pair_publish_reasons(ms.facts, mp.facts))
                    &&& failed_with(mp, *final(p), pair_publish_reasons(ms.facts, mp.facts))
                }
            },
        measured_fallback(old(s).facts, old(p).facts, content_alignment is Some) ==> {
            &&& action is PublishMeasuredFallback
            &&& exists|cs: RecordFile, cp: RecordFile|
                #![trigger context_settled(*old(s), cs, content_alignment), context_settled(*old(p), cp, content_alignment)]
                {
                    &&& context_settled(*old(s), cs, content_alignment)
                    &&& context_settled(*old(p), cp, content_alignment)
                    &&& committed_with(cs, *final(s), ordered_publish_reasons(old(s).facts, old(p).facts), true)
                    &&& committed_with(cp, *final(p), ordered_publish_reasons(old(s).facts, old(p).facts), true)
                }
        },
        !timing_exact(old(s).facts, old(p).facts, content_alignment is Some) && !measured_fallback(
            old(s).facts,
            old(p).facts,
            content_alignment is Some,
        ) ==> if must_quarantine(*old(s), *old(p)) {
            &&& action matches PairFinalizeAction::Quarantine(v) && str_views(v@) == pair_publish_reasons(
                old(s).facts,
                old(p).facts,
            )
            &&& failed_with(*old(s), *final(s), pair_publish_reasons(old(s).facts, old(p).facts))
            &&& failed_with(*old(p), *final(p), pair_publish_reasons(old(s).facts, old(p).facts))
        } else {
            &&& action is Wait
            &&& *final(s) == *old(s)
            &&& *final(p) == *old(p)
        },
{
    let ghost s0 = *s;
    let ghost p0 = *p;
    let content_aligned = content_alignment.is_some();
    let reasons = pair_publish_failure_reasons(&s.facts, &p.facts);
    let visibility = pair_visibility_failure_reasons(&s.facts, &p.facts);
    let exact = content_aligned && reasons.len() == 0;
    let wav_axis = s.facts.trace_axis == TraceAxis::WavClock && p.facts.trace_axis == TraceAxis::WavClock;
    if !exact && visibility.len() == 0 && wav_axis {
        proof {
            crate::pair_gate::lemma_pair_gate_ignores_side_order(s0.facts, p0.facts);
            let forward = pair_visibility_reasons(s0.facts, p0.facts);
            let backward = pair_visibility_reasons(p0.facts, s0.facts);
            if backward.len() > 0 {
                let x = backward[0];
                assert(backward.contains(x));
                assert(forward.contains(x));
            }
            assert(pair_shown(s0.facts, p0.facts));
        }
        prepare_late_expected_pair(s, p, content_alignment);
        return PairFinalizeAction::PublishMeasuredFallback;
    }
    if !exact {
        let lost = reasons_contain(&reasons, "missing_expected_wav_metadata") && (take_from_expected_exec(&s.facts)
            || take_from_expected_exec(&p.facts));
        let invalid = s.frames.len() > 0 && p.frames.len() > 0 && wav_axis && reasons.len() > 0;
        if !lost && !invalid {
            return PairFinalizeAction::Wait;
        }
        fail_pair_record(s, reasons.as_slice());
        fail_pair_record(p, reasons.as_slice());
        return PairFinalizeAction::Quarantine(reasons);
    }
    settle_pair_context(s, &content_alignment);
    settle_pair_context(p, &content_alignment);
    let ghost cs = *s;
    let ghost cp = *p;
    let integrity = pair_publish_integrity_reasons(&s.facts, &p.facts);
    add_record_integrity_reasons(s, integrity.as_slice());
    add_record_integrity_reasons(p, integrity.as_slice());
    let ghost ms = *s;
    let ghost mp = *p;
    let settled = pair_publish_failure_reasons(&s.facts, &p.facts);
    assert(context_settled(s0, cs, content_alignment) && context_settled(p0, cp, content_alignment));
    if settled.len() == 0 {
        commit_pair_record(s, &[], false);
        commit_pair_record(p, &[], false);
        assert(str_views(Seq::<&'static str>::empty()) == Seq::<Seq<char>>::empty());
        assert(integrity_added(cs, ms, pair_integrity_reasons(s0.facts, p0.facts)));
        assert(integrity_added(cp, mp, pair_integrity_reasons(s0.facts, p0.facts)));
        PairFinalizeAction::PublishExact
    } else {
        fail_pair_record(s, settled.as_slice());
        fail_pair_record(p, settled.as_slice());
        assert(integrity_added(cs, ms, pair_integrity_reasons(s0.facts, p0.facts)));
        assert(integrity_added(cp, mp, pair_integrity_reasons(s0.facts, p0.facts)));
        PairFinalizeAction::Quarantine(settled)
    }
}

} // verus!

verus! {

proof fn lemma_carried_by_view(a: Seq<String>, b: Seq<String>)
    requires
        strs_view(a) == strs_view(b),
    ensures
        crate::record_gate::carried(a) == crate::record_gate::carried(b),
    decreases a.len(),
{
    assert(a.len() == strs_view(a).len());
    assert(b.len() == strs_view(b).len());
    if a.len() > 0 {
        assert(strs_view(a.drop_last()) =~= strs_view(a).drop_last());
        assert(strs_view(b.drop_last()) =~= strs_view(b).drop_last());
        assert(a.last()@ == strs_view(a)[a.len() - 1]);
        assert(b.last()@ == strs_view(b)[b.len() - 1]);
        lemma_carried_by_view(a.drop_last(), b.drop_last());
    }
}

proof fn lemma_no_entries(a: Seq<Seq<char>>, b: Seq<Seq<char>>, c: Seq<Seq<char>>)
    requires
        crate::plugin_data::dedup_first(a + b + c).len() == 0,
    ensures
        a.len() == 0,
        b.len() == 0,
{
    crate::record_gate::lemma_dedup_empty(a + b + c);
    assert((a + b).len() == 0);
}

proof fn lemma_side_shown(r: RecordFacts)
    requires
        crate::record_gate::side_publish_reasons(r.side).len() == 0,
    ensures
        crate::record_gate::side_visibility_reasons(r.side).len() == 0,
{
    if crate::record_gate::side_visibility_reasons(r.side).len() > 0 {
        let x = crate::record_gate::side_visibility_reasons(r.side)[0];
        assert(crate::record_gate::side_visibility_reasons(r.side).contains(x));
        crate::record_gate::lemma_visibility_reasons_are_publish_reasons(r.side, x);
    }
}

proof fn lemma_committed_side_is_complete(m: RecordFile, f: RecordFile)
    requires
        crate::record_gate::normal_publish_reasons(m.facts).len() == 0,
        committed_with(m, f, Seq::empty(), false),
    ensures
        crate::record_gate::quality_complete(f.facts),
{
    reveal_strlit("committed");
    reveal_strlit("failed");
    assert("committed"@ != "failed"@) by {
        assert("committed"@[0] != "failed"@[0]);
    }
    assert(strs_view(f.facts.integrity_reasons@) == strs_view(m.facts.integrity_reasons@));
    lemma_carried_by_view(f.facts.integrity_reasons@, m.facts.integrity_reasons@);
    assert(crate::record_gate::side_integrity_reasons(f.facts) == crate::record_gate::side_integrity_reasons(m.facts));
    assert(crate::record_gate::normal_publish_reasons(f.facts) == crate::record_gate::normal_publish_reasons(m.facts));
    lemma_no_entries(
        crate::record_gate::side_publish_reasons(m.facts.side),
        crate::record_gate::side_measurement_reasons(m.facts),
        crate::record_gate::side_integrity_reasons(m.facts),
    );
    lemma_side_shown(f.facts);
}

/// A pair published with exact timing has both sides complete; a pair published as a measured
/// fallback has both sides usable; a quarantined side is failed. Here `ms`, `mp` are the sides
/// as the pair gate judged them and `fs`, `fp` as they were settled.
pub proof fn lemma_settled_pair_grades(ms: RecordFile, mp: RecordFile, fs: RecordFile, fp: RecordFile, added: Seq<Seq<char>>)
    ensures
        pair_publish_reasons(ms.facts, mp.facts).len() == 0 && committed_with(ms, fs, Seq::empty(), false)
            && committed_with(mp, fp, Seq::empty(), false) ==> fs.record_quality->0.complete
            && fp.record_quality->0.complete,
        pair_visibility_reasons(ms.facts, mp.facts).len() == 0 && committed_with(ms, fs, added, true)
            && committed_with(mp, fp, added, true) ==> fs.record_quality->0.usable && fp.record_quality->0.usable,
        failed_with(ms, fs, added) ==> !fs.record_quality->0.usable && !fs.record_quality->0.complete,
{
    reveal_strlit("committed");
    reveal_strlit("failed");
    assert("committed"@ != "failed"@) by {
        assert("committed"@[0] != "failed"@[0]);
    }
    if pair_publish_reasons(ms.facts, mp.facts).len() == 0 && committed_with(ms, fs, Seq::empty(), false)
        && committed_with(mp, fp, Seq::empty(), false) {
        lemma_no_entries(
            crate::record_gate::normal_publish_reasons(ms.facts),
            crate::record_gate::normal_publish_reasons(mp.facts),
            crate::pair_gate::publish_pair_part(ms.facts, mp.facts),
        );
        lemma_committed_side_is_complete(ms, fs);
        lemma_committed_side_is_complete(mp, fp);
    }
    if pair_visibility_reasons(ms.facts, mp.facts).len() == 0 && committed_with(ms, fs, added, true)
        && committed_with(mp, fp, added, true) {
        lemma_no_entries(
            crate::record_gate::side_visibility_reasons(ms.facts.side),
            crate::record_gate::side_visibility_reasons(mp.facts.side),
            crate::pair_gate::visibility_pair_part(ms.facts, mp.facts),
        );
    }
}

} // verus!
