//! The publish gate of a PRE/POST pair: the reasons two Record sides cannot be published,
//! displayed or relied on as one pair, in addition to the reasons of each side.
use vstd::prelude::*;

use crate::path_model::str_equal;
use crate::plugin_data::{dedup_first, opt_view, dedup_reasons, str_views, BounceTake, Role, TraceDiagnostics, TraceWavReference};
use crate::record_gate::{
    append_reasons, expected_usable, latency_mapped, normal_publish_failure_reasons, normal_publish_reasons,
    push_if, reason_if, side_integrity_reasons, side_publish_integrity_reasons, side_visibility_failure_reasons,
    side_visibility_reasons, trace_publish_failure_reasons, trace_publish_reasons, uses_latency_mapped_wav_grid,
    ExpectedWavFacts, RecordFacts, SideFacts, TraceAxis,
};

verus! {

/// The expected WAV metadata as a value.
pub type ExpectedView = (
    bool,
    (u64, u32, Option<u64>),
    (Seq<char>, Seq<char>, i64, Option<u64>, i64),
    (Option<Seq<char>>, Option<i64>, Option<Seq<char>>),
);

pub(crate) fn opt_text_eq(a: &Option<String>, b: &Option<String>) -> (r: bool)
    ensures
        r == (opt_view(*a) == opt_view(*b)),
{
    match (a, b) {
        (Some(x), Some(y)) => str_equal(x.as_str(), y.as_str()),
        (None, None) => true,
        _ => false,
    }
}

fn opt_text_is(a: &Option<String>, b: &str) -> (r: bool)
    ensures
        r == (opt_view(*a) == Some(b@)),
{
    match a {
        Some(x) => str_equal(x.as_str(), b),
        None => false,
    }
}

/// The expected WAV metadata as a value: two sides name the same expected WAV exactly when
/// these agree.
pub open spec fn expected_view(e: ExpectedWavFacts) -> ExpectedView {
    (
        e.usable,
        (e.expected_duration_samples, e.expected_sample_rate, e.wav_time_reference_samples),
        (e.wav_path@, e.bounce_id@, e.created_at_ms, e.wav_file_size, e.wav_mtime_ms),
        (opt_view(e.wav_hash), e.consumed_at_ms, opt_view(e.consumed_by_session_id)),
    )
}

pub open spec fn opt_expected_view(o: Option<ExpectedWavFacts>) -> Option<ExpectedView> {
    match o {
        Some(e) => Some(expected_view(e)),
        None => None,
    }
}

fn same_expected_fields(x: &ExpectedWavFacts, y: &ExpectedWavFacts) -> (r: bool)
    ensures
        r == (expected_view(*x) == expected_view(*y)),
{
    x.usable == y.usable && x.expected_duration_samples == y.expected_duration_samples && x.expected_sample_rate
        == y.expected_sample_rate && x.wav_time_reference_samples == y.wav_time_reference_samples && str_equal(
        x.wav_path.as_str(),
        y.wav_path.as_str(),
    ) && str_equal(x.bounce_id.as_str(), y.bounce_id.as_str()) && x.created_at_ms == y.created_at_ms
        && x.wav_file_size == y.wav_file_size && x.wav_mtime_ms == y.wav_mtime_ms && opt_text_eq(
        &x.wav_hash,
        &y.wav_hash,
    ) && x.consumed_at_ms == y.consumed_at_ms && opt_text_eq(&x.consumed_by_session_id, &y.consumed_by_session_id)
}

pub(crate) fn same_expected(a: &Option<ExpectedWavFacts>, b: &Option<ExpectedWavFacts>) -> (r: bool)
    ensures
        r == (opt_expected_view(*a) == opt_expected_view(*b)),
{
    match (a, b) {
        (Some(x), Some(y)) => same_expected_fields(x, y),
        (None, None) => true,
        _ => false,
    }
}

/// The WAV reference of a TRACE axis as a value.
pub open spec fn wav_ref_view(w: TraceWavReference) -> (
    Seq<char>,
    Seq<char>,
    u64,
    u64,
    u32,
    Seq<char>,
    Seq<char>,
    Seq<char>,
) {
    (w.basis@, w.capture_basis@, w.start_sample, w.end_sample, w.sample_rate, w.record_session_id@, w.bounce_id@, w.wav_hash@)
}

pub open spec fn opt_wav_ref_view(o: Option<TraceWavReference>) -> Option<
    (Seq<char>, Seq<char>, u64, u64, u32, Seq<char>, Seq<char>, Seq<char>),
> {
    match o {
        Some(w) => Some(wav_ref_view(w)),
        None => None,
    }
}

fn same_wav_ref(a: &Option<TraceWavReference>, b: &Option<TraceWavReference>) -> (r: bool)
    ensures
        r == (opt_wav_ref_view(*a) == opt_wav_ref_view(*b)),
{
    match (a, b) {
        (Some(x), Some(y)) => str_equal(x.basis.as_str(), y.basis.as_str()) && str_equal(
            x.capture_basis.as_str(),
            y.capture_basis.as_str(),
        ) && x.start_sample == y.start_sample && x.end_sample == y.end_sample && x.sample_rate == y.sample_rate
            && str_equal(x.record_session_id.as_str(), y.record_session_id.as_str()) && str_equal(
            x.bounce_id.as_str(),
            y.bounce_id.as_str(),
        ) && str_equal(x.wav_hash.as_str(), y.wav_hash.as_str()),
        (None, None) => true,
        _ => false,
    }
}

/// The two sides as `(pre, post)`, or `None` unless one is PRE and the other POST.
pub open spec fn pair_order(left: RecordFacts, right: RecordFacts) -> Option<(RecordFacts, RecordFacts)> {
    match (left.side.role, right.side.role) {
        (Role::Pre, Role::Post) => Some((left, right)),
        (Role::Post, Role::Pre) => Some((right, left)),
        _ => None,
    }
}

/// Either side belongs to a capture generation.
pub open spec fn has_generation(pre: SideFacts, post: SideFacts) -> bool {
    pre.capture_generation_id is Some || post.capture_generation_id is Some
}

/// The two sides do not name each other, or differ in project, session or capture generation.
/// The generation start time is compared only when `with_generation_start` holds.
pub open spec fn link_reasons(pre: SideFacts, post: SideFacts, with_generation_start: bool) -> Seq<Seq<char>> {
    reason_if(pre.project_hash@ != post.project_hash@, "pair_project_hash_mismatch"@) + reason_if(
        opt_view(pre.record_session_id) != opt_view(post.record_session_id),
        "pair_record_session_id_mismatch"@,
    ) + reason_if(
        opt_view(pre.capture_generation_id) != opt_view(post.capture_generation_id) && has_generation(pre, post),
        "pair_capture_generation_mismatch"@,
    ) + reason_if(
        with_generation_start && pre.generation_started_at_ms != post.generation_started_at_ms && has_generation(
            pre,
            post,
        ),
        "pair_generation_start_mismatch"@,
    ) + reason_if(opt_view(pre.paired_post_instance_id) != Some(post.instance_id@), "pair_pre_post_link_mismatch"@)
        + reason_if(opt_view(post.paired_pre_instance_id) != Some(pre.instance_id@), "pair_post_pre_link_mismatch"@)
}

/// Both sides lie on role-specific latency-mapped WAV grids, where their frame counts may
/// differ.
pub open spec fn mapped_axes(pre: RecordFacts, post: RecordFacts) -> bool {
    &&& latency_mapped(pre.trace)
    &&& latency_mapped(post.trace)
    &&& pre.trace_axis == TraceAxis::WavClock
    &&& post.trace_axis == TraceAxis::WavClock
}

/// The two bounce takes disagree.
pub open spec fn take_pair_reasons(a: BounceTake, b: BounceTake, mapped: bool) -> Seq<Seq<char>> {
    reason_if(a.source@ != b.source@, "pair_bounce_take_source_mismatch"@) + reason_if(
        a.time_axis@ != b.time_axis@,
        "pair_bounce_take_time_axis_mismatch"@,
    ) + reason_if(a.alignment_status@ != b.alignment_status@, "pair_bounce_take_alignment_mismatch"@) + reason_if(
        a.sample_rate != b.sample_rate,
        "pair_bounce_take_sample_rate_mismatch"@,
    ) + reason_if(a.wav_start_sample != b.wav_start_sample, "pair_bounce_take_start_sample_mismatch"@) + reason_if(
        a.wav_end_sample != b.wav_end_sample,
        "pair_bounce_take_end_sample_mismatch"@,
    ) + reason_if(a.duration_samples != b.duration_samples, "pair_bounce_take_duration_mismatch"@) + reason_if(
        a.duration_frames_48k != b.duration_frames_48k,
        "pair_bounce_take_48k_duration_mismatch"@,
    ) + reason_if(a.start_t_ms != b.start_t_ms, "pair_bounce_take_start_time_mismatch"@) + reason_if(
        a.end_t_ms != b.end_t_ms,
        "pair_bounce_take_end_time_mismatch"@,
    ) + reason_if(!mapped && a.frame_count != b.frame_count, "pair_bounce_take_frame_count_mismatch"@)
}

/// The two TRACE diagnostics disagree on their frame counts.
pub open spec fn diag_pair_reasons(a: TraceDiagnostics, b: TraceDiagnostics, mapped: bool) -> Seq<Seq<char>> {
    reason_if(!mapped && a.expected_frame_count != b.expected_frame_count, "pair_trace_expected_frame_count_mismatch"@)
        + reason_if(
        !mapped && a.measured_frame_count != b.measured_frame_count,
        "pair_trace_measured_frame_count_mismatch"@,
    )
}

/// The two sides disagree on sample rate, expected WAV, bounce take or TRACE frame counts.
pub open spec fn agreement_reasons(pre: RecordFacts, post: RecordFacts) -> Seq<Seq<char>> {
    let mapped = mapped_axes(pre, post);
    reason_if(pre.side.sample_rate != post.side.sample_rate, "pair_sample_rate_mismatch"@) + reason_if(
        opt_expected_view(pre.expected_wav) != opt_expected_view(post.expected_wav),
        "pair_expected_wav_mismatch"@,
    ) + takes_part(pre, post, mapped) + diags_part(pre, post, mapped)
}

/// The takes' disagreements, when both sides have one.
pub open spec fn takes_part(pre: RecordFacts, post: RecordFacts, mapped: bool) -> Seq<Seq<char>> {
    match (pre.trace.bounce_take, post.trace.bounce_take) {
        (Some(a), Some(b)) => take_pair_reasons(a, b, mapped),
        _ => Seq::empty(),
    }
}

/// The diagnostics' disagreements, when both sides have them.
pub open spec fn diags_part(pre: RecordFacts, post: RecordFacts, mapped: bool) -> Seq<Seq<char>> {
    match (pre.trace.trace_diagnostics, post.trace.trace_diagnostics) {
        (Some(a), Some(b)) => diag_pair_reasons(a, b, mapped),
        _ => Seq::empty(),
    }
}

/// Reasons the TRACEs of a pair are not consistent with each other: each side's TRACE
/// faults, then their disagreements, without repeats.
pub open spec fn pair_consistency_reasons(pre: RecordFacts, post: RecordFacts) -> Seq<Seq<char>> {
    dedup_first(trace_publish_reasons(pre.trace) + trace_publish_reasons(post.trace) + agreement_reasons(pre, post))
}

/// Reasons a pair cannot be published as the normal product.
pub open spec fn pair_publish_reasons(left: RecordFacts, right: RecordFacts) -> Seq<Seq<char>> {
    dedup_first(normal_publish_reasons(left) + normal_publish_reasons(right) + publish_pair_part(left, right))
}

/// What the pair adds to its sides' publish reasons.
pub open spec fn publish_pair_part(left: RecordFacts, right: RecordFacts) -> Seq<Seq<char>> {
    match pair_order(left, right) {
        Some((pre, post)) => link_reasons(pre.side, post.side, true) + pair_consistency_reasons(pre, post),
        None => seq!["pair_roles_not_pre_post"@],
    }
}

/// Reasons a pair cannot even be shown: a side that cannot be shown, sides that do not belong
/// together, or no common usable expected WAV and WAV identity.
pub open spec fn pair_visibility_reasons(left: RecordFacts, right: RecordFacts) -> Seq<Seq<char>> {
    dedup_first(
        side_visibility_reasons(left.side) + side_visibility_reasons(right.side) + visibility_pair_part(left, right),
    )
}

/// What the pair adds to its sides' visibility reasons.
pub open spec fn visibility_pair_part(left: RecordFacts, right: RecordFacts) -> Seq<Seq<char>> {
    match pair_order(left, right) {
        Some((pre, post)) => identity_reasons(pre, post),
        None => seq!["pair_roles_not_pre_post"@],
    }
}

/// The sides do not belong together, or have no common usable expected WAV and WAV identity.
pub open spec fn identity_reasons(pre: RecordFacts, post: RecordFacts) -> Seq<Seq<char>> {
    link_reasons(pre.side, post.side, false) + reason_if(
        pre.side.sample_rate != post.side.sample_rate,
        "pair_sample_rate_mismatch"@,
    ) + reason_if(
        opt_expected_view(pre.expected_wav) != opt_expected_view(post.expected_wav),
        "pair_expected_wav_mismatch"@,
    ) + reason_if(!expected_usable(pre) || !expected_usable(post), "missing_expected_wav_metadata"@) + reason_if(
        !pre.canonical_wav_reference || !post.canonical_wav_reference || opt_wav_ref_view(pre.trace_wav_reference)
            != opt_wav_ref_view(post.trace_wav_reference),
        "pair_wav_identity_unavailable"@,
    )
}

/// Integrity reasons of a pair: each side's, then their disagreements.
pub open spec fn pair_integrity_reasons(left: RecordFacts, right: RecordFacts) -> Seq<Seq<char>> {
    dedup_first(side_integrity_reasons(left) + side_integrity_reasons(right) + integrity_pair_part(left, right))
}

/// What the pair adds to its sides' integrity reasons.
pub open spec fn integrity_pair_part(left: RecordFacts, right: RecordFacts) -> Seq<Seq<char>> {
    match pair_order(left, right) {
        Some((pre, post)) => agreement_reasons(pre, post),
        None => Seq::empty(),
    }
}

} // verus!

verus! {

/// Starts a reason list with its first entry.
fn first_reason(cond: bool, r: &'static str) -> (v: Vec<&'static str>)
    ensures
        str_views(v@) == reason_if(cond, r@),
{
    let mut v: Vec<&'static str> = Vec::new();
    push_if(&mut v, cond, r);
    assert(Seq::<Seq<char>>::empty() + reason_if(cond, r@) == reason_if(cond, r@));
    v
}

fn link_reason_list(pre: &SideFacts, post: &SideFacts, with_generation_start: bool) -> (v: Vec<&'static str>)
    ensures
        str_views(v@) == link_reasons(*pre, *post, with_generation_start),
{
    let generation = pre.capture_generation_id.is_some() || post.capture_generation_id.is_some();
    let mut v = first_reason(!str_equal(pre.project_hash.as_str(), post.project_hash.as_str()), "pair_project_hash_mismatch");
    push_if(&mut v, !opt_text_eq(&pre.record_session_id, &post.record_session_id), "pair_record_session_id_mismatch");
    push_if(
        &mut v,
        !opt_text_eq(&pre.capture_generation_id, &post.capture_generation_id) && generation,
        "pair_capture_generation_mismatch",
    );
    push_if(
        &mut v,
        with_generation_start && pre.generation_started_at_ms != post.generation_started_at_ms && generation,
        "pair_generation_start_mismatch",
    );
    push_if(&mut v, !opt_text_is(&pre.paired_post_instance_id, post.instance_id.as_str()), "pair_pre_post_link_mismatch");
    push_if(&mut v, !opt_text_is(&post.paired_pre_instance_id, pre.instance_id.as_str()), "pair_post_pre_link_mismatch");
    v
}

fn take_pair_reason_list(a: &BounceTake, b: &BounceTake, mapped: bool) -> (v: Vec<&'static str>)
    ensures
        str_views(v@) == take_pair_reasons(*a, *b, mapped),
{
    let mut v = first_reason(!str_equal(a.source.as_str(), b.source.as_str()), "pair_bounce_take_source_mismatch");
    push_if(&mut v, !str_equal(a.time_axis.as_str(), b.time_axis.as_str()), "pair_bounce_take_time_axis_mismatch");
    push_if(
        &mut v,
        !str_equal(a.alignment_status.as_str(), b.alignment_status.as_str()),
        "pair_bounce_take_alignment_mismatch",
    );
    push_if(&mut v, a.sample_rate != b.sample_rate, "pair_bounce_take_sample_rate_mismatch");
    push_if(&mut v, a.wav_start_sample != b.wav_start_sample, "pair_bounce_take_start_sample_mismatch");
    push_if(&mut v, a.wav_end_sample != b.wav_end_sample, "pair_bounce_take_end_sample_mismatch");
    push_if(&mut v, a.duration_samples != b.duration_samples, "pair_bounce_take_duration_mismatch");
    push_if(&mut v, a.duration_frames_48k != b.duration_frames_48k, "pair_bounce_take_48k_duration_mismatch");
    push_if(&mut v, a.start_t_ms != b.start_t_ms, "pair_bounce_take_start_time_mismatch");
    push_if(&mut v, a.end_t_ms != b.end_t_ms, "pair_bounce_take_end_time_mismatch");
    push_if(&mut v, !mapped && a.frame_count != b.frame_count, "pair_bounce_take_frame_count_mismatch");
    v
}

fn agreement_reason_list(pre: &RecordFacts, post: &RecordFacts) -> (v: Vec<&'static str>)
    ensures
        str_views(v@) == agreement_reasons(*pre, *post),
{
    let mapped = uses_latency_mapped_wav_grid(&pre.trace) && uses_latency_mapped_wav_grid(&post.trace)
        && pre.trace_axis == TraceAxis::WavClock && post.trace_axis == TraceAxis::WavClock;
    let mut v = first_reason(pre.side.sample_rate != post.side.sample_rate, "pair_sample_rate_mismatch");
    push_if(&mut v, !same_expected(&pre.expected_wav, &post.expected_wav), "pair_expected_wav_mismatch");
    let takes = match (&pre.trace.bounce_take, &post.trace.bounce_take) {
        (Some(a), Some(b)) => take_pair_reason_list(a, b, mapped),
        _ => Vec::new(),
    };
    assert(str_views(takes@) == takes_part(*pre, *post, mapped));
    append_reasons(&mut v, takes);
    let diags = match (&pre.trace.trace_diagnostics, &post.trace.trace_diagnostics) {
        (Some(a), Some(b)) => {
            let mut w = first_reason(
                !mapped && a.expected_frame_count != b.expected_frame_count,
                "pair_trace_expected_frame_count_mismatch",
            );
            push_if(
                &mut w,
                !mapped && a.measured_frame_count != b.measured_frame_count,
                "pair_trace_measured_frame_count_mismatch",
            );
            w
        },
        _ => Vec::new(),
    };
    assert(str_views(diags@) == diags_part(*pre, *post, mapped));
    append_reasons(&mut v, diags);
    v
}

/// Reasons the TRACEs of a pair are not consistent with each other.
pub fn pair_publish_consistency_failure_reasons(pre: &RecordFacts, post: &RecordFacts) -> (out: Vec<&'static str>)
    requires
        pre.trace.frame_t_ms@.len() <= u64::MAX / 100,
        post.trace.frame_t_ms@.len() <= u64::MAX / 100,
    ensures
        str_views(out@) == pair_consistency_reasons(*pre, *post),
{
    let mut v = trace_publish_failure_reasons(&pre.trace);
    append_reasons(&mut v, trace_publish_failure_reasons(&post.trace));
    append_reasons(&mut v, agreement_reason_list(pre, post));
    dedup_reasons(v)
}

fn publish_pair_part_list(left: &RecordFacts, right: &RecordFacts) -> (v: Vec<&'static str>)
    requires
        left.trace.frame_t_ms@.len() <= u64::MAX / 100,
        right.trace.frame_t_ms@.len() <= u64::MAX / 100,
    ensures
        str_views(v@) == publish_pair_part(*left, *right),
{
    match (left.side.role, right.side.role) {
        (Role::Pre, Role::Post) => {
            let mut v = link_reason_list(&left.side, &right.side, true);
            append_reasons(&mut v, pair_publish_consistency_failure_reasons(left, right));
            v
        },
        (Role::Post, Role::Pre) => {
            let mut v = link_reason_list(&right.side, &left.side, true);
            append_reasons(&mut v, pair_publish_consistency_failure_reasons(right, left));
            v
        },
        _ => first_reason(true, "pair_roles_not_pre_post"),
    }
}

/// Reasons a pair cannot be published as the normal product.
pub fn pair_publish_failure_reasons(left: &RecordFacts, right: &RecordFacts) -> (out: Vec<&'static str>)
    requires
        left.trace.frame_t_ms@.len() <= u64::MAX / 100,
        right.trace.frame_t_ms@.len() <= u64::MAX / 100,
    ensures
        str_views(out@) == pair_publish_reasons(*left, *right),
{
    let mut v = normal_publish_failure_reasons(left);
    append_reasons(&mut v, normal_publish_failure_reasons(right));
    append_reasons(&mut v, publish_pair_part_list(left, right));
    dedup_reasons(v)
}

fn identity_reason_list(pre: &RecordFacts, post: &RecordFacts) -> (v: Vec<&'static str>)
    ensures
        str_views(v@) == identity_reasons(*pre, *post),
{
    let mut v = link_reason_list(&pre.side, &post.side, false);
    push_if(&mut v, pre.side.sample_rate != post.side.sample_rate, "pair_sample_rate_mismatch");
    push_if(&mut v, !same_expected(&pre.expected_wav, &post.expected_wav), "pair_expected_wav_mismatch");
    let pre_ok = match &pre.expected_wav {
        Some(e) => e.usable,
        None => false,
    };
    let post_ok = match &post.expected_wav {
        Some(e) => e.usable,
        None => false,
    };
    push_if(&mut v, !pre_ok || !post_ok, "missing_expected_wav_metadata");
    push_if(
        &mut v,
        !pre.canonical_wav_reference || !post.canonical_wav_reference || !same_wav_ref(
            &pre.trace_wav_reference,
            &post.trace_wav_reference,
        ),
        "pair_wav_identity_unavailable",
    );
    v
}

/// Reasons a pair cannot even be shown.
pub fn pair_visibility_failure_reasons(left: &RecordFacts, right: &RecordFacts) -> (out: Vec<&'static str>)
    ensures
        str_views(out@) == pair_visibility_reasons(*left, *right),
{
    let mut v = side_visibility_failure_reasons(&left.side);
    append_reasons(&mut v, side_visibility_failure_reasons(&right.side));
    let part = match (left.side.role, right.side.role) {
        (Role::Pre, Role::Post) => identity_reason_list(left, right),
        (Role::Post, Role::Pre) => identity_reason_list(right, left),
        _ => first_reason(true, "pair_roles_not_pre_post"),
    };
    append_reasons(&mut v, part);
    dedup_reasons(v)
}

/// Integrity reasons of a pair.
pub fn pair_publish_integrity_reasons(left: &RecordFacts, right: &RecordFacts) -> (out: Vec<&'static str>)
    requires
        left.trace.frame_t_ms@.len() <= u64::MAX / 100,
        right.trace.frame_t_ms@.len() <= u64::MAX / 100,
    ensures
        str_views(out@) == pair_integrity_reasons(*left, *right),
{
    let mut v = side_publish_integrity_reasons(left);
    append_reasons(&mut v, side_publish_integrity_reasons(right));
    let part = match (left.side.role, right.side.role) {
        (Role::Pre, Role::Post) => agreement_reason_list(left, right),
        (Role::Post, Role::Pre) => agreement_reason_list(right, left),
        _ => Vec::new(),
    };
    assert(str_views(part@) == integrity_pair_part(*left, *right));
    append_reasons(&mut v, part);
    dedup_reasons(v)
}

} // verus!

verus! {

proof fn lemma_concat_contains(a: Seq<Seq<char>>, b: Seq<Seq<char>>, x: Seq<char>)
    ensures
        (a + b).contains(x) <==> (a.contains(x) || b.contains(x)),
{
    if (a + b).contains(x) {
        let k = choose|k: int| 0 <= k < (a + b).len() && (a + b)[k] == x;
        if k < a.len() {
            assert(a[k] == x);
        } else {
            assert(b[k - a.len()] == x);
        }
    }
    if a.contains(x) {
        let k = choose|k: int| 0 <= k < a.len() && a[k] == x;
        assert((a + b)[k] == x);
    }
    if b.contains(x) {
        let k = choose|k: int| 0 <= k < b.len() && b[k] == x;
        assert((a + b)[a.len() + k] == x);
    }
}

proof fn lemma_swapped_sides_same_entries(a: Seq<Seq<char>>, b: Seq<Seq<char>>, p: Seq<Seq<char>>)
    ensures
        forall|x: Seq<char>| #[trigger] dedup_first(a + b + p).contains(x) <==> dedup_first(b + a + p).contains(x),
{
    crate::plugin_data::lemma_dedup_same_entries(a + b + p);
    crate::plugin_data::lemma_dedup_same_entries(b + a + p);
    assert forall|x: Seq<char>| #[trigger] dedup_first(a + b + p).contains(x) <==> dedup_first(b + a + p).contains(x) by {
        lemma_concat_contains(a + b, p, x);
        lemma_concat_contains(b + a, p, x);
        lemma_concat_contains(a, b, x);
        lemma_concat_contains(b, a, x);
    }
}

/// The pair gates do not depend on which side is given first: swapping the two sides yields
/// the same publish, visibility and integrity reasons, possibly in another order. Sides that
/// are not one PRE and one POST never pass the publish or visibility gate.
pub proof fn lemma_pair_gate_ignores_side_order(left: RecordFacts, right: RecordFacts)
    ensures
        forall|x: Seq<char>|
            #[trigger] pair_publish_reasons(left, right).contains(x) <==> pair_publish_reasons(right, left).contains(x),
        forall|x: Seq<char>|
            #[trigger] pair_visibility_reasons(left, right).contains(x) <==> pair_visibility_reasons(
                right,
                left,
            ).contains(x),
        forall|x: Seq<char>|
            #[trigger] pair_integrity_reasons(left, right).contains(x) <==> pair_integrity_reasons(
                right,
                left,
            ).contains(x),
        pair_order(left, right) is None ==> pair_publish_reasons(left, right).contains("pair_roles_not_pre_post"@)
            && pair_visibility_reasons(left, right).contains("pair_roles_not_pre_post"@),
{
    assert(pair_order(left, right) == pair_order(right, left));
    lemma_swapped_sides_same_entries(
        normal_publish_reasons(left),
        normal_publish_reasons(right),
        publish_pair_part(left, right),
    );
    lemma_swapped_sides_same_entries(
        side_visibility_reasons(left.side),
        side_visibility_reasons(right.side),
        visibility_pair_part(left, right),
    );
    lemma_swapped_sides_same_entries(
        side_integrity_reasons(left),
        side_integrity_reasons(right),
        integrity_pair_part(left, right),
    );
    if pair_order(left, right) is None {
        let r = "pair_roles_not_pre_post"@;
        let a = normal_publish_reasons(left) + normal_publish_reasons(right);
        let p = publish_pair_part(left, right);
        assert(p[0] == r);
        lemma_concat_contains(a, p, r);
        crate::plugin_data::lemma_dedup_same_entries(a + p);
        let va = side_visibility_reasons(left.side) + side_visibility_reasons(right.side);
        let vp = visibility_pair_part(left, right);
        assert(vp[0] == r);
        lemma_concat_contains(va, vp, r);
        crate::plugin_data::lemma_dedup_same_entries(va + vp);
    }
}


proof fn lemma_seq_in_concat(a: Seq<Seq<char>>, b: Seq<Seq<char>>, x: Seq<char>)
    ensures
        a.contains(x) || b.contains(x) ==> (a + b).contains(x),
{
    if a.contains(x) {
        let i = choose|i: int| 0 <= i < a.len() && a[i] == x;
        assert((a + b)[i] == x);
    } else if b.contains(x) {
        let i = choose|i: int| 0 <= i < b.len() && b[i] == x;
        assert((a + b)[a.len() + i] == x);
    }
}

proof fn lemma_link_reports(pre: SideFacts, post: SideFacts, g: bool, x: Seq<char>)
    requires
        (x == "pair_project_hash_mismatch"@ && pre.project_hash@ != post.project_hash@) || (x
            == "pair_record_session_id_mismatch"@ && opt_view(pre.record_session_id) != opt_view(
            post.record_session_id,
        )) || (x == "pair_capture_generation_mismatch"@ && opt_view(pre.capture_generation_id) != opt_view(
            post.capture_generation_id,
        ) && (pre.capture_generation_id is Some || post.capture_generation_id is Some)) || (x
            == "pair_pre_post_link_mismatch"@ && opt_view(pre.paired_post_instance_id) != Some(post.instance_id@))
            || (x == "pair_post_pre_link_mismatch"@ && opt_view(post.paired_pre_instance_id) != Some(
            pre.instance_id@,
        )),
    ensures
        link_reasons(pre, post, g).contains(x),
{
    let a = reason_if(pre.project_hash@ != post.project_hash@, "pair_project_hash_mismatch"@);
    let b = reason_if(
        opt_view(pre.record_session_id) != opt_view(post.record_session_id),
        "pair_record_session_id_mismatch"@,
    );
    let c = reason_if(
        opt_view(pre.capture_generation_id) != opt_view(post.capture_generation_id) && has_generation(pre, post),
        "pair_capture_generation_mismatch"@,
    );
    let d = reason_if(
        g && pre.generation_started_at_ms != post.generation_started_at_ms && has_generation(pre, post),
        "pair_generation_start_mismatch"@,
    );
    let e = reason_if(opt_view(pre.paired_post_instance_id) != Some(post.instance_id@), "pair_pre_post_link_mismatch"@);
    let f = reason_if(opt_view(post.paired_pre_instance_id) != Some(pre.instance_id@), "pair_post_pre_link_mismatch"@);
    let l = link_reasons(pre, post, g);
    assert(l =~= a + b + c + d + e + f);
    reveal_strlit("pair_project_hash_mismatch");
    reveal_strlit("pair_record_session_id_mismatch");
    reveal_strlit("pair_capture_generation_mismatch");
    reveal_strlit("pair_pre_post_link_mismatch");
    reveal_strlit("pair_post_pre_link_mismatch");
    if x == "pair_project_hash_mismatch"@ && pre.project_hash@ != post.project_hash@ {
        assert(l[0] == x);
    } else if x == "pair_record_session_id_mismatch"@ && opt_view(pre.record_session_id) != opt_view(
        post.record_session_id,
    ) {
        assert(l[a.len() as int] == x);
    } else if x == "pair_capture_generation_mismatch"@ && opt_view(pre.capture_generation_id) != opt_view(
        post.capture_generation_id,
    ) && (pre.capture_generation_id is Some || post.capture_generation_id is Some) {
        assert(l[(a.len() + b.len()) as int] == x);
    } else if x == "pair_pre_post_link_mismatch"@ && opt_view(pre.paired_post_instance_id) != Some(
        post.instance_id@,
    ) {
        assert(l[(a.len() + b.len() + c.len() + d.len()) as int] == x);
    } else {
        assert(l[(a.len() + b.len() + c.len() + d.len() + e.len()) as int] == x);
    }
}

proof fn lemma_link_fault_reaches_gates(left: RecordFacts, right: RecordFacts, pre: RecordFacts, post: RecordFacts, x: Seq<char>)
    requires
        pair_order(left, right) == Some((pre, post)),
        link_reasons(pre.side, post.side, true).contains(x),
        link_reasons(pre.side, post.side, false).contains(x),
    ensures
        pair_publish_reasons(left, right).contains(x),
        pair_visibility_reasons(left, right).contains(x),
{
    lemma_seq_in_concat(link_reasons(pre.side, post.side, true), pair_consistency_reasons(pre, post), x);
    assert(publish_pair_part(left, right).contains(x));
    let idr = identity_reasons(pre, post);
    let lk = link_reasons(pre.side, post.side, false);
    let k = choose|k: int| 0 <= k < lk.len() && lk[k] == x;
    assert(idr[k] == x);
    assert(visibility_pair_part(left, right).contains(x));
    let pa = normal_publish_reasons(left) + normal_publish_reasons(right);
    lemma_seq_in_concat(pa, publish_pair_part(left, right), x);
    crate::plugin_data::lemma_dedup_same_entries(pa + publish_pair_part(left, right));
    let va = side_visibility_reasons(left.side) + side_visibility_reasons(right.side);
    lemma_seq_in_concat(va, visibility_pair_part(left, right), x);
    crate::plugin_data::lemma_dedup_same_entries(va + visibility_pair_part(left, right));
}

/// Records that do not belong together never make one pair. For one PRE and one POST (in
/// either order), both the pair's publish reasons and its visibility reasons name each broken
/// link: different project hashes (`pair_project_hash_mismatch`), different record sessions
/// (`pair_record_session_id_mismatch`), different capture generations when either has one
/// (`pair_capture_generation_mismatch`), a PRE that does not name the POST
/// (`pair_pre_post_link_mismatch`) and a POST that does not name the PRE
/// (`pair_post_pre_link_mismatch`).
pub proof fn lemma_unlinked_records_never_pair(left: RecordFacts, right: RecordFacts)
    requires
        (left.side.role == Role::Pre && right.side.role == Role::Post) || (left.side.role == Role::Post
            && right.side.role == Role::Pre),
    ensures
        left.side.project_hash@ != right.side.project_hash@ ==> pair_publish_reasons(left, right).contains(
            "pair_project_hash_mismatch"@,
        ) && pair_visibility_reasons(left, right).contains("pair_project_hash_mismatch"@),
        opt_view(left.side.record_session_id) != opt_view(right.side.record_session_id) ==> pair_publish_reasons(
            left,
            right,
        ).contains("pair_record_session_id_mismatch"@) && pair_visibility_reasons(left, right).contains(
            "pair_record_session_id_mismatch"@,
        ),
        opt_view(left.side.capture_generation_id) != opt_view(right.side.capture_generation_id)
            ==> pair_publish_reasons(left, right).contains("pair_capture_generation_mismatch"@)
            && pair_visibility_reasons(left, right).contains("pair_capture_generation_mismatch"@),
        ({
            let (pre, post) = if left.side.role == Role::Pre {
                (left, right)
            } else {
                (right, left)
            };
            &&& opt_view(pre.side.paired_post_instance_id) != Some(post.side.instance_id@) ==> pair_publish_reasons(
                left,
                right,
            ).contains("pair_pre_post_link_mismatch"@) && pair_visibility_reasons(left, right).contains(
                "pair_pre_post_link_mismatch"@,
            )
            &&& opt_view(post.side.paired_pre_instance_id) != Some(pre.side.instance_id@) ==> pair_publish_reasons(
                left,
                right,
            ).contains("pair_post_pre_link_mismatch"@) && pair_visibility_reasons(left, right).contains(
                "pair_post_pre_link_mismatch"@,
            )
        }),
{
    let (pre, post) = pair_order(left, right)->0;
    let names = seq![
        "pair_project_hash_mismatch"@,
        "pair_record_session_id_mismatch"@,
        "pair_capture_generation_mismatch"@,
        "pair_pre_post_link_mismatch"@,
        "pair_post_pre_link_mismatch"@,
    ];
    assert forall|k: int| 0 <= k < 5 && {
        let x = names[k];
        (x == "pair_project_hash_mismatch"@ && pre.side.project_hash@ != post.side.project_hash@) || (x
            == "pair_record_session_id_mismatch"@ && opt_view(pre.side.record_session_id) != opt_view(
            post.side.record_session_id,
        )) || (x == "pair_capture_generation_mismatch"@ && opt_view(pre.side.capture_generation_id) != opt_view(
            post.side.capture_generation_id,
        ) && (pre.side.capture_generation_id is Some || post.side.capture_generation_id is Some)) || (x
            == "pair_pre_post_link_mismatch"@ && opt_view(pre.side.paired_post_instance_id) != Some(
            post.side.instance_id@,
        )) || (x == "pair_post_pre_link_mismatch"@ && opt_view(post.side.paired_pre_instance_id) != Some(
            pre.side.instance_id@,
        ))
    } implies pair_publish_reasons(left, right).contains(#[trigger] names[k]) && pair_visibility_reasons(
        left,
        right,
    ).contains(names[k]) by {
        lemma_link_reports(pre.side, post.side, true, names[k]);
        lemma_link_reports(pre.side, post.side, false, names[k]);
        lemma_link_fault_reaches_gates(left, right, pre, post, names[k]);
    }
    if opt_view(left.side.capture_generation_id) != opt_view(right.side.capture_generation_id) {
        assert(pre.side.capture_generation_id is Some || post.side.capture_generation_id is Some);
    }
    assert(names[0] == "pair_project_hash_mismatch"@);
    assert(names[1] == "pair_record_session_id_mismatch"@);
    assert(names[2] == "pair_capture_generation_mismatch"@);
    assert(names[3] == "pair_pre_post_link_mismatch"@);
    assert(names[4] == "pair_post_pre_link_mismatch"@);
}

} // verus!
