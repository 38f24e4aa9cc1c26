use kirin_measure::plugin_data::{BounceTake, Role, TraceClock, TraceDiagnostics};
use kirin_measure::record_gate::{
    add_integrity_reasons, bounce_take_sample_count_ready, normal_publish_failure_reasons,
    refresh_record_quality, side_measurement_failure_reasons, side_publish_integrity_reasons,
    trace_slot_identity_is_complete, trace_slots_are_complete, ExpectedWavFacts, RecordFacts, TraceAxis,
    latency_mapped_source_times, latency_mapped_trace_coverage, side_publish_failure_reasons,
    side_visibility_failure_reasons, trace_bounce_take_failure_reasons,
    trace_publish_failure_reasons, uses_latency_mapped_wav_grid, ClockObservation,
    LatencyMappedTraceCoverage, SideFacts, TraceFacts,
};

fn facts(slots: Vec<i64>, sample_rate: u64) -> TraceFacts {
    let times = slots.iter().map(|s| (*s as u64) * 1000 / sample_rate).collect();
    TraceFacts {
        frame_t_ms: times,
        trace_slot_positions: slots,
        trace_clock_resolution: Some("producer_plus_output_latency".to_string()),
        trace_clock_observations: Vec::new(),
        expected_wav_time_reference_samples: None,
        trace_clock_origin_position_samples: None,
        trace_diagnostics: None,
        bounce_take: None,
    }
}

fn take(duration_samples: u64, frame_count: u64) -> BounceTake {
    BounceTake {
        source: "wav_clock_native".to_string(),
        time_axis: "wav".to_string(),
        alignment_status: "sample_count_ready".to_string(),
        sample_rate: 48_000,
        wav_start_sample: 0,
        wav_end_sample: duration_samples,
        duration_samples,
        duration_frames_48k: duration_samples,
        start_t_ms: 0,
        end_t_ms: duration_samples * 1000 / 48_000,
        trace_sample_count: frame_count,
        frame_count,
        host_start_position_samples: None,
        host_end_position_samples: None,
    }
}

fn side(role: Role) -> SideFacts {
    SideFacts {
        role,
        project_hash: "proj".to_string(),
        instance_id: match role { Role::Pre => "pre".to_string(), Role::Post => "post".to_string() },
        validity: true,
        frame_count: 10,
        sample_rate: 48_000,
        record_session_id: Some("sess".to_string()),
        paired_pre_instance_id: Some("pre".to_string()),
        paired_post_instance_id: Some("post".to_string()),
        capture_generation_id: None,
        generation_started_at_ms: 0,
    }
}

#[test]
fn full_lattice_has_no_missing_window() {
    let slots: Vec<i64> = (1..=10).map(|i| i * 4_800).collect();
    let f = facts(slots, 48_000);
    assert!(uses_latency_mapped_wav_grid(&f));
    assert_eq!(
        latency_mapped_trace_coverage(&f, 48_000, 48_000),
        Some(LatencyMappedTraceCoverage { expected_frame_count: 10, measured_frame_count: 10, missing_slots: 0 })
    );
}

#[test]
fn head_middle_and_tail_gaps_are_counted() {
    let slots: Vec<i64> = vec![9_600, 14_400, 24_000, 28_800];
    let f = facts(slots, 48_000);
    let c = latency_mapped_trace_coverage(&f, 38_400, 48_000).unwrap();
    assert_eq!(c.measured_frame_count, 4);
    assert_eq!(c.missing_slots, 1 + 1 + 2);
    assert_eq!(c.expected_frame_count, 8);
}

#[test]
fn coverage_refuses_inconsistent_lattices() {
    let base: Vec<i64> = (1..=4).map(|i| i * 4_800).collect();
    assert_eq!(latency_mapped_trace_coverage(&facts(base.clone(), 48_000), 48_000, 0), None);
    assert_eq!(latency_mapped_trace_coverage(&facts(base.clone(), 48_000), 4_800, 48_000), None, "last slot beyond the WAV");
    let mut not_mapped = facts(base.clone(), 48_000);
    not_mapped.trace_clock_resolution = None;
    assert_eq!(latency_mapped_trace_coverage(&not_mapped, 48_000, 48_000), None);
    let mut wrong_time = facts(base.clone(), 48_000);
    wrong_time.frame_t_ms[1] += 1;
    assert_eq!(latency_mapped_trace_coverage(&wrong_time, 48_000, 48_000), None);
    let early = facts(vec![2_400, 7_200], 48_000);
    assert_eq!(latency_mapped_trace_coverage(&early, 48_000, 48_000), None, "first slot before one full window");
    let close = facts(vec![4_800, 6_000], 48_000);
    assert_eq!(latency_mapped_trace_coverage(&close, 48_000, 48_000), None, "step below half a slot");
}

#[test]
fn signed_diagnostics_stand_when_they_agree() {
    let mut f = facts((1..=4).map(|i| i * 4_800).collect(), 48_000);
    f.trace_diagnostics = Some(TraceDiagnostics {
        raw_trace_count: 4,
        expected_frame_count: 7,
        measured_frame_count: 4,
        missing_slots: 3,
        explicit_silence_frame_count: 0,
    });
    assert_eq!(
        latency_mapped_trace_coverage(&f, 48_000, 48_000),
        Some(LatencyMappedTraceCoverage { expected_frame_count: 7, measured_frame_count: 4, missing_slots: 3 })
    );
}

#[test]
fn journal_gaps_come_from_producer_times() {
    let mut f = facts(vec![4_800, 9_600, 14_400], 48_000);
    f.trace_clock_origin_position_samples = Some(1_000);
    f.trace_clock_observations = vec![
        ClockObservation { frame_t_ms: 100, producer_position_samples: Some(5_000), output_presentation_latency_samples: Some(800) },
        ClockObservation { frame_t_ms: 300, producer_position_samples: Some(9_800), output_presentation_latency_samples: Some(800) },
        ClockObservation { frame_t_ms: 400, producer_position_samples: Some(14_600), output_presentation_latency_samples: Some(800) },
        ClockObservation { frame_t_ms: 999, producer_position_samples: None, output_presentation_latency_samples: Some(800) },
    ];
    assert_eq!(latency_mapped_source_times(&f), Some(vec![100, 300, 400]));
    let c = latency_mapped_trace_coverage(&f, 19_200, 48_000).unwrap();
    assert_eq!(c.missing_slots, 1 + 1);
    assert_eq!(c.expected_frame_count, 5);

    let mut twice = f;
    twice.trace_clock_observations.push(ClockObservation {
        frame_t_ms: 500,
        producer_position_samples: Some(5_000),
        output_presentation_latency_samples: Some(800),
    });
    assert_eq!(latency_mapped_source_times(&twice), None, "two observations for one slot spoil the journal");
}

#[test]
fn bounce_take_reasons_name_each_mismatch() {
    let mut f = facts((1..=10).map(|i| i * 4_800).collect(), 48_000);
    f.trace_clock_resolution = None;
    f.frame_t_ms = (1..=10).map(|i| i * 100).collect();
    f.bounce_take = Some(take(48_000, 10));
    assert!(trace_bounce_take_failure_reasons(&f).is_empty());

    let mut bad = take(48_000, 9);
    bad.wav_start_sample = 1;
    bad.end_t_ms = 999;
    bad.duration_frames_48k = 1;
    f.bounce_take = Some(bad);
    assert_eq!(
        trace_bounce_take_failure_reasons(&f),
        vec![
            "bounce_take_start_sample_nonzero",
            "bounce_take_end_time_mismatch",
            "bounce_take_48k_duration_mismatch",
            "bounce_take_frame_payload_count_mismatch",
        ]
    );
    f.bounce_take = None;
    assert!(trace_bounce_take_failure_reasons(&f).is_empty());
}

#[test]
fn trace_publish_reasons_start_with_the_diagnostics() {
    let mut f = facts((1..=3).map(|i| i * 4_800).collect(), 48_000);
    assert_eq!(trace_publish_failure_reasons(&f), vec!["missing_trace_diagnostics"]);
    f.trace_diagnostics = Some(TraceDiagnostics {
        raw_trace_count: 3,
        expected_frame_count: 4,
        measured_frame_count: 3,
        missing_slots: 1,
        explicit_silence_frame_count: 0,
    });
    assert_eq!(trace_publish_failure_reasons(&f), vec!["missing_trace_slots", "trace_frame_count_mismatch"]);
}

#[test]
fn side_reasons_and_the_weaker_visibility_gate() {
    assert!(side_publish_failure_reasons(&side(Role::Pre)).is_empty());
    let mut s = side(Role::Pre);
    s.validity = false;
    s.frame_count = 0;
    s.paired_post_instance_id = Some(String::new());
    assert_eq!(
        side_publish_failure_reasons(&s),
        vec!["validity_false", "zero_trace_frames", "missing_paired_post_instance_id"]
    );
    assert_eq!(side_visibility_failure_reasons(&s), vec!["zero_trace_frames", "missing_paired_post_instance_id"]);
    s.capture_generation_id = Some("gen".to_string());
    s.generation_started_at_ms = 5;
    assert_eq!(side_visibility_failure_reasons(&s), vec!["missing_paired_post_instance_id"]);
    let mut p = side(Role::Post);
    p.record_session_id = None;
    p.sample_rate = 0;
    p.paired_pre_instance_id = None;
    assert_eq!(
        side_publish_failure_reasons(&p),
        vec!["missing_sample_rate", "missing_record_session_id", "missing_paired_pre_instance_id"]
    );
}

fn expected(rate: u32, samples: u64) -> ExpectedWavFacts {
    ExpectedWavFacts {
        usable: true,
        expected_sample_rate: rate,
        expected_duration_samples: samples,
        wav_time_reference_samples: None,
        wav_path: "/tmp/take.wav".to_string(),
        bounce_id: "bounce".to_string(),
        created_at_ms: 1_000,
        wav_file_size: Some(samples * 8 + 44),
        wav_mtime_ms: 1_000,
        wav_hash: Some("abc".to_string()),
        consumed_at_ms: None,
        consumed_by_session_id: None,
    }
}

fn complete_record() -> RecordFacts {
    let mut trace = facts((1..=10).map(|i| i * 4_800).collect(), 48_000);
    trace.trace_clock_resolution = None;
    trace.trace_diagnostics = Some(TraceDiagnostics {
        raw_trace_count: 10,
        expected_frame_count: 10,
        measured_frame_count: 10,
        missing_slots: 0,
        explicit_silence_frame_count: 0,
    });
    trace.bounce_take = Some(take(48_000, 10));
    RecordFacts {
        side: side(Role::Pre),
        trace,
        expected_wav: Some(expected(48_000, 48_000)),
        integrity_degraded: false,
        integrity_reasons: Vec::new(),
        commit_status: None,
        trace_axis: TraceAxis::WavClock,
        trace_clock: None,
        trace_clock_basis_canonical: false,
        canonical_wav_reference: true,
        trace_wav_reference: None,
    }
}

#[test]
fn a_clean_record_is_complete() {
    let r = complete_record();
    assert!(bounce_take_sample_count_ready(&r));
    assert!(trace_slot_identity_is_complete(&r));
    assert!(trace_slots_are_complete(&r));
    assert!(side_measurement_failure_reasons(&r).is_empty());
    assert!(side_publish_integrity_reasons(&r).is_empty());
    assert!(normal_publish_failure_reasons(&r).is_empty());
    let q = refresh_record_quality(&r);
    assert_eq!(q.status, "complete");
    assert!(q.complete && q.usable && q.expected_wav_ready && q.sample_count_ready && q.trace_slots_complete);
    assert_eq!((q.expected_frame_count, q.measured_frame_count, q.missing_trace_slots), (10, 10, 0));
}

#[test]
fn a_gap_in_the_lattice_leaves_a_usable_fallback() {
    let mut r = complete_record();
    r.trace.trace_slot_positions[4] += 1;
    assert!(!trace_slot_identity_is_complete(&r));
    assert_eq!(side_measurement_failure_reasons(&r), vec!["trace_slots_not_complete"]);
    let q = refresh_record_quality(&r);
    assert_eq!(q.status, "usable_fallback");
    assert!(!q.complete && q.usable && !q.trace_slots_complete && q.sample_count_ready);
}

#[test]
fn host_clock_slots_follow_the_trace_clock() {
    let mut r = complete_record();
    r.trace_axis = TraceAxis::HostClock;
    r.trace.trace_slot_positions = (1..=10).map(|i| 1_000 + i * 4_800).collect();
    r.trace_clock = Some(TraceClock {
        basis: "producer".to_string(),
        origin_position_samples: 1_000,
        end_position_samples: 1_000 + 10 * 4_800,
        sample_rate: 48_000,
        sources: vec!["callback".to_string()],
    });
    assert!(!trace_slot_identity_is_complete(&r), "the basis is not the canonical one");
    r.trace_clock_basis_canonical = true;
    assert!(trace_slot_identity_is_complete(&r));
    r.trace_axis = TraceAxis::Unrecognized;
    assert!(!trace_slot_identity_is_complete(&r));
}

#[test]
fn sample_count_readiness_follows_the_source() {
    let mut r = complete_record();
    let mut t = take(48_000, 10);
    t.source = "expected_wav_duration_native".to_string();
    r.trace.bounce_take = Some(t.clone());
    assert!(bounce_take_sample_count_ready(&r));
    r.expected_wav = Some(expected(48_000, 47_999));
    assert!(!bounce_take_sample_count_ready(&r));
    r.expected_wav = None;
    assert!(!bounce_take_sample_count_ready(&r));
    t.source = "host_guess".to_string();
    r.trace.bounce_take = Some(t);
    assert!(!bounce_take_sample_count_ready(&r));
    r.trace.bounce_take = None;
    assert!(!bounce_take_sample_count_ready(&r));
    assert_eq!(
        side_measurement_failure_reasons(&r),
        vec!["missing_bounce_take", "bounce_take_not_sample_count_ready"]
    );
}

#[test]
fn integrity_reasons_carry_the_journal_and_the_degraded_flag() {
    let mut r = complete_record();
    r.integrity_reasons = vec!["frame_timeline_gap".to_string(), "unrelated_note".to_string()];
    r.integrity_degraded = true;
    assert_eq!(side_publish_integrity_reasons(&r), vec!["integrity_degraded", "frame_timeline_gap"]);
    r.expected_wav = Some(expected(44_100, 48_000));
    assert_eq!(
        side_publish_integrity_reasons(&r),
        vec!["sample_rate_expected_mismatch", "bounce_take_sample_rate_mismatch", "integrity_degraded", "frame_timeline_gap"]
    );
    let q = refresh_record_quality(&r);
    assert_eq!(q.status, "usable_fallback");
}

#[test]
fn a_failed_commit_or_a_hidden_side_is_failed() {
    let mut r = complete_record();
    r.commit_status = Some("failed".to_string());
    let q = refresh_record_quality(&r);
    assert_eq!(q.status, "failed");
    assert!(!q.usable && !q.complete);
    let mut h = complete_record();
    h.side.record_session_id = None;
    assert_eq!(refresh_record_quality(&h).status, "failed");
    let mut d = complete_record();
    d.trace.trace_diagnostics = None;
    let q = refresh_record_quality(&d);
    assert_eq!(q.status, "usable_fallback");
    assert_eq!((q.expected_frame_count, q.measured_frame_count, q.missing_trace_slots), (0, 10, 0));
    assert!(!q.trace_slots_complete);
}

#[test]
fn adding_integrity_reasons_is_idempotent() {
    let mut r = complete_record();
    add_integrity_reasons(&mut r, &[]);
    assert!(!r.integrity_degraded && r.integrity_reasons.is_empty());
    r.integrity_reasons.push("drain_seal_timeout".to_string());
    add_integrity_reasons(&mut r, &["frame_timeline_gap", "drain_seal_timeout", "frame_timeline_gap"]);
    assert!(r.integrity_degraded);
    assert_eq!(r.integrity_reasons, vec!["drain_seal_timeout".to_string(), "frame_timeline_gap".to_string()]);
    let before = r.integrity_reasons.clone();
    add_integrity_reasons(&mut r, &["frame_timeline_gap", "drain_seal_timeout", "frame_timeline_gap"]);
    assert_eq!(r.integrity_reasons, before);
}
