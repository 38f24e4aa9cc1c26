use kirin_measure::pair_gate::{
    pair_publish_consistency_failure_reasons, pair_publish_failure_reasons, pair_publish_integrity_reasons,
    pair_visibility_failure_reasons,
};
use kirin_measure::plugin_data::{BounceTake, Role, TraceClock, TraceDiagnostics, TraceWavReference};
use kirin_measure::record_gate::{
    latency_mapped_trace_coverage, normal_publish_failure_reasons, refresh_record_quality,
    trace_slot_identity_is_complete, trace_slots_are_complete, ClockObservation, ExpectedWavFacts,
    LatencyMappedTraceCoverage, RecordFacts, SideFacts, TraceAxis, TraceFacts,
};

const SESSION: &str = "session-pair-atomic";

fn expected_wav(rate: u32, samples: u64) -> ExpectedWavFacts {
    ExpectedWavFacts {
        usable: true,
        expected_sample_rate: rate,
        expected_duration_samples: samples,
        wav_time_reference_samples: None,
        wav_path: "/tmp/take.wav".to_string(),
        bounce_id: "bounce-1".to_string(),
        created_at_ms: 1_776_436_330_000,
        wav_file_size: Some(samples * 8 + 44),
        wav_mtime_ms: 1_776_436_330_000,
        wav_hash: Some("wavhash".to_string()),
        consumed_at_ms: None,
        consumed_by_session_id: None,
    }
}

fn wav_reference(expected: &ExpectedWavFacts) -> TraceWavReference {
    TraceWavReference {
        basis: "wav_reference".to_string(),
        capture_basis: "capture".to_string(),
        start_sample: 0,
        end_sample: expected.expected_duration_samples,
        sample_rate: expected.expected_sample_rate,
        record_session_id: SESSION.to_string(),
        bounce_id: expected.bounce_id.clone(),
        wav_hash: expected.wav_hash.clone().unwrap(),
    }
}

/// A closed, committed 48 kHz side of one second: ten frames on the uniform WAV lattice.
fn complete_pair_record(
    role: Role,
    instance_id: &str,
    paired_pre_instance_id: Option<String>,
    paired_post_instance_id: Option<String>,
) -> RecordFacts {
    let expected = expected_wav(48_000, 48_000);
    RecordFacts {
        side: SideFacts {
            role,
            project_hash: "proj-hash".to_string(),
            instance_id: instance_id.to_string(),
            validity: true,
            frame_count: 10,
            sample_rate: 48_000,
            record_session_id: Some(SESSION.to_string()),
            paired_pre_instance_id,
            paired_post_instance_id,
            capture_generation_id: None,
            generation_started_at_ms: 0,
        },
        trace: TraceFacts {
            frame_t_ms: (1..=10).map(|i| i * 100).collect(),
            trace_slot_positions: (1..=10).map(|i| i * 4_800).collect(),
            trace_clock_resolution: None,
            trace_clock_observations: Vec::new(),
            expected_wav_time_reference_samples: Some(0),
            trace_clock_origin_position_samples: Some(0),
            trace_diagnostics: Some(TraceDiagnostics {
                raw_trace_count: 10,
                expected_frame_count: 10,
                measured_frame_count: 10,
                missing_slots: 0,
                explicit_silence_frame_count: 0,
            }),
            bounce_take: Some(BounceTake {
                source: "expected_wav_duration_native".to_string(),
                time_axis: "native_samples".to_string(),
                alignment_status: "sample_count_ready".to_string(),
                sample_rate: 48_000,
                wav_start_sample: 0,
                wav_end_sample: 48_000,
                duration_samples: 48_000,
                duration_frames_48k: 48_000,
                start_t_ms: 0,
                end_t_ms: 1_000,
                trace_sample_count: 10,
                frame_count: 10,
                host_start_position_samples: None,
                host_end_position_samples: None,
            }),
        },
        expected_wav: Some(expected.clone()),
        integrity_degraded: false,
        integrity_reasons: Vec::new(),
        commit_status: None,
        trace_axis: TraceAxis::WavClock,
        trace_clock: Some(TraceClock {
            basis: "producer_trace_clock".to_string(),
            origin_position_samples: 0,
            end_position_samples: 48_000,
            sample_rate: 48_000,
            sources: vec!["project_timeline".to_string()],
        }),
        trace_clock_basis_canonical: true,
        canonical_wav_reference: true,
        trace_wav_reference: Some(wav_reference(&expected)),
    }
}

/// A 96 kHz, 15 s side on the producer-plus-output-latency lattice, whose first slot sits at
/// `start_sample` of the WAV.
fn latency_mapped_96k_data(start_sample: i64, frame_count: usize) -> RecordFacts {
    let mut data = complete_pair_record(
        Role::Pre,
        "iid-pre-latency-phase",
        None,
        Some("iid-post-latency-phase".to_string()),
    );
    let mut expected = expected_wav(96_000, 1_440_000);
    expected.wav_time_reference_samples = Some(6_480_000);
    data.side.sample_rate = 96_000;
    data.side.frame_count = frame_count as u64;
    data.expected_wav = Some(expected.clone());
    data.commit_status = Some("committed".to_string());
    data.trace.trace_clock_resolution = Some("producer_plus_output_latency".to_string());
    data.trace.expected_wav_time_reference_samples = Some(6_480_000);
    data.trace.trace_slot_positions = (0..frame_count).map(|index| start_sample + index as i64 * 9_600).collect();
    data.trace.frame_t_ms =
        data.trace.trace_slot_positions.iter().map(|position| (*position as u64) * 1_000 / 96_000).collect();
    let output_latency = u32::try_from(start_sample.saturating_sub(9_600)).unwrap();
    data.trace.trace_clock_observations = data
        .trace
        .trace_slot_positions
        .iter()
        .enumerate()
        .map(|(index, wav_slot)| ClockObservation {
            frame_t_ms: (index as u64 + 1) * 100,
            producer_position_samples: Some(6_480_000 + *wav_slot - i64::from(output_latency)),
            output_presentation_latency_samples: Some(output_latency),
        })
        .collect();
    data.trace_wav_reference = Some(wav_reference(&expected));
    data.trace.bounce_take = Some(BounceTake {
        source: "expected_wav_duration_native".to_string(),
        time_axis: "native_samples".to_string(),
        alignment_status: "sample_count_ready".to_string(),
        sample_rate: 96_000,
        wav_start_sample: 0,
        wav_end_sample: 1_440_000,
        duration_samples: 1_440_000,
        duration_frames_48k: 720_000,
        start_t_ms: 0,
        end_t_ms: 15_000,
        trace_sample_count: frame_count as u64 + 4,
        frame_count: frame_count as u64,
        host_start_position_samples: Some(6_459_473),
        host_end_position_samples: Some(7_921_745),
    });
    data.trace.trace_diagnostics = Some(TraceDiagnostics {
        raw_trace_count: frame_count as u64 + 4,
        expected_frame_count: frame_count as u64,
        measured_frame_count: frame_count as u64,
        missing_slots: 0,
        explicit_silence_frame_count: 0,
    });
    data
}

fn remove_frame(data: &mut RecordFacts, index: usize) {
    data.trace.frame_t_ms.remove(index);
    data.trace.trace_slot_positions.remove(index);
    data.side.frame_count -= 1;
}

#[test]
fn matching_frame_count_without_slot_identity_is_never_complete() {
    let mut data = complete_pair_record(Role::Post, "iid-post-count-only", Some("iid-pre-count-only".to_string()), None);
    assert!(trace_slots_are_complete(&data));

    data.trace.trace_slot_positions.clear();
    let quality = refresh_record_quality(&data);

    assert!(!trace_slots_are_complete(&data));
    assert_eq!((quality.complete, quality.trace_slots_complete), (false, false));
}

#[test]
fn latency_mapped_phase_edges_are_complete_without_inventing_a_150th_frame() {
    let mut data = latency_mapped_96k_data(13_874, 149);
    data.trace.trace_clock_observations.push(ClockObservation {
        frame_t_ms: 1,
        producer_position_samples: None,
        output_presentation_latency_samples: None,
    });
    let coverage = latency_mapped_trace_coverage(&data.trace, 1_440_000, 96_000).expect("factual latency-mapped grid");
    assert_eq!(
        coverage,
        LatencyMappedTraceCoverage { expected_frame_count: 149, measured_frame_count: 149, missing_slots: 0 }
    );
    assert!(trace_slot_identity_is_complete(&data));
    let quality = refresh_record_quality(&data);
    assert_eq!(
        (quality.status.as_str(), quality.expected_frame_count, quality.measured_frame_count, quality.missing_trace_slots),
        ("complete", 149, 149, 0)
    );
}

#[test]
fn latency_mapped_grid_keeps_real_head_middle_and_tail_gaps_strict() {
    for missing_index in [0, 74, 148] {
        let mut missing = latency_mapped_96k_data(13_874, 149);
        remove_frame(&mut missing, missing_index);
        let coverage =
            latency_mapped_trace_coverage(&missing.trace, 1_440_000, 96_000).expect("remaining factual mapped slots");
        assert_eq!(coverage.expected_frame_count, 149);
        assert_eq!(coverage.measured_frame_count, 148);
        assert_eq!(coverage.missing_slots, 1);
        assert!(!trace_slot_identity_is_complete(&missing));
    }
}

#[test]
fn latency_epoch_change_does_not_become_a_missing_measurement() {
    let mut data = latency_mapped_96k_data(13_874, 148);
    for index in 1..data.trace.trace_slot_positions.len() {
        data.trace.trace_slot_positions[index] += 6_000;
        data.trace.frame_t_ms[index] = (data.trace.trace_slot_positions[index] as u64) * 1_000 / 96_000;
        data.trace.trace_clock_observations[index].output_presentation_latency_samples = Some(10_274);
    }

    let coverage =
        latency_mapped_trace_coverage(&data.trace, 1_440_000, 96_000).expect("piecewise factual latency mapping");
    assert_eq!(
        coverage,
        LatencyMappedTraceCoverage { expected_frame_count: 148, measured_frame_count: 148, missing_slots: 0 }
    );

    remove_frame(&mut data, 74);
    let missing = latency_mapped_trace_coverage(&data.trace, 1_440_000, 96_000)
        .expect("piecewise mapping with one factual gap");
    assert_eq!(missing.expected_frame_count, 148);
    assert_eq!(missing.measured_frame_count, 147);
    assert_eq!(missing.missing_slots, 1);
}

fn latency_mapped_pair() -> (RecordFacts, RecordFacts) {
    let mut pre = latency_mapped_96k_data(13_874, 149);
    pre.side.instance_id = "iid-pre-latency-phase".to_string();
    pre.side.paired_post_instance_id = Some("iid-post-latency-phase".to_string());
    pre.side.paired_pre_instance_id = None;

    let mut post = latency_mapped_96k_data(9_600, 150);
    post.side.role = Role::Post;
    post.side.instance_id = "iid-post-latency-phase".to_string();
    post.side.paired_pre_instance_id = Some("iid-pre-latency-phase".to_string());
    post.side.paired_post_instance_id = None;
    post.side.project_hash.clone_from(&pre.side.project_hash);
    post.side.record_session_id.clone_from(&pre.side.record_session_id);
    post.expected_wav = pre.expected_wav.clone();
    post.trace_wav_reference = pre.trace_wav_reference.clone();
    (pre, post)
}

#[test]
fn latency_mapped_pair_allows_factual_role_specific_edge_counts() {
    let (pre, post) = latency_mapped_pair();

    assert!(normal_publish_failure_reasons(&pre).is_empty());
    assert!(normal_publish_failure_reasons(&post).is_empty());
    assert!(pair_publish_failure_reasons(&pre, &post).is_empty());
    assert!(pair_publish_integrity_reasons(&pre, &post).is_empty());
}

#[test]
fn the_pair_gate_reads_the_same_in_either_order() {
    let (pre, mut post) = latency_mapped_pair();
    assert!(pair_publish_failure_reasons(&post, &pre).is_empty());
    assert!(pair_visibility_failure_reasons(&post, &pre).is_empty());
    post.side.project_hash = "other".to_string();
    post.side.paired_pre_instance_id = None;
    let forward = pair_publish_failure_reasons(&pre, &post);
    let backward = pair_publish_failure_reasons(&post, &pre);
    assert_eq!(
        forward,
        vec!["missing_paired_pre_instance_id", "pair_project_hash_mismatch", "pair_post_pre_link_mismatch"]
    );
    assert_eq!(forward, backward);
}

#[test]
fn uniform_lattice_pair_must_agree_on_frame_counts() {
    let pre = complete_pair_record(Role::Pre, "iid-pre", None, Some("iid-post".to_string()));
    let mut post = complete_pair_record(Role::Post, "iid-post", Some("iid-pre".to_string()), None);
    assert!(pair_publish_failure_reasons(&pre, &post).is_empty());
    assert!(pair_visibility_failure_reasons(&pre, &post).is_empty());
    if let Some(take) = post.trace.bounce_take.as_mut() {
        take.frame_count = 9;
        take.time_axis = "render".to_string();
    }
    if let Some(diag) = post.trace.trace_diagnostics.as_mut() {
        diag.expected_frame_count = 11;
    }
    assert_eq!(
        pair_publish_consistency_failure_reasons(&pre, &post),
        vec![
            "trace_frame_count_mismatch",
            "trace_expected_frame_count_bounce_take_mismatch",
            "bounce_take_trace_frame_count_mismatch",
            "bounce_take_frame_payload_count_mismatch",
            "pair_bounce_take_time_axis_mismatch",
            "pair_bounce_take_frame_count_mismatch",
            "pair_trace_expected_frame_count_mismatch",
        ]
    );
    assert_eq!(
        pair_publish_integrity_reasons(&pre, &post),
        vec![
            "trace_frame_count_mismatch",
            "trace_expected_frame_count_bounce_take_mismatch",
            "bounce_take_trace_frame_count_mismatch",
            "bounce_take_frame_payload_count_mismatch",
            "pair_bounce_take_time_axis_mismatch",
            "pair_bounce_take_frame_count_mismatch",
            "pair_trace_expected_frame_count_mismatch",
        ]
    );
}

#[test]
fn pairs_need_one_pre_and_one_post() {
    let pre = complete_pair_record(Role::Pre, "iid-pre", None, Some("iid-post".to_string()));
    let other = complete_pair_record(Role::Pre, "iid-post", None, Some("iid-pre".to_string()));
    assert_eq!(pair_publish_failure_reasons(&pre, &other), vec!["pair_roles_not_pre_post"]);
    assert_eq!(pair_visibility_failure_reasons(&pre, &other), vec!["pair_roles_not_pre_post"]);
    assert!(pair_publish_integrity_reasons(&pre, &other).is_empty());
}

#[test]
fn visibility_needs_a_shared_usable_wav_identity() {
    let pre = complete_pair_record(Role::Pre, "iid-pre", None, Some("iid-post".to_string()));
    let mut post = complete_pair_record(Role::Post, "iid-post", Some("iid-pre".to_string()), None);
    post.side.capture_generation_id = Some("gen-2".to_string());
    post.side.generation_started_at_ms = 5;
    post.canonical_wav_reference = false;
    if let Some(e) = post.expected_wav.as_mut() {
        e.usable = false;
    }
    assert_eq!(
        pair_visibility_failure_reasons(&pre, &post),
        vec![
            "pair_capture_generation_mismatch",
            "pair_expected_wav_mismatch",
            "missing_expected_wav_metadata",
            "pair_wav_identity_unavailable",
        ]
    );
    let publish = pair_publish_failure_reasons(&pre, &post);
    assert!(publish.contains(&"pair_generation_start_mismatch"));
    assert!(publish.contains(&"pair_capture_generation_mismatch"));
}
