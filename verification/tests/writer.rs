use kirin_measure::late_expected::LateFrame;
use kirin_measure::path_identity::PathEventSink;
use kirin_measure::path_model::PathModel;
use kirin_measure::plugin_data::{Annotation, AnnotationMark, Role, TraceClock, TraceWavReference, WriterPaths};
use kirin_measure::record_gate::{ExpectedWavFacts, TraceAxis};
use kirin_measure::writer::{CloseOutcome, PluginDataWriter};

const TEST_INSTANCE_ID: &str = "iid-writer-test";

fn model(path: &str) -> PathModel {
    let mut c: Vec<String> = vec!["/".to_string()];
    for part in path.split('/').filter(|p| !p.is_empty()) {
        c.push(part.to_string());
    }
    PathModel::from_components(c)
}

fn sample_writer(role: Role) -> PluginDataWriter {
    let mut sink = PathEventSink::new();
    let paths = WriterPaths::build(
        &mut sink,
        &model("/tmp/kirin_writer"),
        "project_hash_test",
        TEST_INSTANCE_ID,
        role,
        "2026-04-17T14:32:08Z",
    );
    PluginDataWriter::create(
        paths,
        "project_hash_test".to_string(),
        TEST_INSTANCE_ID.to_string(),
        role,
        48_000,
        if role == Role::Post { Some("paired-pre-test".to_string()) } else { None },
        if role == Role::Pre { Some("paired-post-test".to_string()) } else { None },
    )
}

fn mark(id: &str) -> Annotation {
    Annotation {
        t: "2026-07-14T00:00:00Z".to_string(),
        memo: "Good".to_string(),
        mark: Some(AnnotationMark {
            schema_version: "record_mark.v1".to_string(),
            id: id.to_string(),
            basis: "producer_sample_clock".to_string(),
            producer_position_samples: 10,
            clock_source: "project_timeline".to_string(),
            wav_position_samples: None,
        }),
    }
}

#[test]
fn set_integrity_raises_degraded_on_oversized_drop_only() {
    let mut w = sample_writer(Role::Pre);
    assert!(!w.data().facts.integrity_degraded);
    w.set_integrity(0, 7);
    assert!(w.data().facts.integrity_degraded, "an oversized drop degrades the Record");
    assert_eq!(w.data().dropped_samples, 7);
}

#[test]
fn set_integrity_dropped_samples_is_sum_of_both_counters() {
    let mut w = sample_writer(Role::Pre);

    w.set_integrity(0, 0);
    assert_eq!(w.data().dropped_samples, 0);
    assert!(!w.data().facts.integrity_degraded);

    w.set_integrity(5, 11);
    assert_eq!(w.data().dropped_samples, 16, "the sum of both counters");
    assert!(w.data().facts.integrity_degraded);

    w.set_integrity(3, 0);
    assert_eq!(w.data().dropped_samples, 3);
    assert!(w.data().facts.integrity_degraded);
}

#[test]
fn b132_mark_integrity_degraded_ors_on_top_of_set_integrity() {
    let mut w = sample_writer(Role::Pre);
    w.set_integrity(0, 0);
    assert!(!w.data().facts.integrity_degraded, "a clean Record is not degraded");
    w.mark_integrity_degraded();
    assert!(w.data().facts.integrity_degraded, "a drain timeout degrades it");
    assert_eq!(w.data().dropped_samples, 0, "the drop count is untouched");
}

#[test]
fn set_integrity_saturates() {
    let mut w = sample_writer(Role::Post);
    w.set_integrity(u64::MAX, 1);
    assert_eq!(w.data().dropped_samples, u64::MAX);
}

#[test]
fn a_fresh_writer_is_valid_and_empty() {
    let w = sample_writer(Role::Post);
    let d = w.data();
    assert!(d.facts.side.validity);
    assert_eq!(d.facts.side.paired_pre_instance_id.as_deref(), Some("paired-pre-test"));
    assert!(d.facts.side.paired_post_instance_id.is_none());
    assert!(d.frames.is_empty() && d.annotations.is_empty());
    assert_eq!(d.psb_snapshot_t_ms, Some(Vec::new()));
    assert!(!d.closed);
    assert!(!d.timestamp.is_empty());
    assert_eq!(d.heartbeat, d.timestamp);
    assert_eq!(d.bounce_wall_clock_start, d.timestamp);
    assert_eq!(d.bounce_wall_clock_end, d.timestamp);
    assert!(d.chain_memo.is_empty() && d.first_block_hash.is_empty() && d.last_block_hash.is_empty());
    assert!(d.trace_context_frames.is_empty() && d.trace_pair_offset_samples.is_none());
}

#[test]
fn integrity_reasons_and_marks_are_recorded_once() {
    let mut w = sample_writer(Role::Pre);
    w.add_integrity_reason("drain_seal_timeout");
    w.add_integrity_reason("");
    w.add_integrity_reason("drain_seal_timeout");
    assert_eq!(w.data().facts.integrity_reasons, vec!["drain_seal_timeout".to_string()]);
    assert!(w.append_record_mark_if_absent(mark("m-1")));
    assert!(!w.append_record_mark_if_absent(mark("m-1")));
    assert!(!w.append_record_mark_if_absent(Annotation { t: "t".to_string(), memo: "n".to_string(), mark: None }));
    assert!(w.append_record_mark_if_absent(mark("m-2")));
    assert_eq!(w.data().annotations.len(), 2);
}

#[test]
fn the_timeline_is_clipped_to_the_take() {
    let mut w = sample_writer(Role::Pre);
    for t in [100, 200, 300, 400] {
        w.append_frame(LateFrame { t_ms: t, explicit_silence: false });
    }
    w.data.psb_snapshot_t_ms = Some(vec![150, 250, 350]);
    w.clip_timeline_to_duration(250);
    assert_eq!(w.data().facts.trace.frame_t_ms, vec![100, 200]);
    assert_eq!(w.data().facts.side.frame_count, 2);
    assert_eq!(w.data().psb_snapshot_t_ms, Some(vec![150, 250]));
    w.clear_frames();
    assert!(w.data().frames.is_empty());
    assert_eq!(w.data().facts.side.frame_count, 0);
}

#[test]
fn session_and_generation_ids_are_trimmed() {
    let mut w = sample_writer(Role::Pre);
    w.set_record_session_id(Some("  s-1 ".to_string()));
    assert_eq!(w.data().facts.side.record_session_id.as_deref(), Some("s-1"));
    w.set_record_session_id(Some("   ".to_string()));
    assert!(w.data().facts.side.record_session_id.is_none());
    w.set_capture_generation(Some(" g ".to_string()), -5);
    assert_eq!(w.data().facts.side.capture_generation_id.as_deref(), Some("g"));
    assert_eq!(w.data().facts.side.generation_started_at_ms, 0);
}

#[test]
fn an_unusable_expected_wav_drops_the_wav_reference() {
    let mut w = sample_writer(Role::Pre);
    w.set_trace_clock(
        Some(TraceClock {
            basis: "producer".to_string(),
            origin_position_samples: 0,
            end_position_samples: 48_000,
            sample_rate: 48_000,
            sources: vec!["project_timeline".to_string()],
        }),
        true,
    );
    w.set_trace_time_axis(TraceAxis::WavClock);
    w.set_trace_wav_reference(
        Some(TraceWavReference {
            basis: "b".to_string(),
            capture_basis: "c".to_string(),
            start_sample: 0,
            end_sample: 48_000,
            sample_rate: 48_000,
            record_session_id: "s".to_string(),
            bounce_id: "x".to_string(),
            wav_hash: "h".to_string(),
        }),
        true,
    );
    let expected = ExpectedWavFacts {
        usable: false,
        expected_duration_samples: 48_000,
        expected_sample_rate: 48_000,
        wav_time_reference_samples: Some(7),
        wav_path: "/tmp/a.wav".to_string(),
        bounce_id: "x".to_string(),
        created_at_ms: 1,
        wav_file_size: None,
        wav_mtime_ms: 1,
        wav_hash: None,
        consumed_at_ms: None,
        consumed_by_session_id: None,
    };
    w.set_expected_wav(Some(expected.clone()));
    assert!(w.data().facts.expected_wav.is_none());
    assert!(w.data().facts.trace_wav_reference.is_none());
    assert_eq!(w.data().facts.trace_axis, TraceAxis::HostClock);
    let mut usable = expected;
    usable.usable = true;
    w.set_expected_wav(Some(usable));
    assert_eq!(w.data().facts.trace.expected_wav_time_reference_samples, Some(7));
}

#[test]
fn close_sends_a_shown_side_to_pair_pending_and_an_anonymous_one_to_failed() {
    let mut w = sample_writer(Role::Pre);
    w.set_record_session_id(Some("session-close".to_string()));
    w.append_frame(LateFrame { t_ms: 100, explicit_silence: false });
    assert_eq!(w.close_record(), CloseOutcome::PairPending);
    assert!(w.data().closed);
    assert_eq!(w.data().facts.commit_status.as_deref(), Some("pair_pending"));
    assert!(w.data().facts.integrity_degraded, "a Record without a take is degraded at close");
    assert!(w.data().facts.integrity_reasons.contains(&"missing_bounce_take".to_string()));
    assert_eq!(w.data().record_quality.as_ref().map(|q| q.status.as_str()), Some("usable_fallback"));

    let mut anonymous = sample_writer(Role::Post);
    assert_eq!(anonymous.close_record(), CloseOutcome::Failed);
    assert_eq!(anonymous.data().facts.commit_status.as_deref(), Some("failed"));
    assert!(!anonymous.data().facts.side.validity);
    assert!(anonymous.data().facts.integrity_reasons.contains(&"missing_record_session_id".to_string()));
    assert_eq!(anonymous.data().record_quality.as_ref().map(|q| q.status.as_str()), Some("failed"));
}

#[test]
fn append_annotation_records_wallclock_and_memo() {
    let mut w = sample_writer(Role::Pre);
    w.append_annotation("低域が重い".to_string());
    let a = &w.data().annotations[0];
    assert_eq!(a.memo, "低域が重い");
    assert!(!a.t.is_empty());
}

#[test]
fn the_record_start_is_the_provisional_bounce_end() {
    let mut w = sample_writer(Role::Pre);
    w.set_record_start_wall_clock("2026-04-17T14:32:08.000Z".to_string());
    assert_eq!(w.data().bounce_wall_clock_end, "2026-04-17T14:32:08.000Z");
    assert_eq!(w.data().bounce_wall_clock_start, "2026-04-17T14:32:08.000Z");
    assert_eq!(w.data().timestamp, "2026-04-17T14:32:08.000Z");
    assert_eq!(w.data().heartbeat, "2026-04-17T14:32:08.000Z");
    w.set_bounce_end("2026-04-17T14:32:09.000Z".to_string(), 48_000, "hash_last".to_string());
    assert_eq!(w.data().bounce_wall_clock_end, "2026-04-17T14:32:09.000Z");
    assert_eq!(w.data().bounce_marker_duration_samples, 48_000);
    assert_eq!(w.data().timestamp, "2026-04-17T14:32:08.000Z");
}

#[test]
fn bounce_marker_roundtrip() {
    let mut w = sample_writer(Role::Pre);
    w.set_bounce_start("2026-04-17T14:32:08Z".to_string(), "hash_first".into());
    w.set_bounce_end("2026-04-17T14:37:08Z".to_string(), 14_400_000, "hash_last".into());
    assert_eq!(w.data().bounce_wall_clock_start, "2026-04-17T14:32:08Z");
    assert_eq!(w.data().bounce_marker_duration_samples, 14_400_000);
    assert_eq!(w.data().first_block_hash, "hash_first");
    assert_eq!(w.data().last_block_hash, "hash_last");
}

#[test]
fn chain_memo_set_and_persisted() {
    let mut w = sample_writer(Role::Pre);
    w.set_chain_memo("test memo".to_string());
    assert_eq!(w.data().chain_memo, "test memo");
}

#[test]
fn heartbeat_updates_on_demand() {
    let mut w = sample_writer(Role::Pre);
    w.set_record_start_wall_clock("2000-01-01T00:00:00Z".to_string());
    let before = w.data().heartbeat.clone();
    w.heartbeat_now();
    let after = w.data().heartbeat.clone();
    assert_ne!(before, after);
    assert!(!after.is_empty());
    assert_eq!(w.data().timestamp, "2000-01-01T00:00:00Z");
}

#[test]
fn the_provisional_pair_context_is_set_as_a_whole() {
    let mut w = sample_writer(Role::Post);
    w.set_trace_context(vec![LateFrame { t_ms: 100, explicit_silence: false }], vec![4_800]);
    assert_eq!(w.data().trace_context_frames, vec![LateFrame { t_ms: 100, explicit_silence: false }]);
    assert_eq!(w.data().trace_context_slot_positions, vec![4_800]);
    assert!(w.data().trace_content_alignment.is_none());
}
