use kirin_measure::path_identity::PathEventSink;
use kirin_measure::path_model::PathModel;
use kirin_measure::plugin_data::{
    bounce_source_is_sample_count_ready, bounce_take_duration_frames_48k, bounce_take_duration_ms,
    checksum_hex, closed_candidate_precedence, compact_wall_clock, compact_wall_clock_from,
    constant_time_eq, dedup_reasons, expected_wav_duration_ms, hmac_key, is_pair_member_path,
    late_expected_is_materialized_quarantine_dir, late_expected_prior_reasons_are_reconcilable,
    late_expected_project_dir_name, late_expected_publish_paths_are_inside_root,
    late_expected_reconcilable_reason, latest_json_name, non_empty_string,
    pair_paths_from_closed_artifact_path, pair_record_session_manifest_path,
    pair_role_dir_from_member_path, path_with_extension, plugin_data_root_from_final_path,
    sibling_tmp_path, trim_text, u128_to_u64_saturating, verify_checksum_bytes,
    writer_paths_from_pair_paths, writer_paths_from_pair_pending_path, BounceTake, Role,
    TraceDiagnostics, WriterPaths,
};
use kirin_measure::plugin_data::{
    choose_pair_shelf_slot, choose_trace_shelf_slot, closed_pair_can_accept_exact_drop,
    pair_annotation_mirror, pair_commit_manifest_path, pair_session_file_name, peer_paths_for,
    self_paths_for, trace_shelf_path_for_offset, trace_shelf_same_record, trace_shelf_stamp,
    AnnotationMirror, PairPathError, RecordIdentity, ShelfStampError, Status,
    TraceShelfSlotState,
};
use kirin_measure::plugin_data::{
    latest_pair_member_for_annotation, MemberPathEscapesBase, PairCommitManifest, PairCommitSide,
};
use std::path::{Path, PathBuf};

fn model(path: &str) -> PathModel {
    let mut c: Vec<String> = Vec::new();
    if path.starts_with('/') {
        c.push("/".to_string());
    }
    for part in path.split('/').filter(|p| !p.is_empty()) {
        c.push(part.to_string());
    }
    PathModel::from_components(c)
}

fn os_path(p: &PathModel) -> PathBuf {
    let mut out = PathBuf::new();
    for c in &p.components {
        out.push(c);
    }
    out
}

fn local_compact(input: &str) -> String {
    chrono::DateTime::parse_from_rfc3339(input)
        .unwrap()
        .with_timezone(&chrono::Local)
        .format("%Y%m%dT%H%M%S")
        .to_string()
}

fn take(duration_samples: u64, sample_rate: u32) -> BounceTake {
    BounceTake {
        source: "render_clock_native".to_string(),
        time_axis: "wav".to_string(),
        alignment_status: "sample_count_ready".to_string(),
        sample_rate,
        wav_start_sample: 0,
        wav_end_sample: duration_samples,
        duration_samples,
        duration_frames_48k: 0,
        start_t_ms: 0,
        end_t_ms: 0,
        trace_sample_count: 0,
        frame_count: 0,
        host_start_position_samples: None,
        host_end_position_samples: None,
    }
}

#[test]
fn role_string_conversion() {
    assert_eq!(Role::Pre.as_str(), "PRE");
    assert_eq!(Role::Post.as_str(), "POST");
    assert_eq!(Role::Pre.dir_name(), "pre");
    assert_eq!(Role::Post.dir_name(), "post");
}

#[test]
fn compact_wall_clock_uses_local_wall_clock_for_rfc3339() {
    assert_eq!(compact_wall_clock("2026-04-17T14:32:08Z"), local_compact("2026-04-17T14:32:08Z"));
    assert_eq!(compact_wall_clock("2026-04-17T14:32:08.123Z"), local_compact("2026-04-17T14:32:08.123Z"));
    assert_eq!(compact_wall_clock("2026-04-17T14:32:08+09:00"), local_compact("2026-04-17T14:32:08+09:00"));
}

#[test]
fn compact_wall_clock_falls_back_to_separator_strip_for_non_rfc3339() {
    assert_eq!(compact_wall_clock("20260417T143208"), "20260417T143208");
}

#[test]
fn compact_wall_clock_fallback_stops_at_the_first_foreign_character() {
    assert_eq!(compact_wall_clock("2026-04-17 14:32:08"), "20260417");
    assert_eq!(compact_wall_clock("2026-04-17T14:32"), "20260417T1432");
    assert_eq!(compact_wall_clock("abc"), "");
    assert_eq!(compact_wall_clock(""), "");
    assert_eq!(compact_wall_clock_from("x", Some("20260101T000000".to_string())), "20260101T000000");
    assert_eq!(compact_wall_clock_from("2026-01-02", None), "20260102");
}

#[test]
fn writer_paths_build_hierarchy() {
    let mut sink = PathEventSink::new();
    let base = model("/tmp/kirin_base");
    let p = WriterPaths::build(&mut sink, &base, "ph", "iid-1", Role::Pre, "2026-04-17T14:32:08Z");
    let compact = local_compact("2026-04-17T14:32:08Z");
    assert_eq!(os_path(&p.final_path), Path::new(&format!("/tmp/kirin_base/ph/iid-1/pre/{compact}.json")));
    assert_eq!(os_path(&p.tmp_path), Path::new(&format!("/tmp/kirin_base/ph/iid-1/pre/{compact}.json.tmp")));
    assert_eq!(
        os_path(&p.staging_path),
        Path::new(&format!("/tmp/kirin_base/ph/iid-1/pre/{compact}.json.partial"))
    );
    assert_eq!(
        os_path(&p.pair_pending_path),
        Path::new(&format!("/tmp/kirin_base/ph/iid-1/pre/.pair_pending/{compact}.json"))
    );
    assert_eq!(
        os_path(&p.failed_path),
        Path::new(&format!("/tmp/kirin_base/ph/iid-1/pre/.failed/{compact}.json"))
    );
    assert_eq!(sink.len(), 0);
}

#[test]
fn writer_paths_quarantine_unsafe_identities_inside_base() {
    let mut sink = PathEventSink::new();
    let base = model("/tmp/kirin_base");
    let p = WriterPaths::build(&mut sink, &base, "../../etc", "iid-1", Role::Post, "20260417T143208");
    assert_eq!(
        os_path(&p.final_path),
        Path::new("/tmp/kirin_base/_q_74ccf3c5b4c19a81/iid-1/post/20260417T143208.json")
    );
    assert!(p.final_path.starts_with(&base));
    assert_eq!(sink.len(), 1);
}

#[test]
fn pending_path_recovers_the_writer_paths() {
    let mut sink = PathEventSink::new();
    let base = model("/tmp/kirin_base");
    let built = WriterPaths::build(&mut sink, &base, "ph", "iid-1", Role::Pre, "20260417T143208");
    let back = writer_paths_from_pair_pending_path(&built.pair_pending_path).unwrap();
    assert_eq!(back.final_path.components, built.final_path.components);
    assert_eq!(back.tmp_path.components, built.tmp_path.components);
    assert_eq!(back.staging_path.components, built.staging_path.components);
    assert_eq!(back.pair_pending_path.components, built.pair_pending_path.components);
    assert_eq!(back.failed_path.components, built.failed_path.components);
    assert!(writer_paths_from_pair_pending_path(&model("x.json")).is_none());
}

#[test]
fn closed_artifact_locations_name_the_same_pair_paths() {
    let role_dir = "/r/ph/iid/pre";
    for p in [
        format!("{role_dir}/a.json"),
        format!("{role_dir}/.pair_pending/a.json"),
        format!("{role_dir}/.failed/a.json"),
        format!("{role_dir}/.pair_committed/a.json"),
    ] {
        let pp = pair_paths_from_closed_artifact_path(&model(&p)).unwrap();
        assert_eq!(os_path(&pp.final_path), Path::new("/r/ph/iid/pre/a.json"));
        assert_eq!(os_path(&pp.member_path), Path::new("/r/ph/iid/pre/.pair_committed/a.json"));
        assert_eq!(os_path(&pp.pair_pending_path), Path::new("/r/ph/iid/pre/.pair_pending/a.json"));
        assert_eq!(os_path(&pp.failed_path), Path::new("/r/ph/iid/pre/.failed/a.json"));
        let w = writer_paths_from_pair_paths(&pp);
        assert_eq!(os_path(&w.tmp_path), Path::new("/r/ph/iid/pre/a.json.tmp"));
        assert_eq!(os_path(&w.staging_path), Path::new("/r/ph/iid/pre/a.json.partial"));
    }
    assert!(pair_paths_from_closed_artifact_path(&PathModel::empty()).is_none());
}

#[test]
fn extension_and_tmp_siblings_follow_std_path_rules() {
    for (input, expected) in [
        ("/a/b.json", "/a/b.json.partial"),
        ("/a/.hidden", "/a/.hidden.json.partial"),
        ("/a/noext", "/a/noext.json.partial"),
        ("/a/x.tar.gz", "/a/x.tar.json.partial"),
    ] {
        let got = path_with_extension(&model(input), "json.partial");
        assert_eq!(os_path(&got), Path::new(input).with_extension("json.partial"));
        assert_eq!(os_path(&got), Path::new(expected));
    }
    for input in ["/a/b.json", "/a/.hidden", "/a/noext", "/a/x.tar.gz"] {
        let got = path_with_extension(&model(input), "");
        assert_eq!(os_path(&got), Path::new(input).with_extension(""));
    }
    assert_eq!(os_path(&path_with_extension(&model("/a/b.json"), "")), Path::new("/a/b"));
    assert_eq!(os_path(&sibling_tmp_path(&model("/a/b.json"))), Path::new("/a/b.json.tmp"));
    assert_eq!(os_path(&sibling_tmp_path(&PathModel::empty())), Path::new(".tmp"));
}

#[test]
fn member_and_candidate_precedence_read_the_parent_directory() {
    assert!(is_pair_member_path(&model("/r/p/i/pre/.pair_committed/a.json")));
    assert!(!is_pair_member_path(&model("/r/p/i/pre/a.json")));
    assert!(!is_pair_member_path(&model("a.json")));
    assert_eq!(closed_candidate_precedence(&model("/r/pre/.failed/a.json")), 1);
    assert_eq!(closed_candidate_precedence(&model("/r/pre/.pair_pending/a.json")), 0);
    assert_eq!(closed_candidate_precedence(&model("a.json")), 0);
}

#[test]
fn roots_and_role_dirs_are_found_by_depth() {
    let root = plugin_data_root_from_final_path(&model("/base/ph/iid/pre/a.json")).unwrap();
    assert_eq!(os_path(&root), Path::new("/base"));
    assert!(plugin_data_root_from_final_path(&model("iid/pre/a.json")).is_none());
    let role = pair_role_dir_from_member_path(&model("/base/ph/iid/pre/.pair_committed/a.json")).unwrap();
    assert_eq!(os_path(&role), Path::new("/base/ph/iid/pre"));
    assert!(pair_role_dir_from_member_path(&model("a.json")).is_none());
}

#[test]
fn late_publish_paths_must_stay_inside_root() {
    let root = model("/base");
    assert!(late_expected_publish_paths_are_inside_root(
        &root,
        &model("/base/ph/a/pre/.pair_pending/x.json"),
        &model("/base/ph/b/post/.failed/x.json"),
    ));
    assert!(!late_expected_publish_paths_are_inside_root(
        &root,
        &model("/base/ph/a/pre/.pair_pending/x.json"),
        &model("/elsewhere/ph/b/post/.failed/x.json"),
    ));
    assert!(!late_expected_publish_paths_are_inside_root(&root, &PathModel::empty(), &model("/base/x.json")));
}

#[test]
fn durations_are_rescaled_and_saturated() {
    assert_eq!(bounce_take_duration_ms(&take(48_000, 48_000)), Some(1_000));
    assert_eq!(bounce_take_duration_ms(&take(44_099, 44_100)), Some(999));
    assert_eq!(bounce_take_duration_ms(&take(10, 0)), None);
    assert_eq!(bounce_take_duration_frames_48k(&take(44_100, 44_100)), Some(48_000));
    assert_eq!(bounce_take_duration_frames_48k(&take(96_000, 96_000)), Some(48_000));
    assert_eq!(bounce_take_duration_frames_48k(&take(1, 0)), None);
    assert_eq!(bounce_take_duration_ms(&take(u64::MAX, 1)), Some(u64::MAX));
    assert_eq!(expected_wav_duration_ms(48_000, 720_000), Some(15_000));
    assert_eq!(expected_wav_duration_ms(0, 720_000), None);
    assert_eq!(u128_to_u64_saturating(5), 5);
    assert_eq!(u128_to_u64_saturating(u64::MAX as u128 + 1), u64::MAX);
}

#[test]
fn trace_diagnostics_default_is_all_zero() {
    let d = TraceDiagnostics::default();
    assert_eq!(
        (d.raw_trace_count, d.expected_frame_count, d.measured_frame_count, d.missing_slots, d.explicit_silence_frame_count),
        (0, 0, 0, 0, 0)
    );
}

#[test]
fn dedup_keeps_first_occurrences_in_order() {
    let out = dedup_reasons(vec!["a", "b", "a", "c", "b"]);
    assert_eq!(out, vec!["a", "b", "c"]);
    assert_eq!(dedup_reasons(out.clone()), out);
    assert!(dedup_reasons(Vec::new()).is_empty());
}

#[test]
fn reconcilable_reasons_are_exactly_the_timing_faults() {
    assert!(late_expected_reconcilable_reason("missing_trace_slots"));
    assert!(late_expected_reconcilable_reason("pair_trace_measured_frame_count_mismatch"));
    assert!(late_expected_reconcilable_reason("validity_false"));
    assert!(!late_expected_reconcilable_reason("lifecycle_shutdown"));
    assert!(!late_expected_reconcilable_reason("checksum_mismatch"));
    assert!(!late_expected_reconcilable_reason(""));
    assert!(late_expected_prior_reasons_are_reconcilable(&vec![
        "lifecycle_shutdown".to_string(),
        "record_too_short".to_string()
    ]));
    assert!(!late_expected_prior_reasons_are_reconcilable(&vec!["oversized_drop".to_string()]));
    assert!(late_expected_prior_reasons_are_reconcilable(&Vec::new()));
}

#[test]
fn sample_count_ready_sources() {
    assert!(bounce_source_is_sample_count_ready("expected_wav_duration_native"));
    assert!(bounce_source_is_sample_count_ready("wav_clock_native"));
    assert!(bounce_source_is_sample_count_ready("render_clock_native"));
    assert!(!bounce_source_is_sample_count_ready("host_clock"));
}

#[test]
fn materialized_quarantine_dirs_are_scanned_as_they_are() {
    assert!(late_expected_is_materialized_quarantine_dir("_q_74ccf3c5b4c19a81"));
    assert!(late_expected_is_materialized_quarantine_dir("_q_74CCF3C5B4C19A81"));
    assert!(!late_expected_is_materialized_quarantine_dir("_q_74ccf3c5b4c19a8"));
    assert!(!late_expected_is_materialized_quarantine_dir("_q_74ccf3c5b4c19a8g"));
    assert!(!late_expected_is_materialized_quarantine_dir("q_74ccf3c5b4c19a81x"));
    let mut sink = PathEventSink::new();
    assert_eq!(late_expected_project_dir_name(&mut sink, "ph-A"), "ph-A");
    assert_eq!(late_expected_project_dir_name(&mut sink, "_q_74ccf3c5b4c19a81"), "_q_74ccf3c5b4c19a81");
    assert_eq!(sink.len(), 0);
    assert_eq!(late_expected_project_dir_name(&mut sink, "../../etc"), "_q_74ccf3c5b4c19a81");
    assert_eq!(sink.len(), 1);
}

#[test]
fn manifest_path_needs_both_identities() {
    let mut sink = PathEventSink::new();
    let root = model("/base");
    let p = pair_record_session_manifest_path(&mut sink, &root, "ph", "sess-1").unwrap();
    assert_eq!(os_path(&p), Path::new("/base/ph/record_sessions/sess-1.json"));
    assert!(pair_record_session_manifest_path(&mut sink, &root, "  ", "sess-1").is_none());
    assert!(pair_record_session_manifest_path(&mut sink, &root, "ph", "\t\n").is_none());
    assert_eq!(sink.len(), 0);
    let q = pair_record_session_manifest_path(&mut sink, &root, "ph", "/tmp/x").unwrap();
    assert_eq!(os_path(&q), Path::new("/base/ph/record_sessions/_q_2e56aa36f538b33b.json"));
    assert_eq!(sink.len(), 1);
}

#[test]
fn latest_json_is_the_greatest_json_name() {
    let names: Vec<String> = ["20260417T143208.json", "20260418T000000.json.tmp", "20260417T150000.json", "notes.txt", ".json"]
        .into_iter()
        .map(str::to_string)
        .collect();
    assert_eq!(latest_json_name(&names), Some(2));
    let none: Vec<String> = vec!["a.txt".to_string(), ".json".to_string()];
    assert_eq!(latest_json_name(&none), None);
    assert_eq!(latest_json_name(&Vec::new()), None);
}

#[test]
fn trimming_follows_unicode_white_space() {
    assert_eq!(trim_text("  a b \t"), "a b");
    assert_eq!(trim_text("\u{3000}x\u{a0}"), "x");
    assert_eq!(trim_text(" \n "), "");
    assert_eq!(non_empty_string(Some("  Vocal ".to_string())), Some("Vocal".to_string()));
    assert_eq!(non_empty_string(Some("   ".to_string())), None);
    assert_eq!(non_empty_string(None), None);
}

#[test]
fn constant_time_equality() {
    assert!(constant_time_eq(b"abc", b"abc"));
    assert!(!constant_time_eq(b"abc", b"abd"));
    assert!(!constant_time_eq(b"abc", b"ab"));
    assert!(constant_time_eq(b"", b""));
}

#[test]
fn checksum_is_the_hmac_hex_of_the_unsigned_bytes() {
    assert_eq!(hmac_key(), b"kirin-hypha-phase1.0-hmac-key-deterrent-level-20260417");
    assert_eq!(checksum_hex(b""), "9dc1f5d663073ace4e2a7d806cbe28406fffdc4781a95fc8a028b491cab6eafe");
    assert_eq!(
        checksum_hex(b"{\"checksum\":\"\"}"),
        "f2aaa8731011d819d307f184d0b4337c8e2acfffdbf535849a4fdb3909ce82c9"
    );
    let json = b"{\"frames\":[1],\"checksum\":\"\"}";
    let sum = checksum_hex(json);
    assert!(verify_checksum_bytes(json, &sum));
    assert!(!verify_checksum_bytes(b"{\"frames\":[2],\"checksum\":\"\"}", &sum));
    assert!(!verify_checksum_bytes(json, &sum.to_uppercase()));
    assert!(!verify_checksum_bytes(json, ""));
}

fn identity(role: Role, instance: &str, session: Option<&str>) -> RecordIdentity {
    RecordIdentity {
        project_hash: "ph".to_string(),
        instance_id: instance.to_string(),
        timestamp: "2026-04-17T14:32:08Z".to_string(),
        role,
        status: Status::Closed,
        paired_pre_instance_id: Some("iid-pre".to_string()),
        paired_post_instance_id: Some("iid-post".to_string()),
        record_session_id: session.map(str::to_string),
        capture_generation_id: None,
        commit_status: Some("pair_pending".to_string()),
    }
}

fn writer_at(final_path: &str) -> WriterPaths {
    let mut sink = PathEventSink::new();
    let built = WriterPaths::build(&mut sink, &model("/base"), "ph", "iid-pre", Role::Pre, "20260417T143208");
    assert_eq!(os_path(&built.final_path), Path::new(final_path));
    built
}

#[test]
fn session_file_names_are_trimmed_and_guarded() {
    let mut sink = PathEventSink::new();
    assert_eq!(pair_session_file_name(&mut sink, &identity(Role::Pre, "iid-pre", Some(" sess-1 "))), Some("sess-1.json".to_string()));
    assert_eq!(pair_session_file_name(&mut sink, &identity(Role::Pre, "iid-pre", Some("  "))), None);
    assert_eq!(pair_session_file_name(&mut sink, &identity(Role::Pre, "iid-pre", None)), None);
    assert_eq!(sink.len(), 0);
    assert_eq!(
        pair_session_file_name(&mut sink, &identity(Role::Pre, "iid-pre", Some("/tmp/x"))),
        Some("_q_2e56aa36f538b33b.json".to_string())
    );
    assert_eq!(sink.len(), 1);
}

#[test]
fn self_and_peer_paths_follow_the_session() {
    let w = writer_at("/base/ph/iid-pre/pre/20260417T143208.json");
    let mut sink = PathEventSink::new();
    let own = self_paths_for(&mut sink, &w, &identity(Role::Pre, "iid-pre", Some("sess-1")));
    assert_eq!(os_path(&own.final_path), Path::new("/base/ph/iid-pre/pre/sess-1.json"));
    assert_eq!(os_path(&own.member_path), Path::new("/base/ph/iid-pre/pre/.pair_committed/sess-1.json"));
    let unsessioned = self_paths_for(&mut sink, &w, &identity(Role::Pre, "iid-pre", None));
    assert_eq!(unsessioned.member_path.components, w.final_path.components);
    let peer = peer_paths_for(&mut sink, &w, &identity(Role::Pre, "iid-pre", Some("sess-1"))).unwrap();
    assert_eq!(os_path(&peer.final_path), Path::new("/base/ph/iid-post/post/sess-1.json"));
    assert_eq!(os_path(&peer.pair_pending_path), Path::new("/base/ph/iid-post/post/.pair_pending/sess-1.json"));
    let mut lone = identity(Role::Pre, "iid-pre", Some("sess-1"));
    lone.paired_post_instance_id = None;
    assert!(peer_paths_for(&mut sink, &w, &lone).is_none());
    assert!(peer_paths_for(&mut sink, &w, &identity(Role::Pre, "iid-pre", None)).is_none());
    assert_eq!(sink.len(), 0);
}

#[test]
fn manifest_path_of_a_pair_session() {
    let w = writer_at("/base/ph/iid-pre/pre/20260417T143208.json");
    let mut sink = PathEventSink::new();
    let p = pair_commit_manifest_path(&mut sink, &w, &identity(Role::Pre, "iid-pre", Some("sess-1"))).unwrap();
    assert_eq!(os_path(&p), Path::new("/base/ph/record_sessions/sess-1.json"));
    assert_eq!(
        pair_commit_manifest_path(&mut sink, &w, &identity(Role::Pre, "iid-pre", None)).unwrap_err(),
        PairPathError::RecordSessionIdMissing
    );
    let mut short = writer_at("/base/ph/iid-pre/pre/20260417T143208.json");
    short.final_path = model("pre/a.json");
    assert_eq!(
        pair_commit_manifest_path(&mut sink, &short, &identity(Role::Pre, "iid-pre", Some("sess-1"))).unwrap_err(),
        PairPathError::RootNotResolvable
    );
}

#[test]
fn same_record_needs_matching_session_and_identity() {
    let a = identity(Role::Pre, "iid-pre", Some("sess-1"));
    let b = identity(Role::Pre, "iid-pre", Some(" sess-1"));
    assert!(trace_shelf_same_record(&a, &b));
    let mut c = identity(Role::Pre, "iid-pre", Some("sess-1"));
    c.capture_generation_id = Some("g1".to_string());
    assert!(trace_shelf_same_record(&a, &c));
    let mut d = identity(Role::Pre, "iid-pre", Some("sess-1"));
    d.capture_generation_id = Some("g2".to_string());
    assert!(!trace_shelf_same_record(&c, &d));
    assert!(!trace_shelf_same_record(&a, &identity(Role::Post, "iid-pre", Some("sess-1"))));
    assert!(!trace_shelf_same_record(&a, &identity(Role::Pre, "iid-pre", Some("  "))));
    assert!(!trace_shelf_same_record(&identity(Role::Pre, "iid-pre", None), &a));
}

#[test]
fn exact_drop_needs_a_closed_cross_linked_pair() {
    let pre = identity(Role::Pre, "iid-pre", Some("sess-1"));
    let post = identity(Role::Post, "iid-post", Some("sess-1"));
    assert!(closed_pair_can_accept_exact_drop(&pre, &post, "sess-1"));
    assert!(!closed_pair_can_accept_exact_drop(&pre, &post, "sess-2"));
    assert!(!closed_pair_can_accept_exact_drop(&post, &pre, "sess-1"));
    let mut committed = identity(Role::Post, "iid-post", Some("sess-1"));
    committed.commit_status = Some("committed".to_string());
    assert!(!closed_pair_can_accept_exact_drop(&pre, &committed, "sess-1"));
    let mut active = identity(Role::Post, "iid-post", Some("sess-1"));
    active.status = Status::Active;
    assert!(!closed_pair_can_accept_exact_drop(&pre, &active, "sess-1"));
    let mut failed = identity(Role::Post, "iid-post", Some("sess-1"));
    failed.commit_status = Some("failed".to_string());
    assert!(closed_pair_can_accept_exact_drop(&pre, &failed, "sess-1"));
}

#[test]
fn shelf_slots_prefer_the_same_record_then_the_first_vacancy() {
    let (occupied, same, vacant) = (TraceShelfSlotState::Occupied, TraceShelfSlotState::SameRecord, TraceShelfSlotState::Vacant);
    assert_eq!(choose_trace_shelf_slot(&vec![occupied, vacant, same, vacant]), Some(2));
    assert_eq!(choose_trace_shelf_slot(&vec![occupied, vacant, vacant]), Some(1));
    assert_eq!(choose_trace_shelf_slot(&vec![occupied, occupied]), None);
    assert_eq!(choose_pair_shelf_slot(&vec![vacant, occupied, same], &vec![occupied, vacant, vacant]), Some(2));
    assert_eq!(choose_pair_shelf_slot(&vec![vacant], &vec![occupied, vacant]), None);
}

#[test]
fn shelf_stamps_shift_by_whole_seconds() {
    assert_eq!(trace_shelf_stamp("20260417T143208", 0), Ok("20260417T143208".to_string()));
    assert_eq!(trace_shelf_stamp("20260417T143208", 60), Ok("20260417T143308".to_string()));
    assert_eq!(trace_shelf_stamp("20261231T235959", 1), Ok("20270101T000000".to_string()));
    assert_eq!(trace_shelf_stamp("", 1), Err(ShelfStampError::TimestampMissing));
    assert_eq!(trace_shelf_stamp("2026", 1), Err(ShelfStampError::CompactNotParsed));
    let p = trace_shelf_path_for_offset(&model("/base/ph/iid/pre"), "20260417T143208", 2).unwrap();
    assert_eq!(os_path(&p), Path::new("/base/ph/iid/pre/20260417T143210.json"));
}

#[test]
fn shelf_stamps_refuse_offsets_beyond_the_calendar_without_panicking() {
    assert_eq!(trace_shelf_stamp("20260417T143208", i64::MAX), Err(ShelfStampError::CompactNotParsed));
    assert_eq!(trace_shelf_stamp("20260417T143208", i64::MIN), Err(ShelfStampError::CompactNotParsed));
    assert_eq!(trace_shelf_stamp("20260417T143208", i64::MAX / 1000 + 1), Err(ShelfStampError::CompactNotParsed));
    assert_eq!(trace_shelf_stamp("20260417T143208", -60), Ok("20260417T143108".to_string()));
    assert!(matches!(
        trace_shelf_path_for_offset(&model("/base/ph/iid/pre"), "20260417T143208", i64::MAX),
        Err(ShelfStampError::CompactNotParsed)
    ));
}

#[test]
fn rfc3339_wall_clocks_compact_to_plain_file_stems() {
    for iso in ["2026-04-17T14:32:08Z", "0000-01-01T00:00:00Z", "9999-12-31T23:59:59Z", "2026-04-17T14:32:08.5-11:00"] {
        let c = compact_wall_clock(iso);
        assert!(!c.is_empty());
        assert!(c.chars().all(|ch| ch.is_ascii_digit() || ch == 'T' || ch == '+' || ch == '-'), "{c}");
        let mut sink = PathEventSink::new();
        let p = WriterPaths::build(&mut sink, &model("/b"), "ph", "iid", Role::Post, iso);
        assert_eq!(os_path(&p.final_path), Path::new(&format!("/b/ph/iid/post/{c}.json")));
    }
}

#[test]
fn annotation_mirrors_between_member_and_shelf() {
    let mut sink = PathEventSink::new();
    let mut id = identity(Role::Pre, "iid-pre", Some("sess-1"));
    id.commit_status = Some("committed".to_string());
    match pair_annotation_mirror(&mut sink, &model("/base/ph/iid-pre/pre/20260417T143208.json"), &id) {
        AnnotationMirror::Member(m) => assert_eq!(os_path(&m), Path::new("/base/ph/iid-pre/pre/.pair_committed/sess-1.json")),
        _ => panic!("public file mirrors onto its member"),
    }
    assert!(matches!(
        pair_annotation_mirror(&mut sink, &model("/base/ph/iid-pre/pre/.pair_committed/sess-1.json"), &id),
        AnnotationMirror::ShelfOfMember
    ));
    let pending = identity(Role::Pre, "iid-pre", Some("sess-1"));
    assert!(matches!(pair_annotation_mirror(&mut sink, &model("/base/a.json"), &pending), AnnotationMirror::NoMirror));
    assert_eq!(sink.len(), 0);
}

fn manifest(file: &str, committed_at: &str, project: &str, pre_path: &str) -> PairCommitManifest {
    PairCommitManifest {
        file_name: file.to_string(),
        schema_version: "pair_record_session.v1".to_string(),
        session_id: "s".to_string(),
        project_hash: project.to_string(),
        committed_at: committed_at.to_string(),
        pre: PairCommitSide {
            instance_id: "iid-pre".to_string(),
            role: "PRE".to_string(),
            path: model(pre_path),
            checksum: String::new(),
        },
        post: PairCommitSide {
            instance_id: "iid-post".to_string(),
            role: "POST".to_string(),
            path: model("/base/ph/iid-post/post/.pair_committed/x.json"),
            checksum: String::new(),
        },
    }
}

#[test]
fn annotation_falls_back_to_the_latest_committed_member() {
    let mut sink = PathEventSink::new();
    let base = model("/base");
    let ms = vec![
        manifest("a.json", "2026-04-17T10:00:00Z", "ph", "/base/ph/iid-pre/pre/.pair_committed/a.json"),
        manifest("b.json", "2026-04-17T11:00:00Z", "ph", "/base/ph/iid-pre/pre/.pair_committed/b.json"),
        manifest("c.json", "2026-04-17T12:00:00Z", "other", "/base/other/iid-pre/pre/.pair_committed/c.json"),
    ];
    let got = latest_pair_member_for_annotation(&mut sink, &base, "ph", "iid-pre", Role::Pre, &ms).unwrap().unwrap();
    assert_eq!(os_path(&got), Path::new("/base/ph/iid-pre/pre/.pair_committed/b.json"));
    assert!(latest_pair_member_for_annotation(&mut sink, &base, "ph", "iid-else", Role::Pre, &ms).unwrap().is_none());
    let escaping = vec![manifest("e.json", "2026-04-17T10:00:00Z", "ph", "/elsewhere/e.json")];
    assert_eq!(
        latest_pair_member_for_annotation(&mut sink, &base, "ph", "iid-pre", Role::Pre, &escaping).unwrap_err(),
        MemberPathEscapesBase
    );
    assert_eq!(sink.len(), 0);
}
