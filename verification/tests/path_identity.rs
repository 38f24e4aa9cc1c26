use kirin_measure::path_identity::{
    drain_path_events, guard_path_component, is_path_safe_component, is_quarantine_component,
    materialize_observation_id, materialize_restore_field, normalize_observation_cell,
    normalize_restore_cell, quarantine_name, surface_path_event, surface_path_event_for,
    take_path_event, PathEventSink, MAX_COMPONENT_LEN, QUARANTINE_PREFIX,
};

fn safe_components_pass_through_unchanged_body() {
    let mut sink = PathEventSink::new();
    for s in [
        "a1b2c3d4-0000-4000-8000-000000000000",
        "iid-b058-fixed",
        "pre",
        "ph-A",
        "not-a-uuid",
    ] {
        assert!(is_path_safe_component(s), "{s} is safe");
        assert_eq!(guard_path_component(&mut sink, s, "t"), s, "{s} passes the wall");
    }
    assert_eq!(sink.len(), 0);
}

fn unsafe_components_are_quarantined_within_base_body() {
    let mut sink = PathEventSink::new();
    for s in ["/tmp/x", "../../../../tmp/x", "..", "a/b", "a\\b", ".", "", "_q_evil", "x_q_y"] {
        assert!(!is_path_safe_component(s), "{s:?} is unsafe");
        let g = guard_path_component(&mut sink, s, "t");
        assert!(g.starts_with(QUARANTINE_PREFIX), "{s:?} -> quarantine: {g}");
        assert!(
            !g.contains('/') && !g.contains('\\') && g != ".." && !std::path::Path::new(&g).is_absolute(),
            "quarantine name is a single component inside base: {g}"
        );
        assert_eq!(g.len(), QUARANTINE_PREFIX.len() + 16, "canonical length: {g}");
        assert!(g[QUARANTINE_PREFIX.len()..].bytes().all(|b| b.is_ascii_hexdigit()));
    }
}

fn b133_newly_rejected_chars_are_quarantined_body() {
    let mut sink = PathEventSink::new();
    for s in [
        "a\"b", "a<b", "a>b", "a&b", "a;b", "a|b", "a$b", "a b", "a.b", "a_b", "a`b", "a'b",
        "a(b", "a)b", "a#b", "a%b", "a=b", "日本語Snare",
    ] {
        assert!(!is_path_safe_component(s), "{s:?} is unsafe under the allowlist");
        let g = guard_path_component(&mut sink, s, "b133");
        assert!(g.starts_with(QUARANTINE_PREFIX), "{s:?} -> quarantine: {g}");
        assert_eq!(g.len(), QUARANTINE_PREFIX.len() + 16, "canonical length: {g}");
        assert!(
            g[QUARANTINE_PREFIX.len()..].bytes().all(|b| b.is_ascii_hexdigit()),
            "quarantine name is _q_ + 16 hex: {g}"
        );
    }
}

fn b133_legitimate_ids_not_false_rejected_body() {
    let mut sink = PathEventSink::new();
    for _ in 0..32 {
        let uuid = uuid::Uuid::new_v4().to_string();
        assert!(is_path_safe_component(&uuid), "a real UUID is safe: {uuid}");
        assert_eq!(guard_path_component(&mut sink, &uuid, "b133"), uuid);
        assert_eq!(materialize_observation_id(&mut sink, &uuid, "b133"), uuid);
    }
    for s in ["iid-b058-fixed", "pre", "ph-A", "not-a-uuid", "a1b2c3d4-0000-4000-8000-000000000000"] {
        assert!(is_path_safe_component(s), "literal id is safe: {s}");
        assert_eq!(guard_path_component(&mut sink, s, "b133"), s);
    }
    assert_eq!(sink.len(), 0);
}

fn quarantine_is_deterministic_body() {
    assert_eq!(quarantine_name("../../etc"), quarantine_name("../../etc"));
    assert_ne!(quarantine_name("../../etc"), quarantine_name("/tmp/x"));
}

fn materialize_preserves_safe_and_news_up_unsafe_body() {
    let mut sink = PathEventSink::new();
    let m = materialize_observation_id(&mut sink, "", "t");
    assert!(uuid::Uuid::parse_str(&m).is_ok(), "empty -> valid new uuid");
    assert!(drain_path_events(&mut sink).is_empty(), "empty is silent");
    assert_eq!(materialize_observation_id(&mut sink, "iid-b058-fixed", "t"), "iid-b058-fixed");
    assert!(drain_path_events(&mut sink).is_empty(), "safe raises no event");
    let m = materialize_observation_id(&mut sink, "../../../../tmp/x", "t");
    assert!(uuid::Uuid::parse_str(&m).is_ok(), "unsafe -> valid new uuid");
    assert!(!is_quarantine_component(&m), "the observation family gets a clean uuid");
    assert!(!drain_path_events(&mut sink).is_empty(), "unsafe raises an event");
}

fn d4_overlength_and_control_chars_rejected_body() {
    let mut sink = PathEventSink::new();
    assert!(is_path_safe_component("a1b2c3d4-0000-4000-8000-000000000000"));
    assert!(is_path_safe_component(&"a".repeat(MAX_COMPONENT_LEN)));
    let long = "a".repeat(MAX_COMPONENT_LEN + 1);
    assert!(!is_path_safe_component(&long), "overlength is unsafe");
    assert!(guard_path_component(&mut sink, &long, "t").starts_with(QUARANTINE_PREFIX));
    for s in ["a\nb", "a\tb", "a\0b", "\u{7}bell"] {
        assert!(!is_path_safe_component(s), "{s:?} holds a control character");
        assert!(guard_path_component(&mut sink, s, "t").starts_with(QUARANTINE_PREFIX));
    }
}

fn materialize_restore_field_preserves_empty_and_safe_body() {
    let mut sink = PathEventSink::new();
    assert_eq!(materialize_restore_field(&mut sink, "", "t", None), "");
    assert!(drain_path_events(&mut sink).is_empty(), "empty is silent");
    assert_eq!(materialize_restore_field(&mut sink, "iid-b058-fixed", "t", None), "iid-b058-fixed");
    assert!(drain_path_events(&mut sink).is_empty());
    let m = materialize_restore_field(&mut sink, "/tmp/x", "t", None);
    assert!(uuid::Uuid::parse_str(&m).is_ok(), "unsafe -> new_v4: {m}");
    assert!(!drain_path_events(&mut sink).is_empty(), "unsafe raises an event");
}

fn normalize_restore_cell_materializes_unsafe_preserves_safe_empty_body() {
    let mut sink = PathEventSink::new();
    let mut unsafe_cell = "/tmp/x".to_string();
    normalize_restore_cell(&mut sink, &mut unsafe_cell, "t", None);
    assert!(uuid::Uuid::parse_str(&unsafe_cell).is_ok(), "unsafe -> new_v4 written back");
    assert!(!drain_path_events(&mut sink).is_empty(), "event raised");
    let mut safe_cell = "iid-b058-fixed".to_string();
    normalize_restore_cell(&mut sink, &mut safe_cell, "t", None);
    assert_eq!(safe_cell, "iid-b058-fixed");
    let mut empty_cell = String::new();
    normalize_restore_cell(&mut sink, &mut empty_cell, "t", None);
    assert_eq!(empty_cell, "");
    assert!(drain_path_events(&mut sink).is_empty(), "safe/empty raise no event");
}

fn take_path_event_pops_one_body() {
    let mut sink = PathEventSink::new();
    surface_path_event(&mut sink, "e1");
    surface_path_event(&mut sink, "e2");
    assert_eq!(take_path_event(&mut sink, None).as_deref(), Some("e1"));
    assert_eq!(take_path_event(&mut sink, None).as_deref(), Some("e2"));
    assert_eq!(take_path_event(&mut sink, None), None);
}

fn take_path_event_routes_per_instance_body() {
    let mut sink = PathEventSink::new();
    surface_path_event_for(&mut sink, Some("inst-A"), "materialize-A");
    surface_path_event_for(&mut sink, Some("inst-B"), "materialize-B");
    surface_path_event(&mut sink, "wall-global");
    let a1 = take_path_event(&mut sink, Some("inst-A"));
    let a2 = take_path_event(&mut sink, Some("inst-A"));
    let mut a = [a1, a2].into_iter().flatten().collect::<Vec<_>>();
    a.sort();
    assert_eq!(a, vec!["materialize-A".to_string(), "wall-global".to_string()]);
    assert_eq!(take_path_event(&mut sink, Some("inst-B")).as_deref(), Some("materialize-B"));
    assert_eq!(take_path_event(&mut sink, Some("inst-B")), None);
    assert_eq!(take_path_event(&mut sink, None), None);
}

fn normalize_cell_rewrites_only_unsafe_body() {
    let mut sink = PathEventSink::new();
    let mut safe = "iid-b058-fixed".to_string();
    normalize_observation_cell(&mut sink, &mut safe, "t");
    assert_eq!(safe, "iid-b058-fixed", "safe is not rewritten");
    let mut unsafe_cell = "/tmp/x".to_string();
    normalize_observation_cell(&mut sink, &mut unsafe_cell, "t");
    assert!(uuid::Uuid::parse_str(&unsafe_cell).is_ok(), "unsafe -> fresh new_v4: {unsafe_cell}");
    assert!(!drain_path_events(&mut sink).is_empty(), "event raised");
}

#[test]
fn path_identity_safe_components_pass_through_unchanged() {
    safe_components_pass_through_unchanged_body();
}

#[test]
fn path_identity_unsafe_components_are_quarantined_within_base() {
    unsafe_components_are_quarantined_within_base_body();
}

#[test]
fn path_identity_b133_newly_rejected_chars_are_quarantined() {
    b133_newly_rejected_chars_are_quarantined_body();
}

#[test]
fn path_identity_b133_legitimate_ids_not_false_rejected() {
    b133_legitimate_ids_not_false_rejected_body();
}

#[test]
fn path_identity_quarantine_is_deterministic() {
    quarantine_is_deterministic_body();
}

#[test]
fn path_identity_materialize_preserves_safe_and_news_up_unsafe() {
    materialize_preserves_safe_and_news_up_unsafe_body();
}

#[test]
fn path_identity_d4_overlength_and_control_chars_rejected() {
    d4_overlength_and_control_chars_rejected_body();
}

#[test]
fn path_identity_materialize_restore_field_preserves_empty_and_safe() {
    materialize_restore_field_preserves_empty_and_safe_body();
}

#[test]
fn path_identity_normalize_restore_cell_materializes_unsafe_preserves_safe_empty() {
    normalize_restore_cell_materializes_unsafe_preserves_safe_empty_body();
}

#[test]
fn path_identity_take_path_event_pops_one() {
    take_path_event_pops_one_body();
}

#[test]
fn path_identity_take_path_event_routes_per_instance() {
    take_path_event_routes_per_instance_body();
}

#[test]
fn path_identity_normalize_cell_rewrites_only_unsafe() {
    normalize_cell_rewrites_only_unsafe_body();
}

#[test]
fn path_identity_tests_safe_components_pass_through_unchanged() {
    safe_components_pass_through_unchanged_body();
}

#[test]
fn path_identity_tests_unsafe_components_are_quarantined_within_base() {
    unsafe_components_are_quarantined_within_base_body();
}

#[test]
fn path_identity_tests_b133_newly_rejected_chars_are_quarantined() {
    b133_newly_rejected_chars_are_quarantined_body();
}

#[test]
fn path_identity_tests_b133_legitimate_ids_not_false_rejected() {
    b133_legitimate_ids_not_false_rejected_body();
}

#[test]
fn path_identity_tests_quarantine_is_deterministic() {
    quarantine_is_deterministic_body();
}

#[test]
fn path_identity_tests_materialize_preserves_safe_and_news_up_unsafe() {
    materialize_preserves_safe_and_news_up_unsafe_body();
}

#[test]
fn path_identity_tests_d4_overlength_and_control_chars_rejected() {
    d4_overlength_and_control_chars_rejected_body();
}

#[test]
fn path_identity_tests_materialize_restore_field_preserves_empty_and_safe() {
    materialize_restore_field_preserves_empty_and_safe_body();
}

#[test]
fn path_identity_tests_normalize_restore_cell_materializes_unsafe_preserves_safe_empty() {
    normalize_restore_cell_materializes_unsafe_preserves_safe_empty_body();
}

#[test]
fn path_identity_tests_take_path_event_pops_one() {
    take_path_event_pops_one_body();
}

#[test]
fn path_identity_tests_take_path_event_routes_per_instance() {
    take_path_event_routes_per_instance_body();
}

#[test]
fn path_identity_tests_normalize_cell_rewrites_only_unsafe() {
    normalize_cell_rewrites_only_unsafe_body();
}

#[test]
fn quarantine_name_is_marker_and_digest_prefix() {
    assert_eq!(quarantine_name("../../etc"), "_q_74ccf3c5b4c19a81");
    assert_eq!(quarantine_name("/tmp/x"), "_q_2e56aa36f538b33b");
    assert_eq!(quarantine_name(""), "_q_e3b0c44298fc1c14");
}

#[test]
fn guard_records_one_global_event_per_quarantine() {
    let mut sink = PathEventSink::new();
    let _ = guard_path_component(&mut sink, "ok-1", "ctx");
    assert_eq!(sink.len(), 0);
    let _ = guard_path_component(&mut sink, "a/b", "ctx");
    assert_eq!(
        take_path_event(&mut sink, Some("any-instance")).as_deref(),
        Some("invalid-path: path-unsafe component quarantined at ctx (len=3)")
    );
    assert_eq!(sink.len(), 0);
}
