use kirin_measure::drop_reconcile::drop_reconcile_candidates;
use kirin_measure::path_identity::PathEventSink;
use kirin_measure::path_model::PathModel;

fn model(path: &str) -> PathModel {
    let mut c: Vec<String> = vec!["/".to_string()];
    for part in path.split('/').filter(|p| !p.is_empty()) {
        c.push(part.to_string());
    }
    PathModel::from_components(c)
}

fn text(p: &PathModel) -> String {
    p.components[1..].join("/")
}

#[test]
fn stopped_pair_candidates_are_the_failed_then_pending_files() {
    let mut sink = PathEventSink::new();
    let c = drop_reconcile_candidates(&mut sink, &model("/root"), "ph", "session-1", "iid-pre", "iid-post").unwrap();
    assert_eq!(text(&c.pre_failed), "root/ph/iid-pre/pre/.failed/session-1.json");
    assert_eq!(text(&c.pre_pending), "root/ph/iid-pre/pre/.pair_pending/session-1.json");
    assert_eq!(text(&c.post_failed), "root/ph/iid-post/post/.failed/session-1.json");
    assert_eq!(text(&c.post_pending), "root/ph/iid-post/post/.pair_pending/session-1.json");
    assert_eq!(sink.len(), 0);
}

#[test]
fn blank_identities_name_no_candidate() {
    let mut sink = PathEventSink::new();
    assert!(drop_reconcile_candidates(&mut sink, &model("/root"), "ph", "  ", "iid-pre", "iid-post").is_none());
    assert!(drop_reconcile_candidates(&mut sink, &model("/root"), "", "s", "iid-pre", "iid-post").is_none());
    assert_eq!(sink.len(), 0);
}

#[test]
fn unsafe_identities_are_quarantined_inside_the_root() {
    let mut sink = PathEventSink::new();
    let c = drop_reconcile_candidates(&mut sink, &model("/root"), "../../etc", "s/1", "iid-pre", "iid-post").unwrap();
    assert_eq!(c.pre_failed.components.len(), 7);
    assert!(c.pre_failed.components[2].starts_with("_q_"));
    assert!(c.pre_failed.components[6].starts_with("_q_") && c.pre_failed.components[6].ends_with(".json"));
    assert!(c.post_pending.starts_with(&model("/root")));
    assert_eq!(sink.len(), 2);
}
