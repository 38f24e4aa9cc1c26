use chrono::Utc;
use kirin_measure::clock::parse_rfc3339_instant;
use kirin_measure::pairing_scope::{
    candidate_project_dir,
    discover_pre_dirs_for_post_project, enumerate_active_pre_pair_candidates_for_post_project,
    enumerate_active_pre_pair_candidates_for_post_project_in_session,
    enumerate_live_pre_pair_choices_for_post_project_in_session, latch_selected_pre, read_pre_at,
    resolve_arm_target, resolve_arm_target_for_post_project_in_session,
    resolve_published_pair_claim_for_arm,
    select_live_pre_pair_choice_by_instance_for_post_project_in_session, select_target_pre,
    select_target_pre_for_arm, select_target_pre_for_arm_for_post_project,
    select_target_pre_for_arm_for_post_project_in_session, select_target_pre_for_post_project,
    select_target_pre_for_post_project_in_session, LatchedPre, LatchedPreReadiness, PairingScope,
    PostCandidate, PreCandidate,
};
use kirin_measure::path_model::PathModel;

fn root() -> PathModel {
    PathModel::from_components(vec!["tmp".to_string(), "kirin_pairing_scope_test".to_string()])
}

fn join(base: &PathModel, parts: &[&str]) -> PathModel {
    let mut c = base.components.clone();
    for p in parts {
        c.push(p.to_string());
    }
    PathModel::from_components(c)
}

fn now_rfc3339() -> String {
    Utc::now().format("%Y-%m-%dT%H:%M:%SZ").to_string()
}

fn old_rfc3339(secs_ago: i64) -> String {
    (Utc::now() - chrono::Duration::seconds(secs_ago)).format("%Y-%m-%dT%H:%M:%SZ").to_string()
}

/// The DAW host process the tests run the POST in.
fn current_host() -> u32 {
    4242
}

fn other_host_process_id() -> u32 {
    let current = current_host();
    if current == u32::MAX {
        current - 1
    } else {
        current + 1
    }
}

struct Shelves {
    pres: Vec<PreCandidate>,
    posts: Vec<PostCandidate>,
}

impl Shelves {
    fn new() -> Self {
        Shelves { pres: Vec::new(), posts: Vec::new() }
    }

    fn pre(&mut self, project: &str, instance: &str, name: &str, state: &str, t: &str) {
        self.pre_with_identity(project, instance, name, state, t, None, None);
    }

    fn pre_with_host(&mut self, project: &str, instance: &str, name: &str, state: &str, t: &str, host: Option<u32>) {
        self.pre_with_identity(project, instance, name, state, t, host, None);
    }

    #[allow(clippy::too_many_arguments)]
    fn pre_with_identity(
        &mut self,
        project: &str,
        instance: &str,
        name: &str,
        state: &str,
        t: &str,
        host: Option<u32>,
        daw: Option<&str>,
    ) {
        self.pres.retain(|c| !(c.project_hash == project && c.instance_id == instance));
        self.pres.push(PreCandidate {
            project_hash: project.to_string(),
            instance_id: instance.to_string(),
            name: Some(name.to_string()),
            signal_state: Some(state.to_string()),
            t_unix: parse_rfc3339_instant(t),
            daw_session_id: daw.map(str::to_string),
            host_process_id: host,
            has_live_owner: false,
            has_released_owner: false,
        });
    }

    fn live_owner(&mut self, project: &str, instance: &str) {
        for c in self.pres.iter_mut() {
            if c.project_hash == project && c.instance_id == instance {
                c.has_live_owner = true;
            }
        }
    }

    fn release_owner(&mut self, project: &str, instance: &str) {
        for c in self.pres.iter_mut() {
            if c.project_hash == project && c.instance_id == instance {
                c.has_live_owner = false;
                c.has_released_owner = true;
            }
        }
    }

    fn post(&mut self, project: &str, instance: &str, pair_pre_name: &str) {
        self.post_with_identity(project, instance, pair_pre_name, None, None);
    }

    fn post_with_host(&mut self, project: &str, instance: &str, pair_pre_name: &str, host: Option<u32>) {
        self.post_with_identity(project, instance, pair_pre_name, host, None);
    }

    fn post_with_identity(
        &mut self,
        project: &str,
        instance: &str,
        pair_pre_name: &str,
        host: Option<u32>,
        daw: Option<&str>,
    ) {
        self.posts.push(PostCandidate {
            project_hash: project.to_string(),
            instance_id: instance.to_string(),
            pair_pre_name: Some(pair_pre_name.to_string()),
            t_unix: parse_rfc3339_instant(&now_rfc3339()),
            daw_session_id: daw.map(str::to_string),
            host_process_id: host,
        });
    }

    fn copy_pre(c: &PreCandidate) -> PreCandidate {
        PreCandidate {
            project_hash: c.project_hash.clone(),
            instance_id: c.instance_id.clone(),
            name: c.name.clone(),
            signal_state: c.signal_state.clone(),
            t_unix: c.t_unix,
            daw_session_id: c.daw_session_id.clone(),
            host_process_id: c.host_process_id,
            has_live_owner: c.has_live_owner,
            has_released_owner: c.has_released_owner,
        }
    }

    fn scope(&self) -> PairingScope {
        let mut s = PairingScope::new(root(), current_host());
        for c in &self.pres {
            s.add_pre(Self::copy_pre(c));
        }
        for p in &self.posts {
            s.add_post(PostCandidate {
                project_hash: p.project_hash.clone(),
                instance_id: p.instance_id.clone(),
                pair_pre_name: p.pair_pre_name.clone(),
                t_unix: p.t_unix,
                daw_session_id: p.daw_session_id.clone(),
                host_process_id: p.host_process_id,
            });
        }
        s
    }
}

fn latch(name: &str, instance: &str, project_dir: &[&str], daw: Option<&str>) -> Option<LatchedPre> {
    let project = join(&root(), project_dir);
    let mut pre_json_parts: Vec<&str> = project_dir.to_vec();
    pre_json_parts.push(instance);
    pre_json_parts.push("pre.json");
    Some(LatchedPre {
        name: name.to_string(),
        instance_id: instance.to_string(),
        project_dir: project,
        pre_json: join(&root(), &pre_json_parts),
        daw_session_id: daw.map(str::to_string),
        host_process_id: None,
        readiness: LatchedPreReadiness::Confirmed,
    })
}

#[test]
fn select_target_pre_unique_active_fresh_returns_some() {
    let mut sh = Shelves::new();
    sh.pre("puid-1", "iid-A", "snare", "active", &now_rfc3339());
    let sel = select_target_pre(&sh.scope(), "snare").expect("unique active fresh -> Some");
    assert_eq!(sel.instance_id, "iid-A");
    assert_eq!(sel.pre_json.components.last().map(String::as_str), Some("pre.json"));
}

#[test]
fn select_target_pre_ambiguous_same_name_returns_none() {
    let mut sh = Shelves::new();
    let now = now_rfc3339();
    sh.pre("puid-1", "iid-A", "snare", "active", &now);
    sh.pre("puid-2", "iid-B", "snare", "active", &now);
    assert!(select_target_pre(&sh.scope(), "snare").is_none());
}

#[test]
fn select_target_pre_empty_name_returns_none() {
    let mut sh = Shelves::new();
    sh.pre("puid-1", "iid-A", "snare", "active", &now_rfc3339());
    assert!(select_target_pre(&sh.scope(), "").is_none());
}

#[test]
fn select_target_pre_inactive_excluded() {
    let mut sh = Shelves::new();
    sh.pre("puid-1", "iid-A", "snare", "inactive", &now_rfc3339());
    assert!(select_target_pre(&sh.scope(), "snare").is_none());
}

#[test]
fn select_target_pre_stale_t_excluded() {
    let mut sh = Shelves::new();
    sh.pre("puid-1", "iid-A", "snare", "active", &old_rfc3339(20));
    assert!(select_target_pre(&sh.scope(), "snare").is_none());
}

#[test]
fn select_target_pre_display_equals_commit() {
    let mut sh = Shelves::new();
    let now = now_rfc3339();
    sh.pre("puid-1", "iid-snare", "snare", "active", &now);
    sh.pre("puid-2", "iid-kick", "kick", "active", &now);
    let s = sh.scope();
    assert_eq!(select_target_pre(&s, "snare").unwrap().instance_id, "iid-snare");
    assert_eq!(select_target_pre(&s, "kick").unwrap().instance_id, "iid-kick");
    assert!(select_target_pre(&s, "vocal").is_none());
}

#[test]
fn enumerate_active_pre_pair_candidates_for_post_project_lists_all_fresh_pre_dirs() {
    let mut sh = Shelves::new();
    let now = now_rfc3339();
    sh.pre("pre-old", "iid-old-snare", "Snare", "inactive", &now);
    sh.pre("pre-old", "iid-old-kick", "Kick", "inactive", &now);
    sh.pre("pre-current", "iid-current-vocal", "Vocal", "inactive", &now);
    sh.pre("pre-current", "iid-current-bass", "Bass", "inactive", &now);
    sh.post("post-current", "post-vocal", "Vocal");
    sh.post("post-current", "post-bass", "Bass");

    let v = enumerate_active_pre_pair_candidates_for_post_project(&sh.scope(), "post-current");
    let ids: Vec<&str> = v.iter().map(|c| c.instance_id.as_str()).collect();
    assert_eq!(ids, vec!["iid-current-bass", "iid-current-vocal", "iid-old-kick", "iid-old-snare"]);
}

#[test]
fn post_project_with_existing_drum_still_lists_and_selects_second_mix() {
    let mut sh = Shelves::new();
    let now = now_rfc3339();
    sh.pre_with_identity("pre-drum", "iid-drum", "Drum", "inactive", &now, None, Some("daw-current"));
    sh.pre_with_identity("pre-mix", "iid-mix", "Mix", "inactive", &now, None, Some("daw-current"));
    sh.post("post-current", "post-drum", "Drum");
    let s = sh.scope();

    let v = enumerate_active_pre_pair_candidates_for_post_project_in_session(&s, "post-current", "daw-current");
    let names: Vec<&str> = v.iter().filter_map(|c| c.name.as_deref()).collect();
    assert!(names.contains(&"Mix"));

    let sel = select_target_pre_for_arm_for_post_project_in_session(&s, "Mix", "post-current", "daw-current")
        .expect("unique Mix should remain armable when Drum is already paired");
    assert_eq!(sel.instance_id, "iid-mix");
}

#[test]
fn select_target_pre_for_arm_for_post_project_avoids_other_session_same_name() {
    let mut sh = Shelves::new();
    let now = now_rfc3339();
    sh.pre_with_identity("pre-old", "iid-old-vocal", "Vocal", "inactive", &now, None, Some("daw-old"));
    sh.pre_with_identity("pre-current", "iid-current-vocal", "Vocal", "inactive", &now, None, Some("daw-current"));
    sh.pre_with_identity("pre-current", "iid-current-bass", "Bass", "inactive", &now, None, Some("daw-current"));
    sh.post("post-current", "post-vocal", "Vocal");
    sh.post("post-current", "post-bass", "Bass");
    let s = sh.scope();

    assert!(select_target_pre_for_arm(&s, "Vocal").is_none());
    let sel = select_target_pre_for_arm_for_post_project_in_session(&s, "Vocal", "post-current", "daw-current")
        .expect("scoped Arm should choose the current session Vocal");
    assert_eq!(sel.instance_id, "iid-current-vocal");
}

#[test]
fn select_target_pre_for_arm_for_post_project_prefers_matching_daw_when_names_are_identical() {
    let mut sh = Shelves::new();
    let now = now_rfc3339();
    sh.pre_with_identity("pre-old", "iid-old-vocal", "Vocal", "inactive", &now, None, Some("daw-old"));
    sh.pre_with_identity("pre-current", "iid-current-vocal", "Vocal", "inactive", &now, None, Some("daw-current"));
    sh.post("post-current", "post-vocal", "Vocal");
    let s = sh.scope();

    assert!(select_target_pre_for_arm(&s, "Vocal").is_none());
    let sel = select_target_pre_for_arm_for_post_project_in_session(&s, "Vocal", "post-current", "daw-current")
        .expect("matching DAW session should win when an older open document has the same PRE name");
    assert_eq!(sel.instance_id, "iid-current-vocal");
}

#[test]
fn select_target_pre_for_post_project_prefers_matching_daw_when_names_are_identical() {
    let mut sh = Shelves::new();
    let now = now_rfc3339();
    sh.pre_with_identity("pre-old", "iid-old-vocal", "Vocal", "active", &now, None, Some("daw-old"));
    sh.pre_with_identity("pre-current", "iid-current-vocal", "Vocal", "active", &now, None, Some("daw-current"));
    sh.post("post-current", "post-vocal", "Vocal");
    let s = sh.scope();

    assert!(select_target_pre_for_post_project(&s, "Vocal", "post-current").is_none());
    let sel = select_target_pre_for_post_project_in_session(&s, "Vocal", "post-current", "daw-current")
        .expect("display selection should prefer the matching DAW session");
    assert_eq!(sel.instance_id, "iid-current-vocal");
}

#[test]
fn resolve_arm_target_for_post_project_rejects_foreign_latch_without_same_daw_identity() {
    let sh = Shelves::new();
    let mut latched = latch("snare", "iid-A", &["old-pre-project"], None);
    assert!(
        resolve_arm_target_for_post_project_in_session(&sh.scope(), "snare", "post-current", "daw-current", &mut latched)
            .is_none(),
        "project switch must not keep a foreign latch when no matching daw_session_id exists"
    );
}

#[test]
fn resolve_arm_target_for_post_project_rejects_same_project_latch_with_foreign_daw_identity() {
    let sh = Shelves::new();
    let mut latched = latch("snare", "iid-A", &["post-current"], Some("daw-old"));
    assert!(
        resolve_arm_target_for_post_project_in_session(&sh.scope(), "snare", "post-current", "daw-current", &mut latched)
            .is_none(),
        "same project_hash must not keep a latched PRE from a different explicit daw_session_id"
    );
}

#[test]
fn select_target_pre_for_arm_for_post_project_tie_remains_ambiguous() {
    let mut sh = Shelves::new();
    let now = now_rfc3339();
    sh.pre("pre-a", "iid-a-vocal", "Vocal", "inactive", &now);
    sh.pre("pre-a", "iid-a-bass", "Bass", "inactive", &now);
    sh.pre("pre-b", "iid-b-vocal", "Vocal", "inactive", &now);
    sh.pre("pre-b", "iid-b-bass", "Bass", "inactive", &now);
    sh.post("post-current", "post-vocal", "Vocal");
    sh.post("post-current", "post-bass", "Bass");
    assert!(select_target_pre_for_arm_for_post_project(&sh.scope(), "Vocal", "post-current").is_none());
}

#[test]
fn discover_pre_dirs_for_post_project_does_not_fallback_when_names_disagree() {
    let mut sh = Shelves::new();
    let now = now_rfc3339();
    sh.pre("pre-old", "iid-old-snare", "Snare", "inactive", &now);
    sh.post("post-current", "post-vocal", "Vocal");
    assert!(discover_pre_dirs_for_post_project(&sh.scope(), "post-current").is_empty());
}

#[test]
fn select_target_pre_for_arm_inactive_fresh_returns_some() {
    let mut sh = Shelves::new();
    sh.pre("puid-1", "iid-A", "snare", "inactive", &now_rfc3339());
    let s = sh.scope();
    assert!(select_target_pre(&s, "snare").is_none());
    let sel = select_target_pre_for_arm(&s, "snare").expect("Arm allows inactive fresh PRE");
    assert_eq!(sel.instance_id, "iid-A");
}

#[test]
fn read_pre_at_fresh_active() {
    let mut sh = Shelves::new();
    sh.pre("puid-1", "iid-A", "snare", "active", &now_rfc3339());
    let path = join(&root(), &["puid-1", "iid-A", "pre.json"]);
    let state = read_pre_at(&sh.scope(), &path).expect("fresh active -> Some");
    assert_eq!(state.name.as_deref(), Some("snare"));
    assert!(state.active && state.fresh);
}

#[test]
fn read_pre_at_idle_stale_gone() {
    let path = join(&root(), &["puid-1", "iid-A", "pre.json"]);
    let mut sh = Shelves::new();
    sh.pre("puid-1", "iid-A", "snare", "inactive", &now_rfc3339());
    let state = read_pre_at(&sh.scope(), &path).unwrap();
    assert!(!state.active && state.fresh);

    sh.pre("puid-1", "iid-A", "snare", "active", &old_rfc3339(20));
    assert!(!read_pre_at(&sh.scope(), &path).unwrap().fresh);

    let gone = Shelves::new();
    assert!(read_pre_at(&gone.scope(), &path).is_none());
}

#[test]
fn resolve_arm_target_uses_latch_over_ambiguous() {
    let mut sh = Shelves::new();
    let now = now_rfc3339();
    sh.pre("puid-1", "iid-A", "snare", "active", &now);
    let mut latched = latch("snare", "iid-A", &["puid-1"], None);
    sh.pre("puid-2", "iid-B", "snare", "active", &now);
    let s = sh.scope();

    assert!(select_target_pre_for_arm(&s, "snare").is_none());
    let sel = resolve_arm_target(&s, "snare", &mut latched).expect("latched target wins");
    assert_eq!(sel.instance_id, "iid-A");
}

#[test]
fn resolve_arm_target_uses_latch_even_when_pre_json_is_stale() {
    let mut sh = Shelves::new();
    sh.pre("puid-1", "iid-A", "snare", "active", &old_rfc3339(20));
    let mut latched = latch("snare", "iid-A", &["puid-1"], None);
    let s = sh.scope();

    assert!(select_target_pre_for_arm(&s, "snare").is_none());
    let sel = resolve_arm_target(&s, "snare", &mut latched).expect("latched target wins");
    assert_eq!(sel.instance_id, "iid-A");
}

#[test]
fn resolve_arm_target_uses_latch_even_when_pre_json_is_missing() {
    let sh = Shelves::new();
    let mut latched = latch("snare", "iid-A", &["puid-1"], None);
    let sel = resolve_arm_target(&sh.scope(), "snare", &mut latched).expect("latched target wins");
    assert_eq!(sel.instance_id, "iid-A");
}

#[test]
fn resolve_arm_target_for_post_project_uses_latch_even_when_project_dir_not_discovered() {
    let sh = Shelves::new();
    let mut latched = latch("snare", "iid-A", &["old-pre-project"], Some("daw-current"));
    let sel = resolve_arm_target_for_post_project_in_session(&sh.scope(), "snare", "post-current", "daw-current", &mut latched)
        .expect("same-daw foreign latch wins");
    assert_eq!(sel.instance_id, "iid-A");
}

#[test]
fn resolve_arm_target_falls_back_when_unlatched() {
    let mut sh = Shelves::new();
    sh.pre("puid-1", "iid-A", "snare", "active", &now_rfc3339());
    let mut latched: Option<LatchedPre> = None;
    let sel = resolve_arm_target(&sh.scope(), "snare", &mut latched).expect("unlatched fallback");
    assert_eq!(sel.instance_id, "iid-A");
}

#[test]
fn select_target_pre_for_arm_bypassed_excluded() {
    let mut sh = Shelves::new();
    sh.pre("puid-1", "iid-A", "snare", "bypassed", &now_rfc3339());
    assert!(select_target_pre_for_arm(&sh.scope(), "snare").is_none());
}

#[test]
fn select_target_pre_for_arm_stale_t_excluded() {
    let mut sh = Shelves::new();
    sh.pre("puid-1", "iid-A", "snare", "inactive", &old_rfc3339(20));
    assert!(select_target_pre_for_arm(&sh.scope(), "snare").is_none());
}

#[test]
fn select_target_pre_for_arm_ambiguous_returns_none() {
    let mut sh = Shelves::new();
    let now = now_rfc3339();
    sh.pre("puid-1", "iid-A", "snare", "inactive", &now);
    sh.pre("puid-2", "iid-B", "snare", "inactive", &now);
    assert!(select_target_pre_for_arm(&sh.scope(), "snare").is_none());
}

#[test]
fn select_target_pre_for_arm_empty_name_returns_none() {
    let mut sh = Shelves::new();
    sh.pre("puid-1", "iid-A", "snare", "inactive", &now_rfc3339());
    assert!(select_target_pre_for_arm(&sh.scope(), "").is_none());
}

// ── Host and DAW scope scenarios ────────────────────────────────────────────

#[test]
fn enumerate_in_session_hides_foreign_daw_when_other_post_project_is_active() {
    let mut sh = Shelves::new();
    let now = now_rfc3339();
    let host = current_host();
    sh.pre_with_identity("pre-old", "iid-old-mix", "Mix", "inactive", &now, Some(host), Some("daw-old"));
    sh.pre_with_identity("post-current", "iid-current-mix", "Mix", "inactive", &now, Some(host), Some("daw-current"));
    sh.post_with_identity("post-current", "post-current", "Mix", Some(host), Some("daw-current"));
    sh.post_with_identity("post-old", "post-old", "Mix", Some(host), Some("daw-old"));
    let v = enumerate_active_pre_pair_candidates_for_post_project_in_session(&sh.scope(), "post-current", "daw-current");
    let ids: Vec<&str> = v.iter().map(|c| c.instance_id.as_str()).collect();
    assert_eq!(ids, vec!["iid-current-mix"]);
}

#[test]
fn enumerate_in_session_merges_exact_daw_and_single_shelf_host_fallback() {
    let mut sh = Shelves::new();
    let now = now_rfc3339();
    let host = current_host();
    sh.pre_with_identity("pre-2mix", "iid-2mix", "2Mix", "inactive", &now, Some(host), Some("daw-current"));
    sh.pre_with_identity("pre-drum", "iid-drum", "Drum", "inactive", &now, Some(host), Some("daw-instance-drum"));
    sh.post_with_identity("post-current", "post-2mix", "2Mix", Some(host), Some("daw-current"));
    let names = enumerate_active_pre_pair_candidates_for_post_project_in_session(&sh.scope(), "post-current", "daw-current")
        .into_iter()
        .filter_map(|c| c.name)
        .collect::<std::collections::BTreeSet<_>>();
    assert_eq!(names, ["2Mix", "Drum"].into_iter().map(str::to_string).collect());
}

#[test]
fn enumerate_in_session_allows_host_fallback_when_daw_ids_are_instance_scoped() {
    let mut sh = Shelves::new();
    sh.pre_with_identity("post-current", "iid-old-mix", "Mix", "inactive", &now_rfc3339(), Some(current_host()), Some("daw-old"));
    let v = enumerate_active_pre_pair_candidates_for_post_project_in_session(&sh.scope(), "post-current", "daw-current");
    assert_eq!(v.iter().map(|c| c.instance_id.as_str()).collect::<Vec<_>>(), vec!["iid-old-mix"]);
}

#[test]
fn arm_for_post_project_allows_single_host_project_daw_mismatch() {
    let mut sh = Shelves::new();
    sh.pre_with_identity("post-current", "iid-old-vocal", "Vocal", "inactive", &now_rfc3339(), Some(current_host()), Some("daw-old"));
    let sel = select_target_pre_for_arm_for_post_project_in_session(&sh.scope(), "Vocal", "post-current", "daw-current")
        .expect("single POST-project host fallback should arm instance-scoped daw IDs");
    assert_eq!(sel.instance_id, "iid-old-vocal");
}

#[test]
fn arm_for_post_project_prefers_current_host_process_same_name() {
    let mut sh = Shelves::new();
    let now = now_rfc3339();
    sh.pre_with_host("pre-other-host", "iid-other-vocal", "Vocal", "inactive", &now, Some(other_host_process_id()));
    sh.pre_with_host("pre-current-host", "iid-current-vocal", "Vocal", "inactive", &now, Some(current_host()));
    let s = sh.scope();
    assert!(select_target_pre_for_arm(&s, "Vocal").is_none());
    let sel = select_target_pre_for_arm_for_post_project(&s, "Vocal", "post-current")
        .expect("same-host PRE should win over another host process with the same name");
    assert_eq!(sel.instance_id, "iid-current-vocal");
}

#[test]
fn arm_for_post_project_rejects_foreign_unique_pre_when_other_post_project_is_active() {
    let mut sh = Shelves::new();
    let host = current_host();
    sh.pre_with_host("pre-mastering-project", "iid-master-vocal", "Vocal", "inactive", &now_rfc3339(), Some(host));
    sh.post_with_host("post-current-song", "post-current", "", Some(host));
    sh.post_with_host("post-mastering-project", "post-master", "Vocal", Some(host));
    assert!(select_target_pre_for_arm_for_post_project(&sh.scope(), "Vocal", "post-current-song").is_none());
}

#[test]
fn display_for_post_project_rejects_active_foreign_unique_pre_when_other_post_project_is_active() {
    let mut sh = Shelves::new();
    let host = current_host();
    sh.pre_with_host("pre-mastering-project", "iid-master-vocal", "Vocal", "active", &now_rfc3339(), Some(host));
    sh.post_with_host("post-current-song", "post-current", "", Some(host));
    sh.post_with_host("post-mastering-project", "post-master", "Vocal", Some(host));
    assert!(select_target_pre_for_post_project(&sh.scope(), "Vocal", "post-current-song").is_none());
}

#[test]
fn arm_for_post_project_allows_unique_same_host_pre_without_daw_when_single_post_project() {
    let mut sh = Shelves::new();
    sh.pre_with_identity("pre-foreign-project", "iid-foreign-vocal", "Vocal", "inactive", &now_rfc3339(), Some(current_host()), None);
    sh.post_with_host("post-current-song", "post-current", "", Some(current_host()));
    let sel = select_target_pre_for_arm_for_post_project_in_session(&sh.scope(), "Vocal", "post-current-song", "daw-current")
        .expect("single POST-project host fallback should bridge legacy PREs");
    assert_eq!(sel.instance_id, "iid-foreign-vocal");
}

#[test]
fn arm_for_post_project_rejects_daw_mismatch_when_other_post_project_is_active() {
    let mut sh = Shelves::new();
    let host = current_host();
    sh.pre_with_identity("pre-foreign-project", "iid-foreign-vocal", "Vocal", "inactive", &now_rfc3339(), Some(host), Some("daw-foreign"));
    sh.post_with_host("post-current-song", "post-current", "", Some(host));
    sh.post_with_host("post-mastering-project", "post-master", "Vocal", Some(host));
    assert!(select_target_pre_for_arm_for_post_project_in_session(&sh.scope(), "Vocal", "post-current-song", "daw-current").is_none());
}

#[test]
fn arm_for_post_project_rejects_external_exact_daw_when_other_post_project_outside_daw_is_active() {
    let mut sh = Shelves::new();
    let host = current_host();
    sh.pre_with_identity("pre-foreign-project", "iid-foreign-vocal", "Vocal", "inactive", &now_rfc3339(), Some(host), Some("daw-current"));
    sh.post_with_identity("post-current-song", "post-current", "", Some(host), Some("daw-current"));
    sh.post_with_identity("post-mastering-project", "post-master", "Vocal", Some(host), Some("daw-other"));
    assert!(select_target_pre_for_arm_for_post_project_in_session(&sh.scope(), "Vocal", "post-current-song", "daw-current").is_none());
}

#[test]
fn arm_for_post_project_allows_external_exact_daw_when_other_post_project_shares_daw() {
    let mut sh = Shelves::new();
    let host = current_host();
    sh.pre_with_identity("pre-vst3-project", "iid-vocal", "Vocal", "inactive", &now_rfc3339(), Some(host), Some("daw-shared"));
    sh.post_with_identity("post-au-project", "post-au", "", Some(host), Some("daw-shared"));
    sh.post_with_identity("post-vst3-project", "post-vst3", "Vocal", Some(host), Some("daw-shared"));
    let sel = select_target_pre_for_arm_for_post_project_in_session(&sh.scope(), "Vocal", "post-au-project", "daw-shared")
        .expect("matching DAW scope can bridge split AU/VST3 POST shelves when all shelves agree");
    assert_eq!(sel.instance_id, "iid-vocal");
}

#[test]
fn enumerate_in_session_matches_current_live_shape() {
    let mut sh = Shelves::new();
    let now = now_rfc3339();
    let host = current_host();
    sh.pre_with_identity("pre-drum-project", "iid-drum", "Drum", "inactive", &now, Some(host), Some("daw-pre-drum"));
    sh.pre_with_identity("pre-music-project", "iid-music", "Music", "inactive", &now, Some(host), Some("daw-pre-music"));
    sh.pre_with_identity("pre-2mix-project", "iid-2mix", "2Mix", "inactive", &now, Some(host), Some("daw-pre-2mix"));
    sh.post_with_host("post-shared-project", "post-drum", "Drum", Some(host));
    sh.post_with_host("post-shared-project", "post-music", "Music", Some(host));
    sh.post_with_host("post-shared-project", "post-2mix", "2Mix", Some(host));
    let names = enumerate_active_pre_pair_candidates_for_post_project_in_session(&sh.scope(), "post-shared-project", "daw-post-2mix")
        .into_iter()
        .filter_map(|c| c.name)
        .collect::<std::collections::BTreeSet<_>>();
    assert_eq!(names, ["2Mix", "Drum", "Music"].into_iter().map(str::to_string).collect());
}

#[test]
fn explicit_pair_choice_survives_stale_measurement_and_instance_scoped_ids() {
    let mut sh = Shelves::new();
    let host = current_host();
    sh.pre_with_identity("pre-au-project", "pre-2mix", "2Mix", "inactive", &old_rfc3339(120), Some(host), Some("daw-pre-instance"));
    sh.live_owner("pre-au-project", "pre-2mix");
    let s = sh.scope();
    let choices = enumerate_live_pre_pair_choices_for_post_project_in_session(&s, "post-au-project", "daw-post-instance");
    assert_eq!(choices.len(), 1);
    assert_eq!(choices[0].instance_id, "pre-2mix");

    let (selected, name) =
        select_live_pre_pair_choice_by_instance_for_post_project_in_session(&s, "pre-2mix", "post-au-project", "daw-post-instance")
            .expect("live same-host PRE remains explicitly selectable");
    assert_eq!(selected.instance_id, "pre-2mix");
    assert_eq!(name, "2Mix");

    sh.post_with_host("post-other-project", "post-other", "Other", Some(host));
    let mut latched = Some(latch_selected_pre(name, selected));
    let resolved = resolve_arm_target_for_post_project_in_session(&sh.scope(), "2Mix", "post-au-project", "daw-post-instance", &mut latched)
        .expect("exact same-host latch remains authoritative after explicit selection");
    assert_eq!(resolved.instance_id, "pre-2mix");
}

#[test]
fn explicit_pair_choice_selects_one_exact_instance_among_duplicate_names() {
    let mut sh = Shelves::new();
    let host = current_host();
    for (project, instance) in [("pre-a-project", "pre-a"), ("pre-b-project", "pre-b")] {
        sh.pre_with_identity(project, instance, "2Mix", "inactive", &old_rfc3339(120), Some(host), None);
        sh.live_owner(project, instance);
    }
    let (selected, name) =
        select_live_pre_pair_choice_by_instance_for_post_project_in_session(&sh.scope(), "pre-b", "post-project", "daw-post-instance")
            .expect("instance-id click must not be ambiguous by display name");
    assert_eq!(selected.instance_id, "pre-b");
    assert_eq!(name, "2Mix");
}

#[test]
fn explicit_pair_choice_keeps_bypassed_runtime_visible() {
    let mut sh = Shelves::new();
    sh.pre_with_identity("pre-project", "pre-bypassed", "2Mix", "bypassed", &old_rfc3339(120), Some(current_host()), None);
    sh.live_owner("pre-project", "pre-bypassed");
    let choices = enumerate_live_pre_pair_choices_for_post_project_in_session(&sh.scope(), "post-project", "daw-post");
    assert_eq!(choices.len(), 1);
    assert_eq!(choices[0].instance_id, "pre-bypassed");
}

#[test]
fn published_exact_unnamed_claim_is_all_keep_ready_while_runtime_is_live() {
    let mut sh = Shelves::new();
    sh.pre_with_identity("pre-project", "pre-unnamed", "", "inactive", &old_rfc3339(120), Some(current_host()), None);
    sh.live_owner("pre-project", "pre-unnamed");
    let selected = resolve_published_pair_claim_for_arm(&sh.scope(), None, Some("pre-unnamed"), "post-project", "daw-post")
        .expect("exact live claim must not depend on a name or measurement timestamp");
    assert_eq!(selected.instance_id, "pre-unnamed");
}

#[test]
fn published_exact_claim_reconnects_to_one_recreated_same_host_pre_only() {
    let mut sh = Shelves::new();
    let host = current_host();
    sh.pre_with_identity("pre-vst-project", "pre-drum-recreated", "Drum", "inactive", &old_rfc3339(120), Some(host), Some("daw-vst-instance"));
    sh.live_owner("pre-vst-project", "pre-drum-recreated");
    let selected = resolve_published_pair_claim_for_arm(&sh.scope(), Some("Drum"), Some("pre-drum-deleted"), "post-au-project", "daw-au-instance")
        .expect("one same-host replacement preserves the prior explicit pair intent");
    assert_eq!(selected.instance_id, "pre-drum-recreated");

    sh.pre_with_identity("pre-other-host-project", "pre-drum-deleted", "Drum", "inactive", &old_rfc3339(120), Some(other_host_process_id()), Some("daw-other-host"));
    sh.live_owner("pre-other-host-project", "pre-drum-deleted");
    assert!(resolve_published_pair_claim_for_arm(&sh.scope(), Some("Drum"), Some("pre-drum-deleted"), "post-au-project", "daw-au-instance").is_none());
    sh.release_owner("pre-other-host-project", "pre-drum-deleted");

    sh.pre_with_identity("pre-vst-project-b", "pre-drum-duplicate", "Drum", "inactive", &old_rfc3339(120), Some(host), Some("daw-vst-instance-b"));
    sh.live_owner("pre-vst-project-b", "pre-drum-duplicate");
    assert!(resolve_published_pair_claim_for_arm(&sh.scope(), Some("Drum"), Some("pre-drum-deleted"), "post-au-project", "daw-au-instance").is_none());
}

#[test]
fn arm_for_post_project_allows_current_project_pre_when_other_post_project_is_active() {
    let mut sh = Shelves::new();
    let host = current_host();
    sh.pre_with_host("post-current-song", "iid-current-vocal", "Vocal", "inactive", &now_rfc3339(), Some(host));
    sh.post_with_host("post-current-song", "post-current", "", Some(host));
    sh.post_with_host("post-mastering-project", "post-master", "Vocal", Some(host));
    let sel = select_target_pre_for_arm_for_post_project(&sh.scope(), "Vocal", "post-current-song")
        .expect("current-project PRE must remain armable");
    assert_eq!(sel.instance_id, "iid-current-vocal");
}

#[test]
fn arm_for_post_project_same_host_tie_remains_ambiguous() {
    let mut sh = Shelves::new();
    let now = now_rfc3339();
    let host = current_host();
    sh.pre_with_host("pre-current-a", "iid-current-a-vocal", "Vocal", "inactive", &now, Some(host));
    sh.pre_with_host("pre-current-b", "iid-current-b-vocal", "Vocal", "inactive", &now, Some(host));
    sh.pre_with_host("pre-other-host", "iid-other-vocal", "Vocal", "inactive", &now, Some(other_host_process_id()));
    assert!(select_target_pre_for_arm_for_post_project(&sh.scope(), "Vocal", "post-current").is_none());
}

// ── Laws on concrete values ─────────────────────────────────────────────────

#[test]
fn selection_is_the_only_eligible_candidate() {
    let mut sh = Shelves::new();
    let now = now_rfc3339();
    sh.pre("p1", "a", "snare", "active", &now);
    sh.pre("p2", "b", "kick", "active", &now);
    sh.pre("p3", "c", "snare", "bypassed", &now);
    let sel = select_target_pre_for_arm(&sh.scope(), "snare").unwrap();
    assert_eq!(sel.instance_id, "a");
    assert_eq!(sel.project_dir.components, join(&root(), &["p1"]).components);
}

#[test]
fn latch_decision_is_stable_across_ticks() {
    let mut sh = Shelves::new();
    let now = now_rfc3339();
    sh.pre("puid-1", "iid-A", "snare", "active", &now);
    sh.pre("puid-2", "iid-B", "snare", "active", &now);
    let s = sh.scope();
    let mut latched = latch("snare", "iid-A", &["puid-1"], None);
    let first = resolve_arm_target(&s, "snare", &mut latched).map(|x| x.instance_id);
    let second = resolve_arm_target(&s, "snare", &mut latched).map(|x| x.instance_id);
    assert_eq!(first, second);
    assert_eq!(first.as_deref(), Some("iid-A"));
}

#[test]
fn latch_for_another_name_is_ignored() {
    let mut sh = Shelves::new();
    sh.pre("puid-2", "iid-B", "kick", "active", &now_rfc3339());
    let mut latched = latch("snare", "iid-A", &["puid-1"], None);
    let sel = resolve_arm_target(&sh.scope(), "kick", &mut latched).unwrap();
    assert_eq!(sel.instance_id, "iid-B");
    assert_eq!(latched.unwrap().name, "snare");
}

#[test]
fn released_latch_falls_back_to_strict_selection() {
    let mut sh = Shelves::new();
    let now = now_rfc3339();
    sh.pre("puid-1", "iid-A", "snare", "active", &now);
    sh.release_owner("puid-1", "iid-A");
    sh.pre("puid-2", "iid-B", "snare", "active", &now);
    let mut latched = latch("snare", "iid-A", &["puid-1"], None);
    assert!(resolve_arm_target(&sh.scope(), "snare", &mut latched).is_none());
}

#[test]
fn restored_latch_waits_until_runtime_proves_ownership() {
    let mut sh = Shelves::new();
    sh.pre_with_host("puid-1", "iid-A", "snare", "active", &now_rfc3339(), Some(current_host()));
    let mut latched = latch("snare", "iid-A", &["puid-1"], None);
    if let Some(l) = latched.as_mut() {
        l.readiness = LatchedPreReadiness::RestoredWaiting;
    }
    assert!(resolve_arm_target(&sh.scope(), "snare", &mut latched).is_none());
    assert_eq!(latched.as_ref().unwrap().readiness, LatchedPreReadiness::RestoredWaiting);
    sh.live_owner("puid-1", "iid-A");
    let sel = resolve_arm_target(&sh.scope(), "snare", &mut latched).unwrap();
    assert_eq!(sel.instance_id, "iid-A");
    assert_eq!(latched.unwrap().readiness, LatchedPreReadiness::Confirmed);
}

#[test]
fn a_candidates_project_dir_is_the_grandparent_of_its_snapshot() {
    let mut shelves = Shelves::new();
    shelves.pre("proj-a", "iid-1", "drum", "active", &now_rfc3339());
    let s = shelves.scope();
    let dir = candidate_project_dir(&s, &shelves.pres[0]).unwrap();
    assert_eq!(dir.components, join(&root(), &["proj-a"]).components);
}
