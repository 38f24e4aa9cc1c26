//! Where a stopped pair named by a Drop transaction may sit: the four candidate files of its
//! PRE and POST, each either failed or pending its pair.
use vstd::prelude::*;

use crate::path_identity::{guard_events, guard_path_component, guarded_component, PathEventSink};
use crate::path_model::PathModel;
use crate::plugin_data::{role_dir_name, trimmed, Role};

verus! {

/// The files a stopped pair may sit in, each as `{root}/{project}/{instance}/{role}/{kind}/
/// {session}.json` with `kind` `.failed` or `.pair_pending`, the failed file tried first.
pub struct DropReconcileCandidates {
    pub pre_failed: PathModel,
    pub pre_pending: PathModel,
    pub post_failed: PathModel,
    pub post_pending: PathModel,
}

/// The candidate file of one side and kind, from guarded components.
pub open spec fn candidate_file(
    root: Seq<Seq<char>>,
    project_hash: Seq<char>,
    instance_id: Seq<char>,
    role: Role,
    kind: Seq<char>,
    session_id: Seq<char>,
) -> Seq<Seq<char>> {
    root.push(guarded_component(project_hash)).push(guarded_component(instance_id)).push(role_dir_name(role)).push(
        kind,
    ).push(guarded_component(session_id) + ".json"@)
}

/// A component the guard wall lets out: path-safe, or a quarantine name.
pub open spec fn inert_component(c: Seq<char>) -> bool {
    crate::path_identity::path_safe(c) || crate::path_identity::is_quarantine_name_shape(c)
}

/// None of the four identities is blank.
pub open spec fn identities_present(
    project_hash: Seq<char>,
    session_id: Seq<char>,
    pre_instance_id: Seq<char>,
    post_instance_id: Seq<char>,
) -> bool {
    &&& trimmed(project_hash).len() > 0
    &&& trimmed(session_id).len() > 0
    &&& trimmed(pre_instance_id).len() > 0
    &&& trimmed(post_instance_id).len() > 0
}

/// The events of guarding the four identities, in order.
pub open spec fn candidate_events(
    project_hash: Seq<char>,
    session_id: Seq<char>,
    pre_instance_id: Seq<char>,
    post_instance_id: Seq<char>,
) -> Seq<(Option<Seq<char>>, Seq<char>)> {
    guard_events("record_drop_reconcile.project_hash"@, project_hash) + guard_events(
        "record_drop_reconcile.session_id"@,
        session_id,
    ) + guard_events("record_drop_reconcile.pre_instance_id"@, pre_instance_id) + guard_events(
        "record_drop_reconcile.post_instance_id"@,
        post_instance_id,
    )
}

fn candidate(root: &PathModel, ph: &str, iid: &str, role: Role, kind: &str, file_name: &str) -> (p: PathModel)
    ensures
        p@ == root@.push(ph@).push(iid@).push(role_dir_name(role)).push(kind@).push(file_name@),
{
    root.join(ph).join(iid).join(role.dir_name()).join(kind).join(file_name)
}

/// The candidate files of a stopped pair, with every identity guarded into a path-safe
/// component (each guard's events queued in `sink`), or `None`, with nothing queued, when an
/// identity is blank.
pub fn drop_reconcile_candidates(
    sink: &mut PathEventSink,
    plugin_data_root: &PathModel,
    project_hash: &str,
    session_id: &str,
    pre_instance_id: &str,
    post_instance_id: &str,
) -> (r: Option<DropReconcileCandidates>)
    ensures
        !identities_present(project_hash@, session_id@, pre_instance_id@, post_instance_id@) ==> r is None
            && final(sink)@ == old(sink)@,
        identities_present(project_hash@, session_id@, pre_instance_id@, post_instance_id@) ==> {
            &&& inert_component(guarded_component(project_hash@))
            &&& inert_component(guarded_component(session_id@))
            &&& inert_component(guarded_component(pre_instance_id@))
            &&& inert_component(guarded_component(post_instance_id@))
            &&& final(sink)@ == old(sink)@ + candidate_events(
                project_hash@,
                session_id@,
                pre_instance_id@,
                post_instance_id@,
            )
            &&& r matches Some(c) && {
                &&& c.pre_failed@ == candidate_file(
                    plugin_data_root@,
                    project_hash@,
                    pre_instance_id@,
                    Role::Pre,
                    ".failed"@,
                    session_id@,
                )
                &&& c.pre_pending@ == candidate_file(
                    plugin_data_root@,
                    project_hash@,
                    pre_instance_id@,
                    Role::Pre,
                    ".pair_pending"@,
                    session_id@,
                )
                &&& c.post_failed@ == candidate_file(
                    plugin_data_root@,
                    project_hash@,
                    post_instance_id@,
                    Role::Post,
                    ".failed"@,
                    session_id@,
                )
                &&& c.post_pending@ == candidate_file(
                    plugin_data_root@,
                    project_hash@,
                    post_instance_id@,
                    Role::Post,
                    ".pair_pending"@,
                    session_id@,
                )
            }
        },
{
    let blank = crate::plugin_data::trim_text(project_hash).as_str().is_empty() || crate::plugin_data::trim_text(
        session_id,
    ).as_str().is_empty() || crate::plugin_data::trim_text(pre_instance_id).as_str().is_empty()
        || crate::plugin_data::trim_text(post_instance_id).as_str().is_empty();
    if blank {
        return None;
    }
    let ghost start = sink@;
    let ph = guard_path_component(sink, project_hash, "record_drop_reconcile.project_hash");
    let session = guard_path_component(sink, session_id, "record_drop_reconcile.session_id");
    let pre_iid = guard_path_component(sink, pre_instance_id, "record_drop_reconcile.pre_instance_id");
    let post_iid = guard_path_component(sink, post_instance_id, "record_drop_reconcile.post_instance_id");
    let file_name = crate::plugin_data::concat_str(session.as_str(), ".json");
    Some(
        DropReconcileCandidates {
            pre_failed: candidate(plugin_data_root, ph.as_str(), pre_iid.as_str(), Role::Pre, ".failed", file_name.as_str()),
            pre_pending: candidate(
                plugin_data_root,
                ph.as_str(),
                pre_iid.as_str(),
                Role::Pre,
                ".pair_pending",
                file_name.as_str(),
            ),
            post_failed: candidate(
                plugin_data_root,
                ph.as_str(),
                post_iid.as_str(),
                Role::Post,
                ".failed",
                file_name.as_str(),
            ),
            post_pending: candidate(
                plugin_data_root,
                ph.as_str(),
                post_iid.as_str(),
                Role::Post,
                ".pair_pending",
                file_name.as_str(),
            ),
        },
    )
}

} // verus!

verus! {

/// Every candidate file of a stopped pair lies under the plug-in data root, five components
/// below it: project, instance, role directory, kind and file name.
pub proof fn lemma_candidates_stay_under_root(
    root: Seq<Seq<char>>,
    project_hash: Seq<char>,
    instance_id: Seq<char>,
    role: Role,
    kind: Seq<char>,
    session_id: Seq<char>,
)
    ensures
        candidate_file(root, project_hash, instance_id, role, kind, session_id).len() == root.len() + 5,
        crate::path_model::path_has_prefix(candidate_file(root, project_hash, instance_id, role, kind, session_id), root),
{
    let f = candidate_file(root, project_hash, instance_id, role, kind, session_id);
    assert(f.subrange(0, root.len() as int) == root);
}

} // verus!
