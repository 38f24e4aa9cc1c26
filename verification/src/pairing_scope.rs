//! Pairing target resolution: which PRE a POST should see, keep, or keep latched.
//!
//! The resolver works on a [`PairingScope`], the observed state of one Kirin root: every PRE
//! snapshot (`{root}/{project}/{instance}/pre.json`) and every POST shelf, the current host
//! process and the current time. Freshness, DAW-session identity, host process and project
//! directory decide which PRE is in the scope of a POST; a PRE is selected only when exactly
//! one candidate is left, so a human-readable name never pairs two different sessions.
use vstd::prelude::*;

use crate::clock::{age_within, instant_nanos, UnixInstant};
use crate::path_model::{copy_opt_string, copy_string, path_file_name, str_equal, strs_view, PathModel};
use crate::text::{lex_lt, chars_lex_lt, chars_of};

verus! {

/// A PRE snapshot counts as fresh while its `t` is younger than this many seconds.
pub const NO_PRE_SECS: i64 = 10;

/// One PRE snapshot found under the Kirin root.
pub struct PreCandidate {
    /// `{project}` directory holding the snapshot.
    pub project_hash: String,
    /// `{instance}` directory (the PRE instance id).
    pub instance_id: String,
    /// PRE `name`.
    pub name: Option<String>,
    /// PRE `signal_state` (`active`, `inactive`, `bypassed`).
    pub signal_state: Option<String>,
    /// PRE `t`, the instant it denotes, when it parsed.
    pub t_unix: Option<UnixInstant>,
    /// DAW document/session identity.
    pub daw_session_id: Option<String>,
    /// DAW host process that owns the runtime.
    pub host_process_id: Option<u32>,
    /// The snapshot has a live runtime owner lease.
    pub has_live_owner: bool,
    /// The current owner explicitly released its lease.
    pub has_released_owner: bool,
}

/// One POST shelf found under the Kirin root.
pub struct PostCandidate {
    pub project_hash: String,
    pub instance_id: String,
    pub pair_pre_name: Option<String>,
    /// POST `t`, the instant it denotes, when it parsed.
    pub t_unix: Option<UnixInstant>,
    pub daw_session_id: Option<String>,
    pub host_process_id: Option<u32>,
}

/// The observed state that pairing decisions are made on.
pub struct PairingScope {
    kirin_root: PathModel,
    pres: Vec<PreCandidate>,
    posts: Vec<PostCandidate>,
    host_process_id: u32,
    now: UnixInstant,
}

pub open spec fn osv(o: Option<String>) -> Option<Seq<char>> {
    o.deep_view()
}

/// Scan order of PRE snapshots: by project directory, then by instance directory.
pub open spec fn pre_key_lt(a: PreCandidate, b: PreCandidate) -> bool {
    lex_lt(a.project_hash@, b.project_hash@) || (a.project_hash@ == b.project_hash@ && lex_lt(
        a.instance_id@,
        b.instance_id@,
    ))
}

impl PairingScope {
    pub closed spec fn root(&self) -> Seq<Seq<char>> {
        self.kirin_root@
    }

    pub closed spec fn pres(&self) -> Seq<PreCandidate> {
        self.pres@
    }

    pub closed spec fn posts(&self) -> Seq<PostCandidate> {
        self.posts@
    }

    /// The current DAW host process (0 when unknown).
    pub closed spec fn host(&self) -> u32 {
        self.host_process_id
    }

    /// The instant freshness is judged at, in nanoseconds since the Unix epoch.
    pub closed spec fn now(&self) -> int {
        instant_nanos(self.now)
    }

    /// An empty scope observed at `now` from host process `host_process_id`.
    pub fn at_time(kirin_root: PathModel, host_process_id: u32, now: UnixInstant) -> (s: PairingScope)
        ensures
            s.root() == kirin_root@,
            s.pres().len() == 0,
            s.posts().len() == 0,
            s.host() == host_process_id,
            s.now() == instant_nanos(now),
    {
        PairingScope { kirin_root, pres: Vec::new(), posts: Vec::new(), host_process_id, now }
    }

    /// An empty scope observed now.
    pub fn new(kirin_root: PathModel, host_process_id: u32) -> (s: PairingScope)
        ensures
            s.root() == kirin_root@,
            s.pres().len() == 0,
            s.posts().len() == 0,
            s.host() == host_process_id,
    {
        let now = crate::clock::now_unix_instant();
        Self::at_time(kirin_root, host_process_id, now)
    }

    /// Adds a PRE snapshot at its scan position (before the first snapshot it sorts before).
    pub fn add_pre(&mut self, c: PreCandidate)
        ensures
            final(self).root() == old(self).root(),
            final(self).posts() == old(self).posts(),
            final(self).host() == old(self).host(),
            final(self).now() == old(self).now(),
            exists|k: int|
                0 <= k <= old(self).pres().len() && final(self).pres() == old(self).pres().insert(k, c)
                    && (forall|j: int| 0 <= j < k ==> !pre_key_lt(c, #[trigger] old(self).pres()[j]))
                    && (k < old(self).pres().len() ==> pre_key_lt(c, old(self).pres()[k])),
    {
        let cp = chars_of(c.project_hash.as_str());
        let ci = chars_of(c.instance_id.as_str());
        let mut k: usize = 0;
        let n = self.pres.len();
        let mut stop = false;
        while k < n && !stop
            invariant
                stop ==> k < n && pre_key_lt(c, self.pres@[k as int]),
                n == self.pres@.len(),
                self.pres@ == old(self).pres@,
                cp@ == c.project_hash@,
                ci@ == c.instance_id@,
                k <= n,
                forall|j: int| 0 <= j < k ==> !pre_key_lt(c, #[trigger] self.pres@[j]),
            decreases n - k + (if stop { 0int } else { 1int }),
        {
            let p = chars_of(self.pres[k].project_hash.as_str());
            let i = chars_of(self.pres[k].instance_id.as_str());
            let before = chars_lex_lt(cp.as_slice(), p.as_slice()) || (str_equal(
                c.project_hash.as_str(),
                self.pres[k].project_hash.as_str(),
            ) && chars_lex_lt(ci.as_slice(), i.as_slice()));
            assert(cp@ == c.project_hash@);
            assert(p@ == self.pres@[k as int].project_hash@);
            assert(i@ == self.pres@[k as int].instance_id@);
            assert(before == pre_key_lt(c, self.pres@[k as int]));
            if before {
                stop = true;
            } else {
                k = k + 1;
            }
        }
        let ghost old_pres = self.pres@;
        self.pres.insert(k, c);
        assert(self.pres@ == old_pres.insert(k as int, c));
        assert(0 <= k <= old(self).pres().len() && self.pres() == old(self).pres().insert(k as int, c)
            && (forall|j: int| 0 <= j < k ==> !pre_key_lt(c, #[trigger] old(self).pres()[j]))
            && (k < old(self).pres().len() ==> pre_key_lt(c, old(self).pres()[k as int])));
    }

    /// Adds a POST shelf.
    pub fn add_post(&mut self, p: PostCandidate)
        ensures
            final(self).root() == old(self).root(),
            final(self).pres() == old(self).pres(),
            final(self).posts() == old(self).posts().push(p),
            final(self).host() == old(self).host(),
            final(self).now() == old(self).now(),
    {
        self.posts.push(p);
    }
}

// ── Candidate predicates ────────────────────────────────────────────────────

pub open spec fn fresh_at(t: Option<UnixInstant>, now: int) -> bool {
    t matches Some(x) && age_within(instant_nanos(x), now, NO_PRE_SECS as int)
}

pub open spec fn pre_fresh(s: PairingScope, c: PreCandidate) -> bool {
    fresh_at(c.t_unix, s.now())
}

pub open spec fn pre_bypassed(c: PreCandidate) -> bool {
    osv(c.signal_state) == Some("bypassed"@)
}

pub open spec fn pre_active(c: PreCandidate) -> bool {
    osv(c.signal_state) == Some("active"@)
}

/// A PRE that keeps its project directory discoverable: fresh and not bypassed.
pub open spec fn pre_discoverable(s: PairingScope, c: PreCandidate) -> bool {
    pre_fresh(s, c) && !pre_bypassed(c)
}

pub open spec fn post_active(s: PairingScope, p: PostCandidate) -> bool {
    fresh_at(p.t_unix, s.now())
}

fn fresh_exec(t: Option<UnixInstant>, now: UnixInstant) -> (r: bool)
    ensures
        r == fresh_at(t, instant_nanos(now)),
{
    match t {
        Some(x) => crate::clock::instant_age_within(x, now, NO_PRE_SECS),
        None => false,
    }
}

fn opt_is(o: &Option<String>, s: &str) -> (r: bool)
    ensures
        r == (osv(*o) == Some(s@)),
{
    match o {
        Some(v) => str_equal(v.as_str(), s),
        None => false,
    }
}

fn opt_nonempty_is(o: &Option<String>, s: &str) -> (r: bool)
    ensures
        r == (s@.len() > 0 && osv(*o) == Some(s@)),
{
    !s.is_empty() && opt_is(o, s)
}

fn is_discoverable(s: &PairingScope, c: &PreCandidate) -> (r: bool)
    ensures
        r == pre_discoverable(*s, *c),
{
    fresh_exec(c.t_unix, s.now) && !opt_is(&c.signal_state, "bypassed")
}

// ── Project discovery ───────────────────────────────────────────────────────

/// Distinct project directories holding a discoverable PRE, in scan order (first `n`
/// snapshots).
pub open spec fn active_dirs_upto(s: PairingScope, n: int) -> Seq<Seq<char>>
    decreases n,
{
    if n <= 0 {
        Seq::empty()
    } else {
        let prev = active_dirs_upto(s, n - 1);
        let c = s.pres()[n - 1];
        if pre_discoverable(s, c) && !prev.contains(c.project_hash@) {
            prev.push(c.project_hash@)
        } else {
            prev
        }
    }
}

/// Project directories with at least one fresh, non-bypassed PRE.
pub open spec fn active_dirs(s: PairingScope) -> Seq<Seq<char>> {
    active_dirs_upto(s, s.pres().len() as int)
}

/// Distinct non-empty names of the non-bypassed PREs in project `dir` (first `n` snapshots).
pub open spec fn pre_names_upto(s: PairingScope, dir: Seq<char>, n: int) -> Seq<Seq<char>>
    decreases n,
{
    if n <= 0 {
        Seq::empty()
    } else {
        let prev = pre_names_upto(s, dir, n - 1);
        let c = s.pres()[n - 1];
        match osv(c.name) {
            Some(nm) => if c.project_hash@ == dir && !pre_bypassed(c) && nm.len() > 0 && !prev.contains(nm) {
                prev.push(nm)
            } else {
                prev
            },
            None => prev,
        }
    }
}

pub open spec fn pre_names(s: PairingScope, dir: Seq<char>) -> Seq<Seq<char>> {
    pre_names_upto(s, dir, s.pres().len() as int)
}

/// Distinct non-empty `pair_pre_name`s of the POST shelves in project `hash` (first `n`).
pub open spec fn post_names_upto(s: PairingScope, hash: Seq<char>, n: int) -> Seq<Seq<char>>
    decreases n,
{
    if n <= 0 || hash.len() == 0 {
        Seq::empty()
    } else {
        let prev = post_names_upto(s, hash, n - 1);
        let p = s.posts()[n - 1];
        match osv(p.pair_pre_name) {
            Some(nm) => if p.project_hash@ == hash && nm.len() > 0 && !prev.contains(nm) {
                prev.push(nm)
            } else {
                prev
            },
            None => prev,
        }
    }
}

pub open spec fn post_names(s: PairingScope, hash: Seq<char>) -> Seq<Seq<char>> {
    post_names_upto(s, hash, s.posts().len() as int)
}

/// How many of the (distinct) names in `a` occur in `b`.
pub open spec fn common_count(a: Seq<Seq<char>>, b: Seq<Seq<char>>) -> nat {
    a.filter(|x: Seq<char>| b.contains(x)).len()
}

pub open spec fn dir_score(s: PairingScope, dir: Seq<char>, hash: Seq<char>) -> nat {
    common_count(pre_names(s, dir), post_names(s, hash))
}

pub open spec fn best_score_upto(s: PairingScope, dirs: Seq<Seq<char>>, hash: Seq<char>, n: int) -> nat
    decreases n,
{
    if n <= 0 {
        0
    } else {
        let prev = best_score_upto(s, dirs, hash, n - 1);
        let sc = dir_score(s, dirs[n - 1], hash);
        if sc > prev {
            sc
        } else {
            prev
        }
    }
}

/// The PRE project directories that best match the POST project's pair names: all active
/// directories when the POST project has no pair names yet; otherwise the active directories
/// sharing the largest number of names with it, and none when no directory shares any.
pub open spec fn discover_spec(s: PairingScope, hash: Seq<char>) -> Seq<Seq<char>> {
    let dirs = active_dirs(s);
    if post_names(s, hash).len() == 0 {
        dirs
    } else {
        let best = best_score_upto(s, dirs, hash, dirs.len() as int);
        if best == 0 {
            Seq::empty()
        } else {
            dirs.filter(|d: Seq<char>| dir_score(s, d, hash) == best)
        }
    }
}

proof fn lemma_best_score_bounds(s: PairingScope, dirs: Seq<Seq<char>>, hash: Seq<char>, n: int)
    requires
        0 <= n <= dirs.len(),
    ensures
        forall|k: int| 0 <= k < n ==> dir_score(s, #[trigger] dirs[k], hash) <= best_score_upto(s, dirs, hash, n),
        best_score_upto(s, dirs, hash, n) > 0 ==> exists|k: int|
            0 <= k < n && dir_score(s, #[trigger] dirs[k], hash) == best_score_upto(s, dirs, hash, n),
    decreases n,
{
    if n > 0 {
        lemma_best_score_bounds(s, dirs, hash, n - 1);
    }
}

/// When the POST project already has pair names, discovery keeps exactly the best matches:
/// every directory it returns is an active PRE directory sharing at least one name with the
/// POST project, and no active directory shares more names than it; and every active
/// directory that shares a name and is matched by none better is returned.
pub proof fn lemma_discovery_keeps_only_best_matches(s: PairingScope, hash: Seq<char>)
    requires
        post_names(s, hash).len() > 0,
    ensures
        forall|i: int|
            0 <= i < discover_spec(s, hash).len() ==> {
                &&& active_dirs(s).contains(#[trigger] discover_spec(s, hash)[i])
                &&& dir_score(s, discover_spec(s, hash)[i], hash) > 0
                &&& forall|k: int|
                    0 <= k < active_dirs(s).len() ==> dir_score(s, #[trigger] active_dirs(s)[k], hash) <= dir_score(
                        s,
                        discover_spec(s, hash)[i],
                        hash,
                    )
            },
        forall|j: int|
            0 <= j < active_dirs(s).len() && dir_score(s, #[trigger] active_dirs(s)[j], hash) > 0 && (forall|k: int|
                0 <= k < active_dirs(s).len() ==> dir_score(s, #[trigger] active_dirs(s)[k], hash) <= dir_score(
                    s,
                    active_dirs(s)[j],
                    hash,
                )) ==> discover_spec(s, hash).contains(active_dirs(s)[j]),
{
    broadcast use vstd::seq_lib::group_filter_ensures;

    let dirs = active_dirs(s);
    let n = dirs.len() as int;
    let best = best_score_upto(s, dirs, hash, n);
    lemma_best_score_bounds(s, dirs, hash, n);
    let pred = |d: Seq<char>| dir_score(s, d, hash) == best;
    let out = discover_spec(s, hash);
    if best > 0 {
        assert(out == dirs.filter(pred));
        assert forall|i: int| 0 <= i < out.len() implies {
            &&& active_dirs(s).contains(#[trigger] out[i])
            &&& dir_score(s, out[i], hash) > 0
            &&& forall|k: int|
                0 <= k < active_dirs(s).len() ==> dir_score(s, #[trigger] active_dirs(s)[k], hash) <= dir_score(
                    s,
                    out[i],
                    hash,
                )
        } by {
            assert(pred(dirs.filter(pred)[i]));
            dirs.lemma_filter_contains_rev(pred, out[i]);
        }
        assert forall|j: int|
            0 <= j < active_dirs(s).len() && dir_score(s, #[trigger] active_dirs(s)[j], hash) > 0 && (forall|k: int|
                0 <= k < active_dirs(s).len() ==> dir_score(s, #[trigger] active_dirs(s)[k], hash) <= dir_score(
                    s,
                    active_dirs(s)[j],
                    hash,
                )) implies out.contains(active_dirs(s)[j]) by {
            let w = choose|k: int| 0 <= k < n && dir_score(s, #[trigger] dirs[k], hash) == best;
            assert(dir_score(s, dirs[w], hash) <= dir_score(s, dirs[j], hash));
            assert(pred(dirs[j]));
            dirs.lemma_filter_contains(pred, j);
        }
    } else {
        assert(out.len() == 0);
        assert forall|j: int|
            0 <= j < active_dirs(s).len() && dir_score(s, #[trigger] active_dirs(s)[j], hash) > 0 && (forall|k: int|
                0 <= k < active_dirs(s).len() ==> dir_score(s, #[trigger] active_dirs(s)[k], hash) <= dir_score(
                    s,
                    active_dirs(s)[j],
                    hash,
                )) implies out.contains(active_dirs(s)[j]) by {
            assert(dir_score(s, dirs[j], hash) <= best);
        }
    }
}

fn contains_name(v: &Vec<String>, name: &str) -> (r: bool)
    ensures
        r == strs_view(v@).contains(name@),
{
    let mut i: usize = 0;
    while i < v.len()
        invariant
            i <= v.len(),
            forall|j: int| 0 <= j < i ==> v@[j]@ != name@,
        decreases v.len() - i,
    {
        if str_equal(v[i].as_str(), name) {
            assert(strs_view(v@)[i as int] == name@);
            return true;
        }
        i = i + 1;
    }
    assert forall|j: int| 0 <= j < v@.len() implies #[trigger] strs_view(v@)[j] != name@ by {}
    false
}

proof fn lemma_push_view(v: Seq<String>, x: String)
    ensures
        strs_view(v.push(x)) == strs_view(v).push(x@),
{
    assert(strs_view(v.push(x)) =~= strs_view(v).push(x@));
}

fn discover_active_pre_dirs(s: &PairingScope) -> (dirs: Vec<String>)
    ensures
        strs_view(dirs@) == active_dirs(*s),
{
    let mut dirs: Vec<String> = Vec::new();
    let mut i: usize = 0;
    let n = s.pres.len();
    while i < n
        invariant
            n == s.pres@.len(),
            i <= n,
            strs_view(dirs@) == active_dirs_upto(*s, i as int),
        decreases n - i,
    {
        let c = &s.pres[i];
        if is_discoverable(s, c) && !contains_name(&dirs, c.project_hash.as_str()) {
            let d = copy_string(&c.project_hash);
            proof {
                lemma_push_view(dirs@, d);
            }
            dirs.push(d);
        }
        i = i + 1;
    }
    dirs
}

/// Non-empty names of the non-bypassed PREs in project `dir`, each once.
fn pre_names_in_project(s: &PairingScope, dir: &str) -> (names: Vec<String>)
    ensures
        strs_view(names@) == pre_names(*s, dir@),
{
    let mut names: Vec<String> = Vec::new();
    let mut i: usize = 0;
    let n = s.pres.len();
    while i < n
        invariant
            n == s.pres@.len(),
            i <= n,
            strs_view(names@) == pre_names_upto(*s, dir@, i as int),
        decreases n - i,
    {
        let c = &s.pres[i];
        if str_equal(c.project_hash.as_str(), dir) && !opt_is(&c.signal_state, "bypassed") {
            match &c.name {
                Some(nm) => {
                    if !nm.as_str().is_empty() && !contains_name(&names, nm.as_str()) {
                        let x = copy_string(nm);
                        proof {
                            lemma_push_view(names@, x);
                        }
                        names.push(x);
                    }
                },
                None => {},
            }
        }
        i = i + 1;
    }
    names
}

/// Non-empty `pair_pre_name`s of the POST shelves in project `hash`, each once (none for an
/// empty hash).
fn post_pair_names_in_project(s: &PairingScope, hash: &str) -> (names: Vec<String>)
    ensures
        strs_view(names@) == post_names(*s, hash@),
{
    let mut names: Vec<String> = Vec::new();
    if hash.is_empty() {
        proof {
            assert(strs_view(names@) =~= Seq::<Seq<char>>::empty());
        }
        return names;
    }
    let mut i: usize = 0;
    let n = s.posts.len();
    while i < n
        invariant
            n == s.posts@.len(),
            hash@.len() > 0,
            i <= n,
            strs_view(names@) == post_names_upto(*s, hash@, i as int),
        decreases n - i,
    {
        let p = &s.posts[i];
        if str_equal(p.project_hash.as_str(), hash) {
            match &p.pair_pre_name {
                Some(nm) => {
                    if !nm.as_str().is_empty() && !contains_name(&names, nm.as_str()) {
                        let x = copy_string(nm);
                        proof {
                            lemma_push_view(names@, x);
                        }
                        names.push(x);
                    }
                },
                None => {},
            }
        }
        i = i + 1;
    }
    names
}

fn count_common(a: &Vec<String>, b: &Vec<String>) -> (n: usize)
    ensures
        n == common_count(strs_view(a@), strs_view(b@)),
{
    reveal(Seq::filter);
    let ghost av = strs_view(a@);
    let ghost bv = strs_view(b@);
    let ghost pred = |x: Seq<char>| bv.contains(x);
    let mut n: usize = 0;
    let mut i: usize = 0;
    while i < a.len()
        invariant
            i <= a.len(),
            av == strs_view(a@),
            bv == strs_view(b@),
            pred == (|x: Seq<char>| bv.contains(x)),
            n == av.subrange(0, i as int).filter(pred).len(),
            n <= i,
        decreases a.len() - i,
    {
        reveal(Seq::filter);
        assert(av.subrange(0, i + 1).drop_last() == av.subrange(0, i as int));
        assert(av[i as int] == a@[i as int]@);
        assert(av.subrange(0, i + 1).last() == av[i as int]);
        let hit = contains_name(b, a[i].as_str());
        assert(hit == pred(av[i as int]));
        if hit {
            n = n + 1;
        }
        i = i + 1;
    }
    assert(av.subrange(0, a@.len() as int) == av);
    n
}

/// Fresh PRE project directories that best match the POST project's pair names.
///
/// PRE and POST can run in separate binaries, so their project ids are not a stable session
/// boundary; the POST project's existing `pair_pre_name`s are the stronger signal. Without
/// names every fresh PRE directory is returned. With names but no overlapping directory,
/// nothing is returned: falling back would risk pairing to a different session.
pub fn discover_pre_dirs_for_post_project(s: &PairingScope, post_project_hash: &str) -> (dirs: Vec<PathModel>)
    ensures
        dirs@.len() == discover_spec(*s, post_project_hash@).len(),
        forall|i: int|
            0 <= i < dirs@.len() ==> (#[trigger] dirs@[i])@ == s.root().push(
                discover_spec(*s, post_project_hash@)[i],
            ),
{
    let names = discover_project_names(s, post_project_hash);
    let mut out: Vec<PathModel> = Vec::new();
    let mut i: usize = 0;
    while i < names.len()
        invariant
            i <= names.len(),
            strs_view(names@) == discover_spec(*s, post_project_hash@),
            out@.len() == i,
            forall|j: int| 0 <= j < i ==> (#[trigger] out@[j])@ == s.root().push(names@[j]@),
        decreases names.len() - i,
    {
        out.push(s.kirin_root.join(names[i].as_str()));
        i = i + 1;
    }
    out
}

fn discover_project_names(s: &PairingScope, post_project_hash: &str) -> (names: Vec<String>)
    ensures
        strs_view(names@) == discover_spec(*s, post_project_hash@),
{
    let dirs = discover_active_pre_dirs(s);
    let pnames = post_pair_names_in_project(s, post_project_hash);
    if pnames.len() == 0 {
        return dirs;
    }
    let ghost dv = strs_view(dirs@);
    let mut scores: Vec<usize> = Vec::new();
    let mut best: usize = 0;
    let mut i: usize = 0;
    while i < dirs.len()
        invariant
            i <= dirs.len(),
            dv == strs_view(dirs@),
            dv == active_dirs(*s),
            strs_view(pnames@) == post_names(*s, post_project_hash@),
            scores@.len() == i,
            forall|j: int| 0 <= j < i ==> scores@[j] == dir_score(*s, #[trigger] dv[j], post_project_hash@),
            best == best_score_upto(*s, dv, post_project_hash@, i as int),
        decreases dirs.len() - i,
    {
        let pre_names = pre_names_in_project(s, dirs[i].as_str());
        let sc = count_common(&pre_names, &pnames);
        scores.push(sc);
        if sc > best {
            best = sc;
        }
        i = i + 1;
    }
    let mut out: Vec<String> = Vec::new();
    if best == 0 {
        proof {
            assert(strs_view(out@) =~= Seq::<Seq<char>>::empty());
        }
        return out;
    }
    reveal(Seq::filter);
    let ghost pred = |d: Seq<char>| dir_score(*s, d, post_project_hash@) == best;
    let mut k: usize = 0;
    while k < dirs.len()
        invariant
            k <= dirs.len(),
            dv == strs_view(dirs@),
            scores@.len() == dirs@.len(),
            forall|j: int| 0 <= j < dirs@.len() ==> scores@[j] == dir_score(*s, #[trigger] dv[j], post_project_hash@),
            pred == (|d: Seq<char>| dir_score(*s, d, post_project_hash@) == best),
            strs_view(out@) == dv.subrange(0, k as int).filter(pred),
        decreases dirs.len() - k,
    {
        reveal(Seq::filter);
        assert(dv.subrange(0, k + 1).drop_last() == dv.subrange(0, k as int));
        assert(dv.subrange(0, k + 1).last() == dv[k as int]);
        assert((scores[k as int] == best) == pred(dv[k as int]));
        assert(dv[k as int] == dirs@[k as int]@);
        if scores[k] == best {
            let d = copy_string(&dirs[k]);
            proof {
                lemma_push_view(out@, d);
            }
            out.push(d);
        }
        k = k + 1;
    }
    assert(dv.subrange(0, dirs@.len() as int) == dv);
    out
}

} // verus!

verus! {

// ── Scope rules ─────────────────────────────────────────────────────────────

/// The project directory `project` is the POST's own project (an empty hash never matches).
pub open spec fn belongs_to(project: Option<Seq<char>>, hash: Seq<char>) -> bool {
    hash.len() > 0 && project == Some(hash)
}

/// The identity carries the POST's (non-empty) DAW session id.
pub open spec fn matches_daw(daw: Option<Seq<char>>, post_daw: Seq<char>) -> bool {
    post_daw.len() > 0 && daw == Some(post_daw)
}

/// An unknown host on either side is compatible; otherwise the processes must agree.
pub open spec fn host_compatible(candidate_host: Option<u32>, host: u32) -> bool {
    host == 0 || candidate_host is None || candidate_host == Some(host)
}

/// A POST shelf in the current host process.
pub open spec fn post_in_host_scope(p: PostCandidate, host: u32) -> bool {
    host != 0 && p.host_process_id == Some(host)
}

/// Another project in this host process has an active POST shelf.
pub open spec fn other_active_post(s: PairingScope, hash: Seq<char>, host: u32) -> bool {
    exists|i: int|
        0 <= i < s.posts().len() && post_active(s, #[trigger] s.posts()[i]) && post_in_host_scope(
            s.posts()[i],
            host,
        ) && s.posts()[i].project_hash@ != hash
}

/// Another project in this host process has an active POST shelf outside DAW session `daw`.
pub open spec fn other_active_post_outside_daw(s: PairingScope, hash: Seq<char>, daw: Seq<char>, host: u32) -> bool {
    exists|i: int|
        0 <= i < s.posts().len() && post_active(s, #[trigger] s.posts()[i]) && post_in_host_scope(
            s.posts()[i],
            host,
        ) && s.posts()[i].project_hash@ != hash && osv(s.posts()[i].daw_session_id) != Some(daw)
}

/// DAW identity may reach beyond the POST project only while every other active POST shelf
/// of this host agrees on it.
pub open spec fn exact_daw_scope_allowed(s: PairingScope, hash: Seq<char>, daw: Seq<char>, host: u32) -> bool {
    daw.len() > 0 && !other_active_post_outside_daw(s, hash, daw, host)
}

/// Same-host fallback: the identity runs in this host process and no other project in it has
/// an active POST shelf.
pub open spec fn same_host_single_allowed(s: PairingScope, hash: Seq<char>, host: u32, candidate_host: Option<u32>) -> bool {
    host != 0 && candidate_host == Some(host) && !other_active_post(s, hash, host)
}

/// Exact DAW-session match that the current POST may use.
pub open spec fn exact_daw_allowed(
    s: PairingScope,
    project: Option<Seq<char>>,
    daw: Option<Seq<char>>,
    host_id: Option<u32>,
    hash: Seq<char>,
    post_daw: Seq<char>,
    host: u32,
) -> bool {
    matches_daw(daw, post_daw) && host_compatible(host_id, host) && (belongs_to(project, hash)
        || exact_daw_scope_allowed(s, hash, post_daw, host))
}

/// A PRE identity is in the scope of the POST (`hash`, `post_daw`) in process `host`.
pub open spec fn in_post_scope(
    s: PairingScope,
    project: Option<Seq<char>>,
    daw: Option<Seq<char>>,
    host_id: Option<u32>,
    hash: Seq<char>,
    post_daw: Seq<char>,
    host: u32,
) -> bool {
    ||| exact_daw_allowed(s, project, daw, host_id, hash, post_daw, host)
    ||| same_host_single_allowed(s, hash, host, host_id)
    ||| post_daw.len() == 0 && daw is None && belongs_to(project, hash)
}

/// An explicit choice additionally accepts any runtime of the current host process.
pub open spec fn in_explicit_scope(
    s: PairingScope,
    project: Option<Seq<char>>,
    daw: Option<Seq<char>>,
    host_id: Option<u32>,
    hash: Seq<char>,
    post_daw: Seq<char>,
    host: u32,
) -> bool {
    (host != 0 && host_id == Some(host)) || in_post_scope(s, project, daw, host_id, hash, post_daw, host)
}

/// An automatically found unique PRE outside the POST's own scope must not be taken.
pub open spec fn guarded(
    s: PairingScope,
    project: Option<Seq<char>>,
    daw: Option<Seq<char>>,
    host_id: Option<u32>,
    hash: Seq<char>,
    post_daw: Seq<char>,
    host: u32,
) -> bool {
    &&& !exact_daw_allowed(s, project, daw, host_id, hash, post_daw, host)
    &&& !same_host_single_allowed(s, hash, host, host_id)
    &&& (post_daw.len() > 0 || daw is Some || !belongs_to(project, hash))
}

pub open spec fn cand_in_post_scope(s: PairingScope, c: PreCandidate, hash: Seq<char>, post_daw: Seq<char>, host: u32) -> bool {
    in_post_scope(s, Some(c.project_hash@), osv(c.daw_session_id), c.host_process_id, hash, post_daw, host)
}

pub open spec fn cand_in_explicit_scope(s: PairingScope, c: PreCandidate, hash: Seq<char>, post_daw: Seq<char>, host: u32) -> bool {
    in_explicit_scope(s, Some(c.project_hash@), osv(c.daw_session_id), c.host_process_id, hash, post_daw, host)
}

pub open spec fn cand_guarded(s: PairingScope, c: PreCandidate, hash: Seq<char>, post_daw: Seq<char>) -> bool {
    guarded(s, Some(c.project_hash@), osv(c.daw_session_id), c.host_process_id, hash, post_daw, s.host())
}

fn host_scope_has_other_active_post_project(s: &PairingScope, hash: &str, host: u32) -> (r: bool)
    ensures
        r == other_active_post(*s, hash@, host),
{
    let mut i: usize = 0;
    while i < s.posts.len()
        invariant
            i <= s.posts@.len(),
            forall|j: int|
                0 <= j < i ==> !(post_active(*s, #[trigger] s.posts@[j]) && post_in_host_scope(s.posts@[j], host)
                    && s.posts@[j].project_hash@ != hash@),
        decreases s.posts@.len() - i,
    {
        let p = &s.posts[i];
        if fresh_exec(p.t_unix, s.now) && host != 0 && p.host_process_id == Some(host)
            && !str_equal(p.project_hash.as_str(), hash) {
            return true;
        }
        i = i + 1;
    }
    false
}

fn host_scope_has_other_active_post_project_outside_daw(s: &PairingScope, hash: &str, daw: &str, host: u32) -> (r: bool)
    ensures
        r == other_active_post_outside_daw(*s, hash@, daw@, host),
{
    let mut i: usize = 0;
    while i < s.posts.len()
        invariant
            i <= s.posts@.len(),
            forall|j: int|
                0 <= j < i ==> !(post_active(*s, #[trigger] s.posts@[j]) && post_in_host_scope(s.posts@[j], host)
                    && s.posts@[j].project_hash@ != hash@ && osv(s.posts@[j].daw_session_id) != Some(daw@)),
        decreases s.posts@.len() - i,
    {
        let p = &s.posts[i];
        if fresh_exec(p.t_unix, s.now) && host != 0 && p.host_process_id == Some(host)
            && !str_equal(p.project_hash.as_str(), hash) && !opt_is(&p.daw_session_id, daw) {
            return true;
        }
        i = i + 1;
    }
    false
}

/// Whether the candidate's project directory is the POST project.
fn candidate_belongs_to_project(c: &PreCandidate, post_project_hash: &str) -> (r: bool)
    ensures
        r == belongs_to(Some(c.project_hash@), post_project_hash@),
{
    !post_project_hash.is_empty() && str_equal(c.project_hash.as_str(), post_project_hash)
}

fn candidate_matches_daw_session(c: &PreCandidate, post_daw_session_id: &str) -> (r: bool)
    ensures
        r == matches_daw(osv(c.daw_session_id), post_daw_session_id@),
{
    opt_nonempty_is(&c.daw_session_id, post_daw_session_id)
}

fn host_process_is_compatible(candidate_host_process_id: Option<u32>, host_process_id: u32) -> (r: bool)
    ensures
        r == host_compatible(candidate_host_process_id, host_process_id),
{
    host_process_id == 0 || candidate_host_process_id.is_none() || candidate_host_process_id == Some(host_process_id)
}

fn exact_daw_scope_is_allowed(s: &PairingScope, post_project_hash: &str, post_daw_session_id: &str, host_process_id: u32) -> (r: bool)
    ensures
        r == exact_daw_scope_allowed(*s, post_project_hash@, post_daw_session_id@, host_process_id),
{
    !post_daw_session_id.is_empty() && !host_scope_has_other_active_post_project_outside_daw(
        s,
        post_project_hash,
        post_daw_session_id,
        host_process_id,
    )
}

fn same_host_single_post_project_is_allowed(
    s: &PairingScope,
    post_project_hash: &str,
    host_process_id: u32,
    candidate_host_process_id: Option<u32>,
) -> (r: bool)
    ensures
        r == same_host_single_allowed(*s, post_project_hash@, host_process_id, candidate_host_process_id),
{
    host_process_id != 0 && candidate_host_process_id == Some(host_process_id)
        && !host_scope_has_other_active_post_project(s, post_project_hash, host_process_id)
}

fn exact_daw_candidate_is_allowed(
    s: &PairingScope,
    c: &PreCandidate,
    post_project_hash: &str,
    post_daw_session_id: &str,
    host_process_id: u32,
) -> (r: bool)
    ensures
        r == exact_daw_allowed(
            *s,
            Some(c.project_hash@),
            osv(c.daw_session_id),
            c.host_process_id,
            post_project_hash@,
            post_daw_session_id@,
            host_process_id,
        ),
{
    candidate_matches_daw_session(c, post_daw_session_id) && host_process_is_compatible(
        c.host_process_id,
        host_process_id,
    ) && (candidate_belongs_to_project(c, post_project_hash) || exact_daw_scope_is_allowed(
        s,
        post_project_hash,
        post_daw_session_id,
        host_process_id,
    ))
}

fn candidate_is_in_post_scope(
    s: &PairingScope,
    c: &PreCandidate,
    post_project_hash: &str,
    post_daw_session_id: &str,
    host_process_id: u32,
) -> (r: bool)
    ensures
        r == cand_in_post_scope(*s, *c, post_project_hash@, post_daw_session_id@, host_process_id),
{
    if exact_daw_candidate_is_allowed(s, c, post_project_hash, post_daw_session_id, host_process_id) {
        return true;
    }
    if same_host_single_post_project_is_allowed(s, post_project_hash, host_process_id, c.host_process_id) {
        return true;
    }
    post_daw_session_id.is_empty() && c.daw_session_id.is_none() && candidate_belongs_to_project(
        c,
        post_project_hash,
    )
}

fn explicit_candidate_is_in_post_scope(
    s: &PairingScope,
    c: &PreCandidate,
    post_project_hash: &str,
    post_daw_session_id: &str,
    host_process_id: u32,
) -> (r: bool)
    ensures
        r == cand_in_explicit_scope(*s, *c, post_project_hash@, post_daw_session_id@, host_process_id),
{
    if host_process_id != 0 && c.host_process_id == Some(host_process_id) {
        return true;
    }
    candidate_is_in_post_scope(s, c, post_project_hash, post_daw_session_id, host_process_id)
}

} // verus!

verus! {

// ── Candidate lists ─────────────────────────────────────────────────────────

pub fn copy_candidate(c: &PreCandidate) -> (r: PreCandidate)
    ensures
        r == *c,
{
    PreCandidate {
        project_hash: c.project_hash.clone(),
        instance_id: c.instance_id.clone(),
        name: copy_opt_string(&c.name),
        signal_state: copy_opt_string(&c.signal_state),
        t_unix: c.t_unix,
        daw_session_id: copy_opt_string(&c.daw_session_id),
        host_process_id: c.host_process_id,
        has_live_owner: c.has_live_owner,
        has_released_owner: c.has_released_owner,
    }
}

/// Which PRE snapshots a candidate list holds.
pub enum ListMode {
    /// Fresh and not bypassed (discoverable).
    Active,
    /// Discoverable and in the POST's scope.
    ActiveInSession,
    /// With a live runtime lease, in any state and of any age.
    Live,
    /// Live and in the POST's explicit-choice scope.
    LiveExplicit,
}

pub open spec fn list_pred(s: PairingScope, c: PreCandidate, hash: Seq<char>, post_daw: Seq<char>, mode: ListMode) -> bool {
    match mode {
        ListMode::Active => pre_discoverable(s, c),
        ListMode::ActiveInSession => pre_discoverable(s, c) && cand_in_post_scope(s, c, hash, post_daw, s.host()),
        ListMode::Live => c.has_live_owner,
        ListMode::LiveExplicit => c.has_live_owner && cand_in_explicit_scope(s, c, hash, post_daw, s.host()),
    }
}

pub open spec fn listed(s: PairingScope, hash: Seq<char>, post_daw: Seq<char>, mode: ListMode) -> Seq<PreCandidate> {
    s.pres().filter(|c: PreCandidate| list_pred(s, c, hash, post_daw, mode))
}

fn list_pred_exec(s: &PairingScope, c: &PreCandidate, hash: &str, post_daw: &str, mode: &ListMode) -> (r: bool)
    ensures
        r == list_pred(*s, *c, hash@, post_daw@, *mode),
{
    match mode {
        ListMode::Active => is_discoverable(s, c),
        ListMode::ActiveInSession => is_discoverable(s, c) && candidate_is_in_post_scope(
            s,
            c,
            hash,
            post_daw,
            s.host_process_id,
        ),
        ListMode::Live => c.has_live_owner,
        ListMode::LiveExplicit => c.has_live_owner && explicit_candidate_is_in_post_scope(
            s,
            c,
            hash,
            post_daw,
            s.host_process_id,
        ),
    }
}

fn list_candidates(s: &PairingScope, hash: &str, post_daw: &str, mode: ListMode) -> (v: Vec<PreCandidate>)
    ensures
        v@ == listed(*s, hash@, post_daw@, mode),
{
    let ghost pred = |c: PreCandidate| list_pred(*s, c, hash@, post_daw@, mode);
    let mut v: Vec<PreCandidate> = Vec::new();
    let mut i: usize = 0;
    while i < s.pres.len()
        invariant
            i <= s.pres@.len(),
            pred == (|c: PreCandidate| list_pred(*s, c, hash@, post_daw@, mode)),
            v@ == s.pres@.subrange(0, i as int).filter(pred),
        decreases s.pres@.len() - i,
    {
        reveal(Seq::filter);
        assert(s.pres@.subrange(0, i + 1).drop_last() == s.pres@.subrange(0, i as int));
        assert(s.pres@.subrange(0, i + 1).last() == s.pres@[i as int]);
        if list_pred_exec(s, &s.pres[i], hash, post_daw, &mode) {
            v.push(copy_candidate(&s.pres[i]));
        }
        i = i + 1;
    }
    assert(s.pres@.subrange(0, s.pres@.len() as int) == s.pres@);
    v
}

/// Every fresh, non-bypassed PRE candidate.
pub fn enumerate_active_pre_pair_candidates(s: &PairingScope) -> (v: Vec<PreCandidate>)
    ensures
        v@ == listed(*s, Seq::empty(), Seq::empty(), ListMode::Active),
{
    proof {
        reveal_strlit("");
        assert(""@ =~= Seq::<char>::empty());
    }
    list_candidates(s, "", "", ListMode::Active)
}

/// Legacy unscoped PRE candidates: every fresh, non-bypassed PRE, whatever the POST project.
pub fn enumerate_active_pre_pair_candidates_for_post_project(
    s: &PairingScope,
    _post_project_hash: &str,
) -> (v: Vec<PreCandidate>)
    ensures
        v@ == listed(*s, Seq::empty(), Seq::empty(), ListMode::Active),
{
    enumerate_active_pre_pair_candidates(s)
}

/// PRE candidates that the current POST can actually arm: the dropdown never shows a PRE that
/// Keep would reject.
pub fn enumerate_active_pre_pair_candidates_for_post_project_in_session(
    s: &PairingScope,
    post_project_hash: &str,
    post_daw_session_id: &str,
) -> (v: Vec<PreCandidate>)
    ensures
        v@ == listed(*s, post_project_hash@, post_daw_session_id@, ListMode::ActiveInSession),
{
    list_candidates(s, post_project_hash, post_daw_session_id, ListMode::ActiveInSession)
}

/// Every PRE runtime holding a live lease.
pub fn enumerate_live_pre_pair_choices(s: &PairingScope) -> (v: Vec<PreCandidate>)
    ensures
        v@ == listed(*s, Seq::empty(), Seq::empty(), ListMode::Live),
{
    proof {
        reveal_strlit("");
        assert(""@ =~= Seq::<char>::empty());
    }
    list_candidates(s, "", "", ListMode::Live)
}

/// Live PRE runtimes offered for an explicit click in the current POST. A leased runtime is not
/// dropped only because its measurement timestamp is stale.
pub fn enumerate_live_pre_pair_choices_for_post_project_in_session(
    s: &PairingScope,
    post_project_hash: &str,
    post_daw_session_id: &str,
) -> (v: Vec<PreCandidate>)
    ensures
        v@ == listed(*s, post_project_hash@, post_daw_session_id@, ListMode::LiveExplicit),
{
    list_candidates(s, post_project_hash, post_daw_session_id, ListMode::LiveExplicit)
}

// ── Selection ───────────────────────────────────────────────────────────────

/// Display/Keep shared PRE selection result.
pub struct SelectedPre {
    pub instance_id: String,
    /// `{kirin_root}/{project}/{instance}/pre.json`.
    pub pre_json: PathModel,
    /// `{kirin_root}/{project}`.
    pub project_dir: PathModel,
    pub daw_session_id: Option<String>,
    pub host_process_id: Option<u32>,
}

pub open spec fn pre_json_path(root: Seq<Seq<char>>, c: PreCandidate) -> Seq<Seq<char>> {
    root.push(c.project_hash@).push(c.instance_id@).push("pre.json"@)
}

/// `sel` identifies candidate `c` of scope `s`.
pub open spec fn selected_is(s: PairingScope, sel: SelectedPre, c: PreCandidate) -> bool {
    &&& sel.instance_id@ == c.instance_id@
    &&& sel.project_dir@ == s.root().push(c.project_hash@)
    &&& sel.pre_json@ == pre_json_path(s.root(), c)
    &&& osv(sel.daw_session_id) == osv(c.daw_session_id)
    &&& sel.host_process_id == c.host_process_id
}

pub open spec fn selected_opt_is(s: PairingScope, r: Option<SelectedPre>, c: Option<PreCandidate>) -> bool {
    match (r, c) {
        (None, None) => true,
        (Some(a), Some(b)) => selected_is(s, a, b),
        _ => false,
    }
}

/// The project directory of a candidate: the grandparent of its `pre.json`, which is
/// `{kirin_root}/{project}`.
pub fn candidate_project_dir(s: &PairingScope, c: &PreCandidate) -> (r: Option<PathModel>)
    ensures
        r matches Some(p) && p@ == s.root().push(c.project_hash@),
{
    Some(s.kirin_root.join(c.project_hash.as_str()))
}

fn selected_from_candidate(s: &PairingScope, c: &PreCandidate) -> (sel: SelectedPre)
    ensures
        selected_is(*s, sel, *c),
{
    let project_dir = match candidate_project_dir(s, c) {
        Some(p) => p,
        None => s.kirin_root.join(c.project_hash.as_str()),
    };
    let pre_json = project_dir.join(c.instance_id.as_str()).join("pre.json");
    SelectedPre {
        instance_id: copy_string(&c.instance_id),
        pre_json,
        project_dir,
        daw_session_id: copy_opt_string(&c.daw_session_id),
        host_process_id: c.host_process_id,
    }
}

/// Which candidates a selection step counts.
pub enum MatchMode {
    /// Every eligible candidate.
    All,
    /// Eligible, with the POST's DAW session, allowed for this POST.
    SameDaw,
    /// Eligible, in the current host process.
    SameHost,
    /// Eligible, in one of the given project directories.
    Scoped,
    /// Eligible, in one of the given project directories and the current host process.
    ScopedSameHost,
}

/// Eligible for automatic selection: the exact (non-empty) name, not bypassed, fresh, and
/// active when the display path asks for it.
pub open spec fn eligible(s: PairingScope, c: PreCandidate, name: Seq<char>, require_active: bool) -> bool {
    &&& name.len() > 0
    &&& !pre_bypassed(c)
    &&& osv(c.name) == Some(name)
    &&& require_active ==> pre_active(c)
    &&& pre_fresh(s, c)
}

pub open spec fn match_pred(
    s: PairingScope,
    c: PreCandidate,
    name: Seq<char>,
    require_active: bool,
    hash: Seq<char>,
    post_daw: Seq<char>,
    dirs: Seq<Seq<char>>,
    mode: MatchMode,
) -> bool {
    eligible(s, c, name, require_active) && match mode {
        MatchMode::All => true,
        MatchMode::SameDaw => exact_daw_allowed(
            s,
            Some(c.project_hash@),
            osv(c.daw_session_id),
            c.host_process_id,
            hash,
            post_daw,
            s.host(),
        ),
        MatchMode::SameHost => s.host() != 0 && c.host_process_id == Some(s.host()),
        MatchMode::Scoped => dirs.contains(c.project_hash@),
        MatchMode::ScopedSameHost => dirs.contains(c.project_hash@) && s.host() != 0
            && c.host_process_id == Some(s.host()),
    }
}

pub open spec fn matching(
    s: PairingScope,
    name: Seq<char>,
    require_active: bool,
    hash: Seq<char>,
    post_daw: Seq<char>,
    dirs: Seq<Seq<char>>,
    mode: MatchMode,
) -> Seq<PreCandidate> {
    s.pres().filter(|c: PreCandidate| match_pred(s, c, name, require_active, hash, post_daw, dirs, mode))
}

fn eligible_exec(s: &PairingScope, c: &PreCandidate, name: &str, require_active: bool) -> (r: bool)
    ensures
        r == eligible(*s, *c, name@, require_active),
{
    !name.is_empty() && !opt_is(&c.signal_state, "bypassed") && opt_is(&c.name, name) && (!require_active
        || opt_is(&c.signal_state, "active")) && fresh_exec(c.t_unix, s.now)
}

fn match_pred_exec(
    s: &PairingScope,
    c: &PreCandidate,
    name: &str,
    require_active: bool,
    hash: &str,
    post_daw: &str,
    dirs: &Vec<String>,
    mode: &MatchMode,
) -> (r: bool)
    ensures
        r == match_pred(*s, *c, name@, require_active, hash@, post_daw@, strs_view(dirs@), *mode),
{
    if !eligible_exec(s, c, name, require_active) {
        return false;
    }
    let host = s.host_process_id;
    match mode {
        MatchMode::All => true,
        MatchMode::SameDaw => exact_daw_candidate_is_allowed(s, c, hash, post_daw, host),
        MatchMode::SameHost => host != 0 && c.host_process_id == Some(host),
        MatchMode::Scoped => contains_name(dirs, c.project_hash.as_str()),
        MatchMode::ScopedSameHost => contains_name(dirs, c.project_hash.as_str()) && host != 0
            && c.host_process_id == Some(host),
    }
}

/// Number of matches, capped at 2, and the position of the first.
struct MatchSummary {
    count: usize,
    first: usize,
}

proof fn lemma_push_first<A>(a: Seq<A>, x: A)
    requires
        a.len() > 0,
    ensures
        a.push(x)[0] == a[0],
{
}

fn scan_matches(
    s: &PairingScope,
    name: &str,
    require_active: bool,
    hash: &str,
    post_daw: &str,
    dirs: &Vec<String>,
    mode: MatchMode,
) -> (m: MatchSummary)
    ensures
        ({
            let ms = matching(*s, name@, require_active, hash@, post_daw@, strs_view(dirs@), mode);
            &&& m.count == (if ms.len() >= 2 { 2 } else { ms.len() })
            &&& m.count > 0 ==> m.first < s.pres().len() && s.pres()[m.first as int] == ms[0]
        }),
{
    let ghost pred = |c: PreCandidate|
        match_pred(*s, c, name@, require_active, hash@, post_daw@, strs_view(dirs@), mode);
    let mut count: usize = 0;
    let mut first: usize = 0;
    let mut i: usize = 0;
    while i < s.pres.len()
        invariant
            i <= s.pres@.len(),
            pred == (|c: PreCandidate|
                match_pred(*s, c, name@, require_active, hash@, post_daw@, strs_view(dirs@), mode)),
            ({
                let ms = s.pres@.subrange(0, i as int).filter(pred);
                &&& count == (if ms.len() >= 2 { 2 } else { ms.len() })
                &&& count > 0 ==> first < i && s.pres@[first as int] == ms[0]
            }),
        decreases s.pres@.len() - i,
    {
        reveal(Seq::filter);
        let ghost prev = s.pres@.subrange(0, i as int).filter(pred);
        assert(s.pres@.subrange(0, i + 1).drop_last() == s.pres@.subrange(0, i as int));
        assert(s.pres@.subrange(0, i + 1).last() == s.pres@[i as int]);
        if match_pred_exec(s, &s.pres[i], name, require_active, hash, post_daw, dirs, &mode) {
            if count == 0 {
                first = i;
            } else {
                proof {
                    lemma_push_first(prev, s.pres@[i as int]);
                }
            }
            if count < 2 {
                count = count + 1;
            }
        }
        i = i + 1;
    }
    assert(s.pres@.subrange(0, s.pres@.len() as int) == s.pres@);
    MatchSummary { count, first }
}

pub open spec fn unique_of(m: Seq<PreCandidate>) -> Option<PreCandidate> {
    if m.len() == 1 {
        Some(m[0])
    } else {
        None
    }
}

pub open spec fn unique_unless_guarded(s: PairingScope, m: Seq<PreCandidate>, hash: Seq<char>, post_daw: Seq<char>) -> Option<PreCandidate> {
    if m.len() == 1 && !cand_guarded(s, m[0], hash, post_daw) {
        Some(m[0])
    } else {
        None
    }
}

/// Strict selection over every discovered PRE: exactly one eligible candidate.
pub open spec fn core_spec(s: PairingScope, name: Seq<char>, require_active: bool) -> Option<PreCandidate> {
    unique_of(matching(s, name, require_active, Seq::empty(), Seq::empty(), Seq::empty(), MatchMode::All))
}

/// POST-scoped strict selection. Among eligible candidates, in order of preference:
/// a unique candidate of the POST's DAW session (any same-DAW match decides); a unique
/// candidate overall unless it lies outside the POST's scope; a unique same-host candidate
/// unless outside scope; and otherwise a unique candidate in the best-matching project
/// directories (same host only, when same-host candidates exist) unless outside scope.
pub open spec fn core_for_post_spec(
    s: PairingScope,
    name: Seq<char>,
    hash: Seq<char>,
    post_daw: Seq<char>,
    require_active: bool,
) -> Option<PreCandidate> {
    let e = Seq::<Seq<char>>::empty();
    let all = matching(s, name, require_active, hash, post_daw, e, MatchMode::All);
    let same_daw = matching(s, name, require_active, hash, post_daw, e, MatchMode::SameDaw);
    let same_host = matching(s, name, require_active, hash, post_daw, e, MatchMode::SameHost);
    let dirs = discover_spec(s, hash);
    if all.len() == 0 {
        None
    } else if same_daw.len() > 0 {
        unique_of(same_daw)
    } else if all.len() == 1 && !cand_guarded(s, all[0], hash, post_daw) {
        Some(all[0])
    } else if same_host.len() > 0 {
        if same_host.len() == 1 && !cand_guarded(s, same_host[0], hash, post_daw) {
            Some(same_host[0])
        } else {
            unique_unless_guarded(
                s,
                matching(s, name, require_active, hash, post_daw, dirs, MatchMode::ScopedSameHost),
                hash,
                post_daw,
            )
        }
    } else {
        unique_unless_guarded(
            s,
            matching(s, name, require_active, hash, post_daw, dirs, MatchMode::Scoped),
            hash,
            post_daw,
        )
    }
}

fn unique_selected(s: &PairingScope, m: &MatchSummary) -> (r: Option<SelectedPre>)
    requires
        m.count > 0 ==> m.first < s.pres().len(),
    ensures
        match r {
            Some(sel) => m.count == 1 && selected_is(*s, sel, s.pres()[m.first as int]),
            None => m.count != 1,
        },
{
    if m.count == 1 {
        Some(selected_from_candidate(s, &s.pres[m.first]))
    } else {
        None
    }
}

/// `sel` (found automatically) lies outside the POST's own scope and must not be taken.
fn project_external_selection_is_guarded(
    s: &PairingScope,
    sel: &SelectedPre,
    post_project_hash: &str,
    post_daw_session_id: &str,
) -> (r: bool)
    ensures
        r == guarded(
            *s,
            path_file_name(sel.project_dir@),
            osv(sel.daw_session_id),
            sel.host_process_id,
            post_project_hash@,
            post_daw_session_id@,
            s.host(),
        ),
{
    let host = s.host_process_id;
    if exact_daw_selection_is_allowed(s, sel, post_project_hash, post_daw_session_id, host) {
        return false;
    }
    if same_host_single_post_project_is_allowed(s, post_project_hash, host, sel.host_process_id) {
        return false;
    }
    if !post_daw_session_id.is_empty() || sel.daw_session_id.is_some() {
        return true;
    }
    !selected_belongs_to_project(sel, post_project_hash)
}

fn selected_belongs_to_project(sel: &SelectedPre, post_project_hash: &str) -> (r: bool)
    ensures
        r == belongs_to(path_file_name(sel.project_dir@), post_project_hash@),
{
    !post_project_hash.is_empty() && sel.project_dir.file_name_is(post_project_hash)
}

fn selected_matches_daw_session(sel: &SelectedPre, post_daw_session_id: &str) -> (r: bool)
    ensures
        r == matches_daw(osv(sel.daw_session_id), post_daw_session_id@),
{
    opt_nonempty_is(&sel.daw_session_id, post_daw_session_id)
}

fn exact_daw_selection_is_allowed(
    s: &PairingScope,
    sel: &SelectedPre,
    post_project_hash: &str,
    post_daw_session_id: &str,
    host_process_id: u32,
) -> (r: bool)
    ensures
        r == exact_daw_allowed(
            *s,
            path_file_name(sel.project_dir@),
            osv(sel.daw_session_id),
            sel.host_process_id,
            post_project_hash@,
            post_daw_session_id@,
            host_process_id,
        ),
{
    selected_matches_daw_session(sel, post_daw_session_id) && host_process_is_compatible(
        sel.host_process_id,
        host_process_id,
    ) && (selected_belongs_to_project(sel, post_project_hash) || exact_daw_scope_is_allowed(
        s,
        post_project_hash,
        post_daw_session_id,
        host_process_id,
    ))
}

fn select_unique_pre_unless_guarded(
    s: &PairingScope,
    m: &MatchSummary,
    post_project_hash: &str,
    post_daw_session_id: &str,
) -> (r: Option<SelectedPre>)
    requires
        m.count > 0 ==> m.first < s.pres().len(),
    ensures
        match r {
            Some(sel) => m.count == 1 && !cand_guarded(
                *s,
                s.pres()[m.first as int],
                post_project_hash@,
                post_daw_session_id@,
            ) && selected_is(*s, sel, s.pres()[m.first as int]),
            None => m.count != 1 || cand_guarded(
                *s,
                s.pres()[m.first as int],
                post_project_hash@,
                post_daw_session_id@,
            ),
        },
{
    match unique_selected(s, m) {
        Some(sel) => {
            if project_external_selection_is_guarded(s, &sel, post_project_hash, post_daw_session_id) {
                None
            } else {
                Some(sel)
            }
        },
        None => None,
    }
}

fn select_target_pre_core(s: &PairingScope, pair_pre_name: &str, require_active: bool) -> (r: Option<SelectedPre>)
    ensures
        selected_opt_is(*s, r, core_spec(*s, pair_pre_name@, require_active)),
{
    let none: Vec<String> = Vec::new();
    proof {
        assert(strs_view(none@) =~= Seq::<Seq<char>>::empty());
    }
    proof {
        reveal_strlit("");
        assert(""@ =~= Seq::<char>::empty());
    }
    let m = scan_matches(s, pair_pre_name, require_active, "", "", &none, MatchMode::All);
    unique_selected(s, &m)
}

fn select_target_pre_core_for_post_project(
    s: &PairingScope,
    pair_pre_name: &str,
    post_project_hash: &str,
    post_daw_session_id: &str,
    require_active: bool,
) -> (r: Option<SelectedPre>)
    ensures
        selected_opt_is(
            *s,
            r,
            core_for_post_spec(*s, pair_pre_name@, post_project_hash@, post_daw_session_id@, require_active),
        ),
{
    let none: Vec<String> = Vec::new();
    proof {
        assert(strs_view(none@) =~= Seq::<Seq<char>>::empty());
    }
    let all = scan_matches(s, pair_pre_name, require_active, post_project_hash, post_daw_session_id, &none, MatchMode::All);
    if all.count == 0 {
        return None;
    }
    let same_daw = scan_matches(s, pair_pre_name, require_active, post_project_hash, post_daw_session_id, &none, MatchMode::SameDaw);
    if same_daw.count > 0 {
        return unique_selected(s, &same_daw);
    }
    match select_unique_pre_unless_guarded(s, &all, post_project_hash, post_daw_session_id) {
        Some(sel) => return Some(sel),
        None => {},
    }
    let dirs = discover_project_names(s, post_project_hash);
    let same_host = scan_matches(s, pair_pre_name, require_active, post_project_hash, post_daw_session_id, &none, MatchMode::SameHost);
    if same_host.count > 0 {
        match select_unique_pre_unless_guarded(s, &same_host, post_project_hash, post_daw_session_id) {
            Some(sel) => return Some(sel),
            None => {},
        }
        let scoped = scan_matches(s, pair_pre_name, require_active, post_project_hash, post_daw_session_id, &dirs, MatchMode::ScopedSameHost);
        return select_unique_pre_unless_guarded(s, &scoped, post_project_hash, post_daw_session_id);
    }
    let scoped = scan_matches(s, pair_pre_name, require_active, post_project_hash, post_daw_session_id, &dirs, MatchMode::Scoped);
    select_unique_pre_unless_guarded(s, &scoped, post_project_hash, post_daw_session_id)
}

/// Strict PRE selection for the display Delta: the unique active, fresh PRE with this name.
pub fn select_target_pre(s: &PairingScope, pair_pre_name: &str) -> (r: Option<SelectedPre>)
    ensures
        selected_opt_is(*s, r, core_spec(*s, pair_pre_name@, true)),
{
    select_target_pre_core(s, pair_pre_name, true)
}

/// Strict PRE selection for Arm/Keep: the unique non-bypassed, fresh PRE with this name.
pub fn select_target_pre_for_arm(s: &PairingScope, pair_pre_name: &str) -> (r: Option<SelectedPre>)
    ensures
        selected_opt_is(*s, r, core_spec(*s, pair_pre_name@, false)),
{
    select_target_pre_core(s, pair_pre_name, false)
}

/// POST-project-scoped display target selection.
pub fn select_target_pre_for_post_project(s: &PairingScope, pair_pre_name: &str, post_project_hash: &str) -> (r: Option<SelectedPre>)
    ensures
        selected_opt_is(*s, r, core_for_post_spec(*s, pair_pre_name@, post_project_hash@, Seq::empty(), true)),
{
    proof {
        reveal_strlit("");
        assert(""@ =~= Seq::<char>::empty());
    }
    select_target_pre_core_for_post_project(s, pair_pre_name, post_project_hash, "", true)
}

/// POST-project-scoped display target selection with DAW document identity.
pub fn select_target_pre_for_post_project_in_session(
    s: &PairingScope,
    pair_pre_name: &str,
    post_project_hash: &str,
    post_daw_session_id: &str,
) -> (r: Option<SelectedPre>)
    ensures
        selected_opt_is(
            *s,
            r,
            core_for_post_spec(*s, pair_pre_name@, post_project_hash@, post_daw_session_id@, true),
        ),
{
    select_target_pre_core_for_post_project(s, pair_pre_name, post_project_hash, post_daw_session_id, true)
}

/// POST-project-scoped Arm/Keep target selection.
pub fn select_target_pre_for_arm_for_post_project(s: &PairingScope, pair_pre_name: &str, post_project_hash: &str) -> (r: Option<SelectedPre>)
    ensures
        selected_opt_is(*s, r, core_for_post_spec(*s, pair_pre_name@, post_project_hash@, Seq::empty(), false)),
{
    proof {
        reveal_strlit("");
        assert(""@ =~= Seq::<char>::empty());
    }
    select_target_pre_core_for_post_project(s, pair_pre_name, post_project_hash, "", false)
}

/// POST-project-scoped Arm/Keep target selection with DAW document identity.
pub fn select_target_pre_for_arm_for_post_project_in_session(
    s: &PairingScope,
    pair_pre_name: &str,
    post_project_hash: &str,
    post_daw_session_id: &str,
) -> (r: Option<SelectedPre>)
    ensures
        selected_opt_is(
            *s,
            r,
            core_for_post_spec(*s, pair_pre_name@, post_project_hash@, post_daw_session_id@, false),
        ),
{
    select_target_pre_core_for_post_project(s, pair_pre_name, post_project_hash, post_daw_session_id, false)
}

} // verus!

verus! {

// ── Explicit choices and published claims ───────────────────────────────────

/// The first candidate of `seq` with instance id `id`.
pub open spec fn find_instance(seq: Seq<PreCandidate>, id: Seq<char>) -> Option<PreCandidate>
    decreases seq.len(),
{
    if seq.len() == 0 {
        None
    } else if seq[0].instance_id@ == id {
        Some(seq[0])
    } else {
        find_instance(seq.drop_first(), id)
    }
}

pub open spec fn named(seq: Seq<PreCandidate>, name: Seq<char>) -> Seq<PreCandidate> {
    seq.filter(|c: PreCandidate| osv(c.name) == Some(name))
}

pub open spec fn name_or_empty(c: PreCandidate) -> Seq<char> {
    match osv(c.name) {
        Some(n) => n,
        None => Seq::empty(),
    }
}

fn find_instance_in(v: &Vec<PreCandidate>, id: &str) -> (r: Option<usize>)
    ensures
        match r {
            Some(k) => k < v@.len() && find_instance(v@, id@) == Some(v@[k as int]),
            None => find_instance(v@, id@) is None,
        },
{
    let mut i: usize = 0;
    assert(v@.subrange(0, v@.len() as int) == v@);
    while i < v.len()
        invariant
            i <= v@.len(),
            find_instance(v@, id@) == find_instance(v@.subrange(i as int, v@.len() as int), id@),
        decreases v@.len() - i,
    {
        let ghost rest = v@.subrange(i as int, v@.len() as int);
        assert(rest[0] == v@[i as int]);
        if str_equal(v[i].instance_id.as_str(), id) {
            return Some(i);
        }
        assert(rest.drop_first() == v@.subrange(i + 1, v@.len() as int));
        i = i + 1;
    }
    None
}

fn scan_named(v: &Vec<PreCandidate>, name: &str) -> (m: MatchSummary)
    ensures
        m.count == (if named(v@, name@).len() >= 2 { 2 } else { named(v@, name@).len() }),
        m.count > 0 ==> m.first < v@.len() && v@[m.first as int] == named(v@, name@)[0],
{
    let ghost pred = |c: PreCandidate| osv(c.name) == Some(name@);
    let mut count: usize = 0;
    let mut first: usize = 0;
    let mut i: usize = 0;
    while i < v.len()
        invariant
            i <= v@.len(),
            pred == (|c: PreCandidate| osv(c.name) == Some(name@)),
            ({
                let ms = v@.subrange(0, i as int).filter(pred);
                &&& count == (if ms.len() >= 2 { 2 } else { ms.len() })
                &&& count > 0 ==> first < i && v@[first as int] == ms[0]
            }),
        decreases v@.len() - i,
    {
        reveal(Seq::filter);
        let ghost prev = v@.subrange(0, i as int).filter(pred);
        assert(v@.subrange(0, i + 1).drop_last() == v@.subrange(0, i as int));
        assert(v@.subrange(0, i + 1).last() == v@[i as int]);
        if opt_is(&v[i].name, name) {
            if count == 0 {
                first = i;
            } else {
                proof {
                    lemma_push_first(prev, v@[i as int]);
                }
            }
            if count < 2 {
                count = count + 1;
            }
        }
        i = i + 1;
    }
    assert(v@.subrange(0, v@.len() as int) == v@);
    MatchSummary { count, first }
}

fn name_or_empty_exec(c: &PreCandidate) -> (n: String)
    ensures
        n@ == name_or_empty(*c),
{
    match &c.name {
        Some(n) => copy_string(n),
        None => String::new(),
    }
}

/// Resolves the exact PRE the user clicked: the first live runtime in the POST's explicit
/// scope with this instance id, with its name ("" when unnamed). No name ambiguity or
/// freshness gate applies.
pub fn select_live_pre_pair_choice_by_instance_for_post_project_in_session(
    s: &PairingScope,
    instance_id: &str,
    post_project_hash: &str,
    post_daw_session_id: &str,
) -> (r: Option<(SelectedPre, String)>)
    ensures
        match find_instance(listed(*s, post_project_hash@, post_daw_session_id@, ListMode::LiveExplicit), instance_id@) {
            Some(c) => r matches Some((sel, nm)) && selected_is(*s, sel, c) && nm@ == name_or_empty(c),
            None => r is None,
        },
{
    let live = enumerate_live_pre_pair_choices_for_post_project_in_session(s, post_project_hash, post_daw_session_id);
    match find_instance_in(&live, instance_id) {
        Some(k) => {
            let c = &live[k];
            Some((selected_from_candidate(s, c), name_or_empty_exec(c)))
        },
        None => None,
    }
}

/// Reconnects a previously explicit claim after delete/recreate: the unique live runtime in
/// the POST's explicit scope carrying `pair_pre_name`.
fn select_unique_live_pre_pair_choice_by_name_for_explicit_reconnect(
    s: &PairingScope,
    pair_pre_name: &str,
    post_project_hash: &str,
    post_daw_session_id: &str,
) -> (r: Option<SelectedPre>)
    ensures
        selected_opt_is(
            *s,
            r,
            unique_of(named(listed(*s, post_project_hash@, post_daw_session_id@, ListMode::LiveExplicit), pair_pre_name@)),
        ),
{
    let live = enumerate_live_pre_pair_choices_for_post_project_in_session(s, post_project_hash, post_daw_session_id);
    let m = scan_named(&live, pair_pre_name);
    if m.count == 1 {
        Some(selected_from_candidate(s, &live[m.first]))
    } else {
        None
    }
}

pub open spec fn nonempty_opt(o: Option<&str>) -> Option<Seq<char>> {
    match o {
        Some(x) => if x@.len() > 0 {
            Some(x@)
        } else {
            None
        },
        None => None,
    }
}

/// The published pair claim's target for All Keep/readiness checks.
pub open spec fn published_claim_spec(
    s: PairingScope,
    name: Option<Seq<char>>,
    instance: Option<Seq<char>>,
    hash: Seq<char>,
    post_daw: Seq<char>,
) -> Option<PreCandidate> {
    let explicit = listed(s, hash, post_daw, ListMode::LiveExplicit);
    match instance {
        Some(id) => match find_instance(explicit, id) {
            Some(c) => Some(c),
            None => if find_instance(listed(s, Seq::empty(), Seq::empty(), ListMode::Live), id) is Some {
                None
            } else {
                match name {
                    Some(n) => unique_of(named(explicit, n)),
                    None => None,
                }
            },
        },
        None => match name {
            Some(n) => core_for_post_spec(s, n, hash, post_daw, false),
            None => None,
        },
    }
}

/// Resolves a POST's published pair claim. A published exact instance is tried first and stays
/// valid while its runtime lease exists, even with stale measurements. An exact id still owned
/// outside this POST's scope is never reinterpreted; only a genuinely absent runtime falls back
/// to the unique live PRE carrying the published name (delete/recreate). Name-only claims use
/// the strict fresh-and-unique Arm resolver.
pub fn resolve_published_pair_claim_for_arm(
    s: &PairingScope,
    pair_pre_name: Option<&str>,
    paired_pre_instance_id: Option<&str>,
    post_project_hash: &str,
    post_daw_session_id: &str,
) -> (r: Option<SelectedPre>)
    ensures
        selected_opt_is(
            *s,
            r,
            published_claim_spec(
                *s,
                nonempty_opt(pair_pre_name),
                nonempty_opt(paired_pre_instance_id),
                post_project_hash@,
                post_daw_session_id@,
            ),
        ),
{
    let instance = match paired_pre_instance_id {
        Some(id) => if id.is_empty() {
            None
        } else {
            Some(id)
        },
        None => None,
    };
    let name = match pair_pre_name {
        Some(n) => if n.is_empty() {
            None
        } else {
            Some(n)
        },
        None => None,
    };
    match instance {
        Some(id) => {
            match select_live_pre_pair_choice_by_instance_for_post_project_in_session(
                s,
                id,
                post_project_hash,
                post_daw_session_id,
            ) {
                Some((selected, _)) => return Some(selected),
                None => {},
            }
            let all_live = enumerate_live_pre_pair_choices(s);
            proof {
                reveal_strlit("");
                assert(""@ =~= Seq::<char>::empty());
            }
            if find_instance_in(&all_live, id).is_some() {
                return None;
            }
            match name {
                Some(n) => select_unique_live_pre_pair_choice_by_name_for_explicit_reconnect(
                    s,
                    n,
                    post_project_hash,
                    post_daw_session_id,
                ),
                None => None,
            }
        },
        None => match name {
            Some(n) => select_target_pre_for_arm_for_post_project_in_session(
                s,
                n,
                post_project_hash,
                post_daw_session_id,
            ),
            None => None,
        },
    }
}

} // verus!

verus! {

// ── Latch ───────────────────────────────────────────────────────────────────

#[derive(Clone, Copy, Debug, PartialEq, Eq, Structural)]
pub enum LatchedPreReadiness {
    /// The exact PRE runtime was observed with a live owner lease in this DAW process.
    Confirmed,
    /// DAW state restored an exact locator before that PRE runtime republished its snapshot.
    RestoredWaiting,
}

/// Established PRE<->POST latch shared by display ticks and Keep/Arm.
pub struct LatchedPre {
    /// Pair name at latch time.
    pub name: String,
    pub instance_id: String,
    pub project_dir: PathModel,
    pub pre_json: PathModel,
    pub daw_session_id: Option<String>,
    pub host_process_id: Option<u32>,
    pub readiness: LatchedPreReadiness,
}

/// PRE signal state as read from a snapshot.
#[derive(Clone, Copy, Debug, PartialEq, Eq, Structural)]
pub enum SignalState {
    Active,
    Bypassed,
    Inactive,
}

/// Direct read state of one latched PRE snapshot.
pub struct LatchedPreState {
    pub instance_id: Option<String>,
    pub name: Option<String>,
    pub signal_state: Option<SignalState>,
    /// `signal_state == "active"`.
    pub active: bool,
    /// `t` is younger than the PRE freshness TTL.
    pub fresh: bool,
    pub daw_session_id: Option<String>,
    pub host_process_id: Option<u32>,
}

/// Latches a selected PRE under its pair name; a fresh latch is confirmed.
pub fn latch_selected_pre(name: String, selected: SelectedPre) -> (l: LatchedPre)
    ensures
        l.name == name,
        l.instance_id == selected.instance_id,
        l.project_dir == selected.project_dir,
        l.pre_json == selected.pre_json,
        l.daw_session_id == selected.daw_session_id,
        l.host_process_id == selected.host_process_id,
        l.readiness == LatchedPreReadiness::Confirmed,
{
    LatchedPre {
        name,
        instance_id: selected.instance_id,
        project_dir: selected.project_dir,
        pre_json: selected.pre_json,
        daw_session_id: selected.daw_session_id,
        host_process_id: selected.host_process_id,
        readiness: LatchedPreReadiness::Confirmed,
    }
}

/// The first PRE snapshot stored at `path`.
pub open spec fn find_at_path_from(s: PairingScope, path: Seq<Seq<char>>, i: int) -> Option<PreCandidate>
    decreases s.pres().len() - i,
{
    if i < 0 || i >= s.pres().len() {
        None
    } else if pre_json_path(s.root(), s.pres()[i]) == path {
        Some(s.pres()[i])
    } else {
        find_at_path_from(s, path, i + 1)
    }
}

pub open spec fn find_at_path(s: PairingScope, path: Seq<Seq<char>>) -> Option<PreCandidate> {
    find_at_path_from(s, path, 0)
}

pub open spec fn signal_of(o: Option<Seq<char>>) -> Option<SignalState> {
    match o {
        None => None,
        Some(x) => if x == "active"@ {
            Some(SignalState::Active)
        } else if x == "bypassed"@ {
            Some(SignalState::Bypassed)
        } else {
            Some(SignalState::Inactive)
        },
    }
}

pub open spec fn nonempty_str(o: Option<Seq<char>>) -> Option<Seq<char>> {
    match o {
        Some(x) => if x.len() > 0 {
            Some(x)
        } else {
            None
        },
        None => None,
    }
}

pub open spec fn nonzero_host(o: Option<u32>) -> Option<u32> {
    match o {
        Some(h) => if h != 0 {
            Some(h)
        } else {
            None
        },
        None => None,
    }
}

/// The read state of snapshot `c`.
pub open spec fn state_is(s: PairingScope, st: LatchedPreState, c: PreCandidate) -> bool {
    &&& osv(st.instance_id) == Some(c.instance_id@)
    &&& osv(st.name) == osv(c.name)
    &&& st.signal_state == signal_of(osv(c.signal_state))
    &&& st.active == (st.signal_state == Some(SignalState::Active))
    &&& st.fresh == pre_fresh(s, c)
    &&& osv(st.daw_session_id) == nonempty_str(osv(c.daw_session_id))
    &&& st.host_process_id == nonzero_host(c.host_process_id)
}

fn find_at_path_exec(s: &PairingScope, path: &PathModel) -> (r: Option<usize>)
    ensures
        match r {
            Some(k) => k < s.pres().len() && find_at_path(*s, path@) == Some(s.pres()[k as int]),
            None => find_at_path(*s, path@) is None,
        },
{
    let mut i: usize = 0;
    while i < s.pres.len()
        invariant
            i <= s.pres@.len(),
            find_at_path(*s, path@) == find_at_path_from(*s, path@, i as int),
        decreases s.pres@.len() - i,
    {
        let c = &s.pres[i];
        let p = s.kirin_root.join(c.project_hash.as_str()).join(c.instance_id.as_str()).join("pre.json");
        if p.same_path(path) {
            return Some(i);
        }
        i = i + 1;
    }
    None
}

fn signal_state_of(o: &Option<String>) -> (r: Option<SignalState>)
    ensures
        r == signal_of(osv(*o)),
{
    match o {
        None => None,
        Some(x) => if str_equal(x.as_str(), "active") {
            Some(SignalState::Active)
        } else if str_equal(x.as_str(), "bypassed") {
            Some(SignalState::Bypassed)
        } else {
            Some(SignalState::Inactive)
        },
    }
}

/// Reads exactly the snapshot at `pre_json` (no scan, no ambiguity check). `None` when no
/// snapshot is stored there.
pub fn read_pre_at(s: &PairingScope, pre_json: &PathModel) -> (r: Option<LatchedPreState>)
    ensures
        match find_at_path(*s, pre_json@) {
            Some(c) => r matches Some(st) && state_is(*s, st, c),
            None => r is None,
        },
{
    match find_at_path_exec(s, pre_json) {
        Some(k) => {
            let c = &s.pres[k];
            let signal_state = signal_state_of(&c.signal_state);
            let daw = match &c.daw_session_id {
                Some(d) => if d.as_str().is_empty() {
                    None
                } else {
                    Some(copy_string(d))
                },
                None => None,
            };
            let host = match c.host_process_id {
                Some(h) => if h != 0 {
                    Some(h)
                } else {
                    None
                },
                None => None,
            };
            Some(
                LatchedPreState {
                    instance_id: Some(copy_string(&c.instance_id)),
                    name: copy_opt_string(&c.name),
                    signal_state,
                    active: signal_state == Some(SignalState::Active),
                    fresh: fresh_exec(c.t_unix, s.now),
                    daw_session_id: daw,
                    host_process_id: host,
                },
            )
        },
        None => None,
    }
}

/// The snapshot at the latch's path is the latched runtime and has a live owner.
pub open spec fn snapshot_matches_latch(s: PairingScope, l: LatchedPre) -> bool {
    match find_at_path(s, l.pre_json@) {
        Some(c) => c.instance_id@ == l.instance_id@ && (l.host_process_id matches Some(h) ==> nonzero_host(
            c.host_process_id,
        ) == Some(h)) && c.has_live_owner,
        None => false,
    }
}

/// The current owner of the snapshot at `path` released its lease.
pub open spec fn released_at(s: PairingScope, path: Seq<Seq<char>>) -> bool {
    match find_at_path(s, path) {
        Some(c) => c.has_released_owner,
        None => false,
    }
}

fn snapshot_matches_exact_latch_runtime(s: &PairingScope, latched: &LatchedPre) -> (r: bool)
    ensures
        r == snapshot_matches_latch(*s, *latched),
{
    match find_at_path_exec(s, &latched.pre_json) {
        Some(k) => {
            let c = &s.pres[k];
            let host_ok = match latched.host_process_id {
                Some(h) => h != 0 && c.host_process_id == Some(h),
                None => true,
            };
            str_equal(c.instance_id.as_str(), latched.instance_id.as_str()) && host_ok && c.has_live_owner
        },
        None => false,
    }
}

fn snapshot_file_has_released_current_owner(s: &PairingScope, path: &PathModel) -> (r: bool)
    ensures
        r == released_at(*s, path@),
{
    match find_at_path_exec(s, path) {
        Some(k) => s.pres[k].has_released_owner,
        None => false,
    }
}

/// A restored latch after its runtime proved ownership: the same latch, confirmed.
pub open spec fn confirmed(l: LatchedPre) -> LatchedPre {
    LatchedPre { readiness: LatchedPreReadiness::Confirmed, ..l }
}

/// Promotes a restored locator only once the exact PRE runtime proves it owns that path; a
/// stale snapshot or lease left by a previous process never does.
pub fn confirm_restored_latch_runtime(s: &PairingScope, latched: &mut Option<LatchedPre>) -> (r: bool)
    ensures
        match *old(latched) {
            None => !r && *final(latched) == *old(latched),
            Some(l) => if l.readiness == LatchedPreReadiness::Confirmed {
                r && *final(latched) == *old(latched)
            } else if snapshot_matches_latch(*s, l) {
                r && *final(latched) == Some(confirmed(l))
            } else {
                !r && *final(latched) == *old(latched)
            },
        },
{
    match latched {
        None => false,
        Some(l) => {
            if l.readiness == LatchedPreReadiness::Confirmed {
                return true;
            }
            if !snapshot_matches_exact_latch_runtime(s, l) {
                return false;
            }
            l.readiness = LatchedPreReadiness::Confirmed;
            true
        },
    }
}

/// What an existing latch decides for pair name `name`.
pub enum LatchDecision {
    /// No usable latch: resolve afresh.
    NoLatch,
    /// A restored latch still waits for its runtime: no target yet.
    Waiting,
    /// The latched PRE is the target.
    UseLatch,
}

pub open spec fn latch_decision(s: PairingScope, name: Seq<char>, l: Option<LatchedPre>) -> LatchDecision {
    match l {
        None => LatchDecision::NoLatch,
        Some(l) => if l.name@ != name {
            LatchDecision::NoLatch
        } else if l.readiness == LatchedPreReadiness::RestoredWaiting && !snapshot_matches_latch(s, l) {
            LatchDecision::Waiting
        } else if released_at(s, l.pre_json@) {
            LatchDecision::NoLatch
        } else {
            LatchDecision::UseLatch
        },
    }
}

/// The latch after consulting it for `name`: a restored latch whose runtime now proves
/// ownership becomes confirmed; otherwise it is unchanged.
pub open spec fn latch_after(s: PairingScope, name: Seq<char>, l: Option<LatchedPre>) -> Option<LatchedPre> {
    match l {
        Some(x) => if x.name@ == name && x.readiness == LatchedPreReadiness::RestoredWaiting
            && snapshot_matches_latch(s, x) {
            Some(confirmed(x))
        } else {
            l
        },
        None => l,
    }
}

/// `sel` designates the latched PRE `l`.
pub open spec fn latch_selected_is(sel: SelectedPre, l: LatchedPre) -> bool {
    &&& sel.instance_id@ == l.instance_id@
    &&& sel.pre_json@ == l.pre_json@
    &&& sel.project_dir@ == l.project_dir@
    &&& osv(sel.daw_session_id) == osv(l.daw_session_id)
    &&& sel.host_process_id == l.host_process_id
}

enum LatchedTarget {
    NoTarget,
    RestoredWaiting,
    Selected(SelectedPre),
}

fn selected_from_latch(s: &PairingScope, pair_pre_name: &str, latched: &mut Option<LatchedPre>) -> (t: LatchedTarget)
    ensures
        *final(latched) == latch_after(*s, pair_pre_name@, *old(latched)),
        match latch_decision(*s, pair_pre_name@, *old(latched)) {
            LatchDecision::NoLatch => t is NoTarget,
            LatchDecision::Waiting => t is RestoredWaiting,
            LatchDecision::UseLatch => t matches LatchedTarget::Selected(sel) && latch_selected_is(
                sel,
                old(latched).unwrap(),
            ),
        },
{
    let restored = match latched {
        None => return LatchedTarget::NoTarget,
        Some(l) => {
            if !str_equal(l.name.as_str(), pair_pre_name) {
                return LatchedTarget::NoTarget;
            }
            l.readiness == LatchedPreReadiness::RestoredWaiting
        },
    };
    if restored && !confirm_restored_latch_runtime(s, latched) {
        return LatchedTarget::RestoredWaiting;
    }
    match latched {
        None => LatchedTarget::NoTarget,
        Some(l) => {
            if snapshot_file_has_released_current_owner(s, &l.pre_json) {
                return LatchedTarget::NoTarget;
            }
            LatchedTarget::Selected(
                SelectedPre {
                    instance_id: copy_string(&l.instance_id),
                    pre_json: l.pre_json.copy(),
                    project_dir: l.project_dir.copy(),
                    daw_session_id: copy_opt_string(&l.daw_session_id),
                    host_process_id: l.host_process_id,
                },
            )
        },
    }
}

/// A latched runtime stays in scope for any POST of its host process; otherwise it must fit
/// the POST's scope like any candidate.
pub open spec fn latch_in_post_scope(s: PairingScope, l: LatchedPre, hash: Seq<char>, post_daw: Seq<char>) -> bool {
    in_explicit_scope(
        s,
        path_file_name(l.project_dir@),
        osv(l.daw_session_id),
        l.host_process_id,
        hash,
        post_daw,
        s.host(),
    )
}

fn selected_from_latch_is_in_post_scope(
    s: &PairingScope,
    sel: &SelectedPre,
    post_project_hash: &str,
    post_daw_session_id: &str,
) -> (r: bool)
    ensures
        r == in_explicit_scope(
            *s,
            path_file_name(sel.project_dir@),
            osv(sel.daw_session_id),
            sel.host_process_id,
            post_project_hash@,
            post_daw_session_id@,
            s.host(),
        ),
{
    let host = s.host_process_id;
    if host != 0 && sel.host_process_id == Some(host) {
        return true;
    }
    if exact_daw_selection_is_allowed(s, sel, post_project_hash, post_daw_session_id, host) {
        return true;
    }
    if same_host_single_post_project_is_allowed(s, post_project_hash, host, sel.host_process_id) {
        return true;
    }
    post_daw_session_id.is_empty() && sel.daw_session_id.is_none() && selected_belongs_to_project(
        sel,
        post_project_hash,
    )
}

fn selected_from_latch_for_post_project(
    s: &PairingScope,
    pair_pre_name: &str,
    post_project_hash: &str,
    post_daw_session_id: &str,
    latched: &mut Option<LatchedPre>,
) -> (t: LatchedTarget)
    ensures
        *final(latched) == latch_after(*s, pair_pre_name@, *old(latched)),
        match latch_decision(*s, pair_pre_name@, *old(latched)) {
            LatchDecision::NoLatch => t is NoTarget,
            LatchDecision::Waiting => t is RestoredWaiting,
            LatchDecision::UseLatch => if latch_in_post_scope(
                *s,
                old(latched).unwrap(),
                post_project_hash@,
                post_daw_session_id@,
            ) {
                t matches LatchedTarget::Selected(sel) && latch_selected_is(sel, old(latched).unwrap())
            } else {
                t is NoTarget
            },
        },
{
    match selected_from_latch(s, pair_pre_name, latched) {
        LatchedTarget::Selected(sel) => {
            if selected_from_latch_is_in_post_scope(s, &sel, post_project_hash, post_daw_session_id) {
                LatchedTarget::Selected(sel)
            } else {
                LatchedTarget::NoTarget
            }
        },
        LatchedTarget::RestoredWaiting => LatchedTarget::RestoredWaiting,
        LatchedTarget::NoTarget => LatchedTarget::NoTarget,
    }
}

/// Resolves the Arm/Keep target, preferring an established latch for the same pair name. Once
/// paired, the latched instance outweighs transient freshness or name reads of `pre.json`; a
/// restored latch that still waits for its runtime yields no target.
pub fn resolve_arm_target(s: &PairingScope, pair_pre_name: &str, latched: &mut Option<LatchedPre>) -> (r: Option<SelectedPre>)
    ensures
        *final(latched) == latch_after(*s, pair_pre_name@, *old(latched)),
        match latch_decision(*s, pair_pre_name@, *old(latched)) {
            LatchDecision::UseLatch => r matches Some(sel) && latch_selected_is(sel, old(latched).unwrap()),
            LatchDecision::Waiting => r is None,
            LatchDecision::NoLatch => selected_opt_is(*s, r, core_spec(*s, pair_pre_name@, false)),
        },
{
    match selected_from_latch(s, pair_pre_name, latched) {
        LatchedTarget::Selected(sel) => return Some(sel),
        LatchedTarget::RestoredWaiting => return None,
        LatchedTarget::NoTarget => {},
    }
    select_target_pre_for_arm(s, pair_pre_name)
}

/// The latch-aware POST-scoped Arm/Keep target: the latched PRE while it stays in the POST's
/// scope, nothing while a restored latch waits, and otherwise the strict scoped selection.
pub open spec fn resolve_for_post_spec(
    s: PairingScope,
    name: Seq<char>,
    hash: Seq<char>,
    post_daw: Seq<char>,
    l: Option<LatchedPre>,
    r: Option<SelectedPre>,
) -> bool {
    match latch_decision(s, name, l) {
        LatchDecision::Waiting => r is None,
        LatchDecision::UseLatch => if latch_in_post_scope(s, l.unwrap(), hash, post_daw) {
            r matches Some(sel) && latch_selected_is(sel, l.unwrap())
        } else {
            selected_opt_is(s, r, core_for_post_spec(s, name, hash, post_daw, false))
        },
        LatchDecision::NoLatch => selected_opt_is(s, r, core_for_post_spec(s, name, hash, post_daw, false)),
    }
}

/// POST-project-scoped Arm/Keep target, preferring an established latch.
pub fn resolve_arm_target_for_post_project(
    s: &PairingScope,
    pair_pre_name: &str,
    post_project_hash: &str,
    latched: &mut Option<LatchedPre>,
) -> (r: Option<SelectedPre>)
    ensures
        *final(latched) == latch_after(*s, pair_pre_name@, *old(latched)),
        resolve_for_post_spec(*s, pair_pre_name@, post_project_hash@, Seq::empty(), *old(latched), r),
{
    proof {
        reveal_strlit("");
        assert(""@ =~= Seq::<char>::empty());
    }
    resolve_arm_target_for_post_project_in_session(s, pair_pre_name, post_project_hash, "", latched)
}

/// POST-project-scoped Arm/Keep target with DAW document identity, preferring an established
/// latch.
pub fn resolve_arm_target_for_post_project_in_session(
    s: &PairingScope,
    pair_pre_name: &str,
    post_project_hash: &str,
    post_daw_session_id: &str,
    latched: &mut Option<LatchedPre>,
) -> (r: Option<SelectedPre>)
    ensures
        *final(latched) == latch_after(*s, pair_pre_name@, *old(latched)),
        resolve_for_post_spec(*s, pair_pre_name@, post_project_hash@, post_daw_session_id@, *old(latched), r),
{
    match selected_from_latch_for_post_project(s, pair_pre_name, post_project_hash, post_daw_session_id, latched) {
        LatchedTarget::Selected(sel) => return Some(sel),
        LatchedTarget::RestoredWaiting => return None,
        LatchedTarget::NoTarget => {},
    }
    select_target_pre_core_for_post_project(s, pair_pre_name, post_project_hash, post_daw_session_id, false)
}

} // verus!

verus! {

// ── Laws ────────────────────────────────────────────────────────────────────

proof fn lemma_filter_member<A>(s: Seq<A>, p: spec_fn(A) -> bool, i: int)
    requires
        0 <= i < s.filter(p).len(),
    ensures
        p(s.filter(p)[i]),
        s.contains(s.filter(p)[i]),
{
    s.lemma_filter_pred(p, i);
    assert(s.filter(p).contains(s.filter(p)[i]));
    s.lemma_filter_contains_rev(p, s.filter(p)[i]);
}

proof fn lemma_filter_singleton<A>(s: Seq<A>, p: spec_fn(A) -> bool, j: int)
    requires
        s.filter(p).len() == 1,
        0 <= j < s.len(),
        p(s[j]),
    ensures
        s[j] == s.filter(p)[0],
{
    s.lemma_filter_contains(p, j);
    let k = choose|k: int| 0 <= k < s.filter(p).len() && s.filter(p)[k] == s[j];
    assert(k == 0);
}

/// Strict selection never guesses: when it selects a PRE, that PRE is eligible for the name,
/// and every eligible discovered PRE is that one.
pub proof fn lemma_selection_is_the_only_eligible(s: PairingScope, name: Seq<char>, require_active: bool)
    requires
        core_spec(s, name, require_active) is Some,
    ensures
        eligible(s, core_spec(s, name, require_active)->0, name, require_active),
        s.pres().contains(core_spec(s, name, require_active)->0),
        forall|j: int|
            0 <= j < s.pres().len() && eligible(s, #[trigger] s.pres()[j], name, require_active)
                ==> s.pres()[j] == core_spec(s, name, require_active)->0,
{
    let e = Seq::<Seq<char>>::empty();
    let z = Seq::<char>::empty();
    let p = |c: PreCandidate| match_pred(s, c, name, require_active, z, z, e, MatchMode::All);
    assert(matching(s, name, require_active, z, z, e, MatchMode::All) == s.pres().filter(p));
    lemma_filter_member(s.pres(), p, 0);
    assert forall|j: int|
        0 <= j < s.pres().len() && eligible(s, #[trigger] s.pres()[j], name, require_active)
            implies s.pres()[j] == core_spec(s, name, require_active)->0 by {
        assert(p(s.pres()[j]));
        lemma_filter_singleton(s.pres(), p, j);
    }
}

/// A PRE the display path selects (active) is eligible for Arm/Keep too.
pub proof fn lemma_display_target_is_armable(s: PairingScope, c: PreCandidate, name: Seq<char>)
    requires
        eligible(s, c, name, true),
    ensures
        eligible(s, c, name, false),
{
}

/// POST-scoped selection never invents a target: whatever it selects is a discovered PRE that
/// is eligible for the name.
pub proof fn lemma_post_scoped_selection_is_eligible(
    s: PairingScope,
    name: Seq<char>,
    hash: Seq<char>,
    post_daw: Seq<char>,
    require_active: bool,
)
    requires
        core_for_post_spec(s, name, hash, post_daw, require_active) is Some,
    ensures
        eligible(s, core_for_post_spec(s, name, hash, post_daw, require_active)->0, name, require_active),
        s.pres().contains(core_for_post_spec(s, name, hash, post_daw, require_active)->0),
{
    let e = Seq::<Seq<char>>::empty();
    let dirs = discover_spec(s, hash);
    let r = core_for_post_spec(s, name, hash, post_daw, require_active)->0;
    let pd = |c: PreCandidate| match_pred(s, c, name, require_active, hash, post_daw, e, MatchMode::SameDaw);
    let pa = |c: PreCandidate| match_pred(s, c, name, require_active, hash, post_daw, e, MatchMode::All);
    let ph = |c: PreCandidate| match_pred(s, c, name, require_active, hash, post_daw, e, MatchMode::SameHost);
    let psh = |c: PreCandidate| match_pred(s, c, name, require_active, hash, post_daw, dirs, MatchMode::ScopedSameHost);
    let ps = |c: PreCandidate| match_pred(s, c, name, require_active, hash, post_daw, dirs, MatchMode::Scoped);
    assert(matching(s, name, require_active, hash, post_daw, e, MatchMode::SameDaw) == s.pres().filter(pd));
    assert(matching(s, name, require_active, hash, post_daw, e, MatchMode::All) == s.pres().filter(pa));
    assert(matching(s, name, require_active, hash, post_daw, e, MatchMode::SameHost) == s.pres().filter(ph));
    assert(matching(s, name, require_active, hash, post_daw, dirs, MatchMode::ScopedSameHost) == s.pres().filter(psh));
    assert(matching(s, name, require_active, hash, post_daw, dirs, MatchMode::Scoped) == s.pres().filter(ps));
    if s.pres().filter(pd).len() > 0 {
        lemma_filter_member(s.pres(), pd, 0);
    } else if s.pres().filter(pa).len() == 1 && !cand_guarded(s, s.pres().filter(pa)[0], hash, post_daw) {
        lemma_filter_member(s.pres(), pa, 0);
    } else if s.pres().filter(ph).len() > 0 {
        if s.pres().filter(ph).len() == 1 && !cand_guarded(s, s.pres().filter(ph)[0], hash, post_daw) {
            lemma_filter_member(s.pres(), ph, 0);
        } else {
            lemma_filter_member(s.pres(), psh, 0);
        }
    } else {
        lemma_filter_member(s.pres(), ps, 0);
    }
}

/// Consulting a latch does not change the decision a later consultation makes: the latch the
/// resolver leaves behind decides exactly as the latch it found.
pub proof fn lemma_latch_decision_stable(s: PairingScope, name: Seq<char>, l: Option<LatchedPre>)
    ensures
        latch_decision(s, name, latch_after(s, name, l)) == latch_decision(s, name, l),
        latch_after(s, name, latch_after(s, name, l)) == latch_after(s, name, l),
{
}

/// A latch taken for one pair name never decides for another name.
pub proof fn lemma_latch_only_for_its_name(s: PairingScope, name: Seq<char>, l: LatchedPre)
    requires
        l.name@ != name,
    ensures
        latch_decision(s, name, Some(l)) == LatchDecision::NoLatch,
        latch_after(s, name, Some(l)) == Some(l),
{
}

} // verus!
