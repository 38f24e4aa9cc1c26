//! The single validation layer for restored identities (project hash, instance id, DAW
//! session id) before they become path components.
//!
//! A component is path-safe when it is non-empty, at most [`MAX_COMPONENT_LEN`] characters long,
//! made only of ASCII letters, digits and `-`, and does not contain the reserved quarantine
//! marker [`QUARANTINE_PREFIX`]. Every path builder passes its components through
//! [`guard_path_component`], which lets safe components through unchanged and folds any other
//! value into a deterministic quarantine name `_q_<16 lowercase hex>` inside the base
//! directory. Identities read by the observation family are materialized instead: an unsafe
//! value is replaced by a fresh UUID. Every replacement is reported as a path event.
use sha2::Digest;
use vstd::prelude::*;
use vstd::utf8::encode_utf8;

use crate::text::{
    chars_contain_triple, chars_of, contains_triple, decimal, decimal_chars, hex_lower,
    hex_lower_chars, lemma_hex_lower_shape, push_all, push_str, string_from_chars,
};

verus! {

/// Prefix of every quarantine name. A valid UUID (hex digits and `-`) never contains it.
pub const QUARANTINE_PREFIX: &'static str = "_q_";

/// Upper bound on the length of a path component.
pub const MAX_COMPONENT_LEN: usize = 64;

/// The allowlisted characters: ASCII letters, ASCII digits and `-`.
pub open spec fn path_safe_char(c: char) -> bool {
    ('a' <= c <= 'z') || ('A' <= c <= 'Z') || ('0' <= c <= '9') || c == '-'
}

/// The reserved marker `_q_` occurs in `s`.
pub open spec fn has_quarantine_marker(s: Seq<char>) -> bool {
    contains_triple(s, '_', 'q', '_')
}

/// Path-safety of a component.
pub open spec fn path_safe(s: Seq<char>) -> bool {
    &&& 0 < s.len() <= MAX_COMPONENT_LEN
    &&& forall|i: int| 0 <= i < s.len() ==> path_safe_char(#[trigger] s[i])
    &&& !has_quarantine_marker(s)
}

/// Length in bytes of the UTF-8 encoding (as `str::len` reports it).
pub open spec fn utf8_len(s: Seq<char>) -> nat {
    (encode_utf8(s).len() as usize) as nat
}

/// The SHA-256 digest of `data`.
pub uninterp spec fn sha256_digest(data: Seq<u8>) -> Seq<u8>;

/// The deterministic quarantine name of a raw component: the marker followed by the
/// lowercase hex of the first 8 bytes of the SHA-256 digest of its UTF-8 bytes.
pub open spec fn quarantine_name_of(raw: Seq<char>) -> Seq<char> {
    seq!['_', 'q', '_'] + hex_lower(sha256_digest(encode_utf8(raw)).subrange(0, 8))
}

/// The shape of `Uuid::to_string()`: 36 characters, `-` at positions 8, 13, 18 and 23 and
/// lowercase hex digits elsewhere.
pub open spec fn is_hyphenated_uuid_text(s: Seq<char>) -> bool {
    &&& s.len() == 36
    &&& forall|i: int|
        0 <= i < 36 ==> {
            let c = #[trigger] s[i];
            if i == 8 || i == 13 || i == 18 || i == 23 {
                c == '-'
            } else {
                ('0' <= c <= '9') || ('a' <= c <= 'f')
            }
        }
}

/// `sha2::Sha256::digest`: the 32-byte SHA-256 digest of `data`. The digest is named, not
/// stated; only its length is claimed.
#[verifier::external_body]
fn sha256(data: &[u8]) -> (d: Vec<u8>)
    ensures
        d@ == sha256_digest(data@),
        d@.len() == 32,
{
    sha2::Sha256::digest(data).to_vec()
}

/// `uuid::Uuid::new_v4().to_string()`: a random version-4 UUID in its hyphenated lowercase
/// form. Which UUID comes back is left open; its textual shape is claimed.
#[verifier::external_body]
fn fresh_uuid_v4_text() -> (s: String)
    ensures
        is_hyphenated_uuid_text(s@),
{
    uuid::Uuid::new_v4().to_string()
}

/// Whether `c` is allowlisted.
pub fn is_path_safe_char(c: char) -> (r: bool)
    ensures
        r == path_safe_char(c),
{
    ('a' <= c && c <= 'z') || ('A' <= c && c <= 'Z') || ('0' <= c && c <= '9') || c == '-'
}

fn all_path_safe_chars(v: &[char]) -> (r: bool)
    ensures
        r == (forall|i: int| 0 <= i < v@.len() ==> path_safe_char(#[trigger] v@[i])),
{
    let mut i: usize = 0;
    while i < v.len()
        invariant
            i <= v.len(),
            forall|j: int| 0 <= j < i ==> path_safe_char(#[trigger] v@[j]),
        decreases v.len() - i,
    {
        if !is_path_safe_char(v[i]) {
            return false;
        }
        i = i + 1;
    }
    true
}

/// Whether `s` can be used as a path component unchanged.
pub fn is_path_safe_component(s: &str) -> (r: bool)
    ensures
        r == path_safe(s@),
{
    let v = chars_of(s);
    v.len() > 0 && v.len() <= MAX_COMPONENT_LEN && all_path_safe_chars(v.as_slice())
        && !chars_contain_triple(v.as_slice(), '_', 'q', '_')
}

/// Whether `s` is a quarantine name (contains the reserved marker).
pub fn is_quarantine_component(s: &str) -> (r: bool)
    ensures
        r == has_quarantine_marker(s@),
{
    let v = chars_of(s);
    chars_contain_triple(v.as_slice(), '_', 'q', '_')
}

/// The deterministic quarantine name of `raw`.
pub fn quarantine_name(raw: &str) -> (name: String)
    ensures
        name@ == quarantine_name_of(raw@),
        is_quarantine_name_shape(name@),
{
    let digest = sha256(raw.as_bytes());
    let head = vstd::slice::slice_subrange(digest.as_slice(), 0, 8);
    let hex = hex_lower_chars(head);
    let mut v: Vec<char> = Vec::new();
    v.push('_');
    v.push('q');
    v.push('_');
    push_all(&mut v, hex.as_slice());
    assert(v@ =~= seq!['_', 'q', '_'] + hex@);
    proof {
        lemma_quarantine_name_shape(raw@);
    }
    string_from_chars(v.as_slice())
}

/// A surfaced path-identity anomaly. `instance == Some(id)` routes it to that instance only;
/// `None` is a global event any instance may surface.
pub struct PathEvent {
    pub instance: Option<String>,
    pub msg: String,
}

/// The queue of surfaced path events, oldest first.
pub struct PathEventSink {
    events: Vec<PathEvent>,
}

pub open spec fn event_view(e: PathEvent) -> (Option<Seq<char>>, Seq<char>) {
    (e.instance.deep_view(), e.msg@)
}

impl View for PathEventSink {
    type V = Seq<(Option<Seq<char>>, Seq<char>)>;

    closed spec fn view(&self) -> Seq<(Option<Seq<char>>, Seq<char>)> {
        self.events@.map_values(|e: PathEvent| event_view(e))
    }
}

/// Whether an event tagged `event_instance` may be surfaced by `my_instance`: global events
/// go to anyone, tagged events only to their own instance.
pub open spec fn routes_to(event_instance: Option<Seq<char>>, my_instance: Option<Seq<char>>) -> bool {
    match event_instance {
        None => true,
        Some(e) => my_instance == Some(e),
    }
}

/// What the guard wall makes of a component: the component itself when it is path-safe,
/// its quarantine name otherwise.
pub open spec fn guarded_component(c: Seq<char>) -> Seq<char> {
    if path_safe(c) {
        c
    } else {
        quarantine_name_of(c)
    }
}

/// The events the guard wall records for a component at `ctx`: none for a path-safe one, one
/// global event otherwise.
pub open spec fn guard_events(ctx: Seq<char>, c: Seq<char>) -> Seq<(Option<Seq<char>>, Seq<char>)> {
    if path_safe(c) {
        Seq::empty()
    } else {
        seq![(None, guard_event_message(ctx, utf8_len(c)))]
    }
}

/// Message of a guard-wall quarantine event.
pub open spec fn guard_event_message(ctx: Seq<char>, len: nat) -> Seq<char> {
    "invalid-path: path-unsafe component quarantined at "@ + ctx + " (len="@ + decimal(len) + ")"@
}

/// Message of an identity replaced by a fresh UUID.
pub open spec fn materialize_event_message(ctx: Seq<char>, fresh: Seq<char>, len: nat) -> Seq<char> {
    "invalid-identity: path-unsafe "@ + ctx + " substituted with fresh "@ + fresh + " (len="@
        + decimal(len) + ")"@
}

impl PathEventSink {
    /// An empty queue.
    pub fn new() -> (s: PathEventSink)
        ensures
            s@ == Seq::<(Option<Seq<char>>, Seq<char>)>::empty(),
    {
        let s = PathEventSink { events: Vec::new() };
        assert(s@ =~= Seq::<(Option<Seq<char>>, Seq<char>)>::empty());
        s
    }

    /// Number of queued events.
    pub fn len(&self) -> (n: usize)
        ensures
            n == self@.len(),
    {
        self.events.len()
    }

    fn push_event(&mut self, instance: Option<String>, msg: String)
        ensures
            final(self)@ == old(self)@.push((instance.deep_view(), msg@)),
    {
        let ghost before = self.events@;
        let e = PathEvent { instance, msg };
        self.events.push(e);
        assert(self.events@.map_values(|e: PathEvent| event_view(e)) =~= before.map_values(
            |e: PathEvent| event_view(e),
        ).push(event_view(e)));
    }
}

fn opt_str_to_string(s: Option<&str>) -> (r: Option<String>)
    ensures
        r.deep_view() == match s {
            Some(v) => Some(v@),
            None => None::<Seq<char>>,
        },
{
    match s {
        Some(v) => Some(v.to_owned()),
        None => None,
    }
}

pub open spec fn opt_str_view(s: Option<&str>) -> Option<Seq<char>> {
    match s {
        Some(v) => Some(v@),
        None => None,
    }
}

/// Surfaces an anomaly without instance context (a global wall event).
pub fn surface_path_event(sink: &mut PathEventSink, msg: &str)
    ensures
        final(sink)@ == old(sink)@.push((None, msg@)),
{
    sink.push_event(None, msg.to_owned());
}

/// Surfaces an anomaly, routed to `instance` when it is given.
pub fn surface_path_event_for(sink: &mut PathEventSink, instance: Option<&str>, msg: &str)
    ensures
        final(sink)@ == old(sink)@.push((opt_str_view(instance), msg@)),
{
    let tag = opt_str_to_string(instance);
    sink.push_event(tag, msg.to_owned());
}

/// Removes every queued event and returns their messages, oldest first.
pub fn drain_path_events(sink: &mut PathEventSink) -> (msgs: Vec<String>)
    ensures
        msgs@.map_values(|m: String| m@) == old(sink)@.map_values(
            |e: (Option<Seq<char>>, Seq<char>)| e.1,
        ),
        final(sink)@.len() == 0,
{
    let mut msgs: Vec<String> = Vec::new();
    let mut i: usize = 0;
    let n = sink.events.len();
    while i < n
        invariant
            n == sink.events@.len(),
            sink@ == old(sink)@,
            i <= n,
            msgs@.len() == i,
            forall|j: int| 0 <= j < i ==> (#[trigger] msgs@[j])@ == old(sink)@[j].1,
        decreases n - i,
    {
        let m = sink.events[i].msg.clone();
        msgs.push(m);
        assert(old(sink)@[i as int].1 == sink.events@[i as int].msg@);
        i = i + 1;
    }
    assert(msgs@.map_values(|m: String| m@) =~= old(sink)@.map_values(
        |e: (Option<Seq<char>>, Seq<char>)| e.1,
    ));
    sink.events = Vec::new();
    assert(sink@ =~= Seq::<(Option<Seq<char>>, Seq<char>)>::empty());
    msgs
}

fn event_routes(e: &PathEvent, my_instance: Option<&str>) -> (r: bool)
    ensures
        r == routes_to(e.instance.deep_view(), opt_str_view(my_instance)),
{
    match (&e.instance, my_instance) {
        (None, _) => true,
        (Some(ev), Some(mine)) => crate::path_model::str_equal(ev.as_str(), mine),
        (Some(_), None) => false,
    }
}

/// Pops the oldest event that `my_instance` may surface: with `Some(id)`, an event tagged with
/// `id` or a global one; with `None`, global events only. Events tagged for another instance
/// are never returned.
pub fn take_path_event(sink: &mut PathEventSink, my_instance: Option<&str>) -> (msg: Option<String>)
    ensures
        match msg {
            Some(m) => exists|i: int|
                0 <= i < old(sink)@.len() && routes_to(
                    (#[trigger] old(sink)@[i]).0,
                    opt_str_view(my_instance),
                ) && (forall|j: int|
                    0 <= j < i ==> !routes_to(old(sink)@[j].0, opt_str_view(my_instance)))
                    && m@ == old(sink)@[i].1 && final(sink)@ == old(sink)@.remove(i),
            None => final(sink)@ == old(sink)@ && forall|j: int|
                0 <= j < old(sink)@.len() ==> !routes_to(
                    (#[trigger] old(sink)@[j]).0,
                    opt_str_view(my_instance),
                ),
        },
{
    let n = sink.events.len();
    let mut i: usize = 0;
    while i < n
        invariant
            n == sink.events@.len(),
            sink@ == old(sink)@,
            i <= n,
            forall|j: int|
                0 <= j < i ==> !routes_to(old(sink)@[j].0, opt_str_view(my_instance)),
        decreases n - i,
    {
        assert(old(sink)@[i as int] == event_view(sink.events@[i as int]));
        if event_routes(&sink.events[i], my_instance) {
            let ghost before = sink.events@;
            let e = sink.events.remove(i);
            assert(sink.events@.map_values(|e: PathEvent| event_view(e)) =~= before.map_values(
                |e: PathEvent| event_view(e),
            ).remove(i as int));
            return Some(e.msg);
        }
        i = i + 1;
    }
    None
}

/// The canonical quarantine shape: the marker followed by 16 lowercase hex digits. Such a
/// name is a single component that is neither `.` nor `..` and holds no separator.
pub open spec fn is_quarantine_name_shape(q: Seq<char>) -> bool {
    &&& q.len() == 19
    &&& q[0] == '_' && q[1] == 'q' && q[2] == '_'
    &&& forall|i: int|
        3 <= i < 19 ==> {
            let c = #[trigger] q[i];
            ('0' <= c <= '9') || ('a' <= c <= 'f')
        }
}

/// A quarantine-shaped name carries the marker, so it is never path-safe and is always
/// recognised as a quarantine component.
pub proof fn lemma_quarantine_shape_is_marked(q: Seq<char>)
    requires
        is_quarantine_name_shape(q),
    ensures
        has_quarantine_marker(q),
        !path_safe(q),
        forall|i: int| 0 <= i < q.len() ==> #[trigger] q[i] != '/' && q[i] != '\\' && q[i] != '.',
{
    assert(q[0] == '_');
    assert(!path_safe_char(q[0]));
    assert forall|i: int| 0 <= i < q.len() implies #[trigger] q[i] != '/' && q[i] != '\\' && q[i] != '.' by {
        if i >= 3 {
            assert(('0' <= q[i] <= '9') || ('a' <= q[i] <= 'f'));
        }
    }
}

proof fn lemma_quarantine_name_shape(raw: Seq<char>)
    requires
        sha256_digest(encode_utf8(raw)).len() == 32,
    ensures
        is_quarantine_name_shape(quarantine_name_of(raw)),
{
    let h = sha256_digest(encode_utf8(raw)).subrange(0, 8);
    lemma_hex_lower_shape(h);
    let q = quarantine_name_of(raw);
    assert(q[0] == '_' && q[1] == 'q' && q[2] == '_');
    assert(q[0] == '_');
    assert forall|i: int| 3 <= i < 19 implies {
        let c = #[trigger] q[i];
        ('0' <= c <= '9') || ('a' <= c <= 'f')
    } by {
        assert(q[i] == hex_lower(h)[i - 3]);
    }
}

/// The within-base wall in front of every path builder. A path-safe component comes back
/// unchanged and nothing is reported; any other component comes back as its deterministic
/// quarantine name and an invalid-path event naming `ctx` is queued.
pub fn guard_path_component(sink: &mut PathEventSink, component: &str, ctx: &str) -> (r: String)
    ensures
        r@ == guarded_component(component@),
        final(sink)@ == old(sink)@ + guard_events(ctx@, component@),
        path_safe(component@) ==> r@ == component@ && final(sink)@ == old(sink)@,
        !path_safe(component@) ==> is_quarantine_name_shape(r@) && !path_safe(r@),
        !path_safe(component@) ==> r@ == quarantine_name_of(component@) && final(sink)@
            == old(sink)@.push(
            (None, guard_event_message(ctx@, utf8_len(component@))),
        ),
{
    if is_path_safe_component(component) {
        assert(old(sink)@ + guard_events(ctx@, component@) == old(sink)@);
        component.to_owned()
    } else {
        let msg = guard_message(ctx, component.len());
        sink.push_event(None, msg);
        let q = quarantine_name(component);
        proof {
            lemma_quarantine_shape_is_marked(q@);
            assert(old(sink)@ + guard_events(ctx@, component@) == old(sink)@.push(
                (None, guard_event_message(ctx@, utf8_len(component@))),
            ));
        }
        q
    }
}

fn guard_message(ctx: &str, len: usize) -> (m: String)
    ensures
        m@ == guard_event_message(ctx@, len as nat),
{
    let mut v: Vec<char> = Vec::new();
    push_str(&mut v, "invalid-path: path-unsafe component quarantined at ");
    push_str(&mut v, ctx);
    push_str(&mut v, " (len=");
    let d = decimal_chars(len as u64);
    push_all(&mut v, d.as_slice());
    push_str(&mut v, ")");
    string_from_chars(v.as_slice())
}

fn materialize_message(ctx: &str, fresh: &str, len: usize) -> (m: String)
    ensures
        m@ == materialize_event_message(ctx@, fresh@, len as nat),
{
    let mut v: Vec<char> = Vec::new();
    push_str(&mut v, "invalid-identity: path-unsafe ");
    push_str(&mut v, ctx);
    push_str(&mut v, " substituted with fresh ");
    push_str(&mut v, fresh);
    push_str(&mut v, " (len=");
    let d = decimal_chars(len as u64);
    push_all(&mut v, d.as_slice());
    push_str(&mut v, ")");
    string_from_chars(v.as_slice())
}

pub proof fn lemma_uuid_text_is_path_safe(s: Seq<char>)
    requires
        is_hyphenated_uuid_text(s),
    ensures
        path_safe(s),
        !has_quarantine_marker(s),
{
    assert forall|i: int| 0 <= i < s.len() implies path_safe_char(#[trigger] s[i]) by {}
    if has_quarantine_marker(s) {
        let i = choose|i: int| 0 <= i && i + 3 <= s.len() && #[trigger] s[i] == '_' && s[i + 1] == 'q' && s[i + 2] == '_';
        assert(path_safe_char(s[i]));
    }
}

/// Materializes an identity read by the observation family (one check at its entry).
/// Empty (the normal state before restore) becomes a fresh UUID silently; a path-safe value
/// is kept; any other value becomes a fresh UUID and an invalid-identity event is queued.
pub fn materialize_observation_id(sink: &mut PathEventSink, raw: &str, ctx: &str) -> (id: String)
    ensures
        path_safe(id@),
        raw@.len() == 0 ==> is_hyphenated_uuid_text(id@) && final(sink)@ == old(sink)@,
        path_safe(raw@) ==> id@ == raw@ && final(sink)@ == old(sink)@,
        raw@.len() != 0 && !path_safe(raw@) ==> is_hyphenated_uuid_text(id@) && final(sink)@
            == old(sink)@.push(
            (None, materialize_event_message(ctx@, id@, utf8_len(raw@))),
        ),
{
    if raw.is_empty() {
        let fresh = fresh_uuid_v4_text();
        proof {
            lemma_uuid_text_is_path_safe(fresh@);
        }
        return fresh;
    }
    if is_path_safe_component(raw) {
        return raw.to_owned();
    }
    let fresh = fresh_uuid_v4_text();
    proof {
        lemma_uuid_text_is_path_safe(fresh@);
    }
    let msg = materialize_message(ctx, fresh.as_str(), raw.len());
    sink.push_event(None, msg);
    fresh
}

/// Materializes an identity at the restore entry point. Empty stays empty (the "unset, created
/// on enable" contract); a path-safe value is kept; any other value becomes a fresh UUID and
/// an invalid-identity event routed to `instance_tag` is queued.
pub fn materialize_restore_field(
    sink: &mut PathEventSink,
    raw: &str,
    ctx: &str,
    instance_tag: Option<&str>,
) -> (id: String)
    ensures
        raw@.len() == 0 ==> id@.len() == 0 && final(sink)@ == old(sink)@,
        path_safe(raw@) ==> id@ == raw@ && final(sink)@ == old(sink)@,
        raw@.len() != 0 && !path_safe(raw@) ==> is_hyphenated_uuid_text(id@) && path_safe(id@)
            && final(sink)@ == old(sink)@.push(
            (
                opt_str_view(instance_tag),
                materialize_event_message(ctx@, id@, utf8_len(raw@)),
            ),
        ),
{
    if raw.is_empty() {
        return String::new();
    }
    if is_path_safe_component(raw) {
        return raw.to_owned();
    }
    let fresh = fresh_uuid_v4_text();
    proof {
        lemma_uuid_text_is_path_safe(fresh@);
    }
    let msg = materialize_message(ctx, fresh.as_str(), raw.len());
    let tag = opt_str_to_string(instance_tag);
    sink.push_event(tag, msg);
    fresh
}

/// Restore-time materialization of an identity cell: the cell ends up holding
/// [`materialize_restore_field`] of its value, and is rewritten only when that differs.
pub fn normalize_restore_cell(
    sink: &mut PathEventSink,
    cell: &mut String,
    ctx: &str,
    instance_tag: Option<&str>,
)
    ensures
        old(cell)@.len() == 0 ==> final(cell)@.len() == 0 && final(sink)@ == old(sink)@,
        path_safe(old(cell)@) ==> final(cell)@ == old(cell)@ && final(sink)@ == old(sink)@,
        old(cell)@.len() != 0 && !path_safe(old(cell)@) ==> is_hyphenated_uuid_text(final(cell)@)
            && final(sink)@ == old(sink)@.push(
            (
                opt_str_view(instance_tag),
                materialize_event_message(ctx@, final(cell)@, utf8_len(old(cell)@)),
            ),
        ),
{
    let current = cell.clone();
    let materialized = materialize_restore_field(sink, current.as_str(), ctx, instance_tag);
    if materialized != current {
        *cell = materialized;
    }
}

/// Observation-family materialization of a shared identity cell: the cell ends up holding
/// [`materialize_observation_id`] of its value, and is rewritten only when that differs.
pub fn normalize_observation_cell(sink: &mut PathEventSink, cell: &mut String, ctx: &str)
    ensures
        path_safe(final(cell)@),
        path_safe(old(cell)@) ==> final(cell)@ == old(cell)@ && final(sink)@ == old(sink)@,
        old(cell)@.len() == 0 ==> is_hyphenated_uuid_text(final(cell)@) && final(sink)@ == old(sink)@,
        old(cell)@.len() != 0 && !path_safe(old(cell)@) ==> is_hyphenated_uuid_text(final(cell)@)
            && final(sink)@ == old(sink)@.push(
            (None, materialize_event_message(ctx@, final(cell)@, utf8_len(old(cell)@))),
        ),
{
    let current = cell.clone();
    let materialized = materialize_observation_id(sink, current.as_str(), ctx);
    if materialized != current {
        *cell = materialized;
    }
}

} // verus!

verus! {

/// What the guard wall lets out is an inert single path component: non-empty, free of `/`,
/// `\`, NUL and `.`, and so never `.` or `..`. This holds of every path-safe component and of
/// every quarantine name, the two shapes `guard_path_component` returns.
pub proof fn lemma_guard_result_is_inert(r: Seq<char>)
    requires
        path_safe(r) || is_quarantine_name_shape(r),
    ensures
        r.len() > 0,
        forall|i: int| 0 <= i < r.len() ==> #[trigger] r[i] != '/' && r[i] != '\\' && r[i] != '\0' && r[i] != '.',
        r != "."@,
        r != ".."@,
{
    reveal_strlit(".");
    reveal_strlit("..");
    if path_safe(r) {
        assert forall|i: int| 0 <= i < r.len() implies #[trigger] r[i] != '/' && r[i] != '\\' && r[i] != '\0' && r[i] != '.' by {
            assert(path_safe_char(r[i]));
        }
    } else {
        lemma_quarantine_shape_is_marked(r);
        assert forall|i: int| 0 <= i < r.len() implies #[trigger] r[i] != '/' && r[i] != '\\' && r[i] != '\0' && r[i] != '.' by {
            if i >= 3 {
                assert(('0' <= r[i] <= '9') || ('a' <= r[i] <= 'f'));
            }
        }
    }
    if r == "."@ {
        assert(r[0] == '.');
    }
    if r == ".."@ {
        assert(r[0] == '.');
    }
}

} // verus!
