//! MARK and NOTE annotations of a Record pair: binding MARKs to the sample range of the dropped
//! WAV, and giving both sides of a pair one merged, time-ordered list.
use vstd::prelude::*;

use crate::plugin_data::{Annotation, AnnotationMark};
use crate::text::{chars_lex_lt, chars_of, lex_lt};

verus! {

/// The WAV position of a MARK at producer position `p`, when the WAV starts at producer
/// position `origin` and lasts `duration` samples: its offset from `origin` when that lies in
/// `0..=duration` (and fits `i64`), else none.
pub open spec fn wav_position(p: i64, origin: i64, duration: u64) -> Option<u64> {
    let d = p - origin;
    if i64::MIN <= d && 0 <= d && d <= i64::MAX && d <= duration {
        Some(d as u64)
    } else {
        None
    }
}

/// `a` with its MARK, if any, bound to the WAV.
pub open spec fn bound_annotation(a: Annotation, origin: i64, duration: u64) -> Annotation {
    match a.mark {
        Some(m) => Annotation {
            mark: Some(
                AnnotationMark {
                    wav_position_samples: wav_position(m.producer_position_samples, origin, duration),
                    ..m
                },
            ),
            ..a
        },
        None => a,
    }
}

fn copy_mark(m: &AnnotationMark) -> (r: AnnotationMark)
    ensures
        r == *m,
{
    AnnotationMark {
        schema_version: m.schema_version.clone(),
        id: m.id.clone(),
        basis: m.basis.clone(),
        producer_position_samples: m.producer_position_samples,
        clock_source: m.clock_source.clone(),
        wav_position_samples: m.wav_position_samples,
    }
}

/// A copy of an annotation.
pub fn copy_annotation(a: &Annotation) -> (r: Annotation)
    ensures
        r == *a,
{
    Annotation {
        t: a.t.clone(),
        memo: a.memo.clone(),
        mark: match &a.mark {
            Some(m) => Some(copy_mark(m)),
            None => None,
        },
    }
}

fn wav_position_exec(p: i64, origin: i64, duration: u64) -> (r: Option<u64>)
    ensures
        r == wav_position(p, origin, duration),
{
    match p.checked_sub(origin) {
        Some(d) => if d >= 0 && (d as u64) <= duration {
            Some(d as u64)
        } else {
            None
        },
        None => None,
    }
}

/// Binds every MARK to the WAV that starts at producer position `wav_origin_samples` and lasts
/// `wav_duration_samples`: its WAV position is its offset into the WAV, or none when it lies
/// outside. NOTEs are left as they are.
pub fn bind_annotation_marks_to_wav(annotations: &mut Vec<Annotation>, wav_origin_samples: i64, wav_duration_samples: u64)
    ensures
        final(annotations)@ == old(annotations)@.map_values(
            |a: Annotation| bound_annotation(a, wav_origin_samples, wav_duration_samples),
        ),
{
    let mut out: Vec<Annotation> = Vec::new();
    let mut i: usize = 0;
    while i < annotations.len()
        invariant
            i <= annotations@.len(),
            out@ == annotations@.subrange(0, i as int).map_values(
                |a: Annotation| bound_annotation(a, wav_origin_samples, wav_duration_samples),
            ),
        decreases annotations@.len() - i,
    {
        let a = &annotations[i];
        let b = match &a.mark {
            Some(m) => {
                let mut mark = copy_mark(m);
                mark.wav_position_samples = wav_position_exec(
                    m.producer_position_samples,
                    wav_origin_samples,
                    wav_duration_samples,
                );
                Annotation { t: a.t.clone(), memo: a.memo.clone(), mark: Some(mark) }
            },
            None => copy_annotation(a),
        };
        out.push(b);
        i = i + 1;
        assert(out@ == annotations@.subrange(0, i as int).map_values(
            |a: Annotation| bound_annotation(a, wav_origin_samples, wav_duration_samples),
        ));
    }
    assert(annotations@.subrange(0, annotations@.len() as int) == annotations@);
    *annotations = out;
}

/// `candidate` repeats `existing`: the same MARK id, or two NOTEs with the same time and memo.
pub open spec fn same_annotation(existing: Annotation, candidate: Annotation) -> bool {
    match (existing.mark, candidate.mark) {
        (Some(e), Some(c)) => e.id@ == c.id@,
        (None, None) => existing.t@ == candidate.t@ && existing.memo@ == candidate.memo@,
        _ => false,
    }
}

pub open spec fn repeats_any(s: Seq<Annotation>, x: Annotation) -> bool {
    exists|i: int| 0 <= i < s.len() && same_annotation(#[trigger] s[i], x)
}

/// `left` followed by each annotation of `right` that repeats none already merged.
pub open spec fn merged_annotations(left: Seq<Annotation>, right: Seq<Annotation>) -> Seq<Annotation>
    decreases right.len(),
{
    if right.len() == 0 {
        left
    } else {
        let m = merged_annotations(left, right.drop_last());
        if repeats_any(m, right.last()) {
            m
        } else {
            m.push(right.last())
        }
    }
}

/// `x` put into the time-ordered `s` after every annotation that is not later than it.
pub open spec fn insert_by_time(s: Seq<Annotation>, x: Annotation) -> Seq<Annotation>
    decreases s.len(),
{
    if s.len() == 0 {
        seq![x]
    } else if lex_lt(x.t@, s.last().t@) {
        insert_by_time(s.drop_last(), x).push(s.last())
    } else {
        s.push(x)
    }
}

/// `s` in time order; annotations of the same time keep their order (a stable sort).
pub open spec fn sort_by_time(s: Seq<Annotation>) -> Seq<Annotation>
    decreases s.len(),
{
    if s.len() == 0 {
        s
    } else {
        insert_by_time(sort_by_time(s.drop_last()), s.last())
    }
}

fn text_lt(a: &String, b: &String) -> (r: bool)
    ensures
        r == lex_lt(a@, b@),
{
    let va = chars_of(a.as_str());
    let vb = chars_of(b.as_str());
    chars_lex_lt(va.as_slice(), vb.as_slice())
}

fn same_annotation_exec(existing: &Annotation, candidate: &Annotation) -> (r: bool)
    ensures
        r == same_annotation(*existing, *candidate),
{
    match (&existing.mark, &candidate.mark) {
        (Some(e), Some(c)) => crate::path_model::str_equal(e.id.as_str(), c.id.as_str()),
        (None, None) => crate::path_model::str_equal(existing.t.as_str(), candidate.t.as_str())
            && crate::path_model::str_equal(existing.memo.as_str(), candidate.memo.as_str()),
        _ => false,
    }
}

fn repeats_any_exec(v: &Vec<Annotation>, x: &Annotation) -> (r: bool)
    ensures
        r == repeats_any(v@, *x),
{
    let mut i: usize = 0;
    while i < v.len()
        invariant
            i <= v@.len(),
            forall|j: int| 0 <= j < i ==> !same_annotation(#[trigger] v@[j], *x),
        decreases v@.len() - i,
    {
        if same_annotation_exec(&v[i], x) {
            return true;
        }
        i = i + 1;
    }
    false
}

fn insert_by_time_exec(v: &mut Vec<Annotation>, x: Annotation)
    ensures
        final(v)@ == insert_by_time(old(v)@, x),
{
    let ghost s = v@;
    let mut k: usize = v.len();
    assert(s.subrange(0, s.len() as int) == s);
    assert(insert_by_time(s, x) + s.subrange(s.len() as int, s.len() as int) == insert_by_time(s, x));
    while k > 0 && text_lt(&x.t, &v[k - 1].t)
        invariant
            v@ == s,
            k <= s.len(),
            insert_by_time(s, x) == insert_by_time(s.subrange(0, k as int), x) + s.subrange(k as int, s.len() as int),
        decreases k,
    {
        let ghost pre = s.subrange(0, k as int);
        assert(pre.drop_last() == s.subrange(0, k - 1));
        assert(pre.last() == s[k - 1]);
        assert(s.subrange(k - 1, s.len() as int) == seq![s[k - 1]] + s.subrange(k as int, s.len() as int));
        assert(insert_by_time(s.subrange(0, k - 1), x).push(s[k - 1]) + s.subrange(k as int, s.len() as int)
            == insert_by_time(s.subrange(0, k - 1), x) + s.subrange(k - 1, s.len() as int));
        k = k - 1;
    }
    let ghost pre = s.subrange(0, k as int);
    if k == 0 {
        assert(insert_by_time(pre, x) == seq![x]);
    } else {
        assert(insert_by_time(pre, x) == pre.push(x));
    }
    v.insert(k, x);
    assert(v@ == insert_by_time(s, x));
}

/// Gives both sides of a pair one annotation list: the left side's annotations, then each of
/// the right side's that repeats none already there, in time order with ties in that order.
pub fn synchronize_pair_annotations(left: &mut Vec<Annotation>, right: &mut Vec<Annotation>)
    ensures
        final(left)@ == sort_by_time(merged_annotations(old(left)@, old(right)@)),
        final(right)@ == final(left)@,
{
    let mut merged: Vec<Annotation> = Vec::new();
    let mut i: usize = 0;
    while i < left.len()
        invariant
            i <= left@.len(),
            merged@ == left@.subrange(0, i as int),
        decreases left@.len() - i,
    {
        merged.push(copy_annotation(&left[i]));
        i = i + 1;
    }
    assert(left@.subrange(0, left@.len() as int) == left@);
    let mut j: usize = 0;
    assert(right@.subrange(0, 0) == Seq::<Annotation>::empty());
    while j < right.len()
        invariant
            j <= right@.len(),
            merged@ == merged_annotations(left@, right@.subrange(0, j as int)),
        decreases right@.len() - j,
    {
        assert(right@.subrange(0, j + 1).drop_last() == right@.subrange(0, j as int));
        if !repeats_any_exec(&merged, &right[j]) {
            merged.push(copy_annotation(&right[j]));
        }
        j = j + 1;
    }
    assert(right@.subrange(0, right@.len() as int) == right@);
    let mut sorted: Vec<Annotation> = Vec::new();
    let mut k: usize = 0;
    assert(merged@.subrange(0, 0) == Seq::<Annotation>::empty());
    while k < merged.len()
        invariant
            k <= merged@.len(),
            sorted@ == sort_by_time(merged@.subrange(0, k as int)),
        decreases merged@.len() - k,
    {
        assert(merged@.subrange(0, k + 1).drop_last() == merged@.subrange(0, k as int));
        insert_by_time_exec(&mut sorted, copy_annotation(&merged[k]));
        k = k + 1;
    }
    assert(merged@.subrange(0, merged@.len() as int) == merged@);
    let mut copy: Vec<Annotation> = Vec::new();
    let mut c: usize = 0;
    while c < sorted.len()
        invariant
            c <= sorted@.len(),
            copy@ == sorted@.subrange(0, c as int),
        decreases sorted@.len() - c,
    {
        copy.push(copy_annotation(&sorted[c]));
        c = c + 1;
    }
    assert(sorted@.subrange(0, sorted@.len() as int) == sorted@);
    *left = sorted;
    *right = copy;
}

} // verus!

verus! {

/// No annotation of `s` is later than one after it.
pub open spec fn time_ordered(s: Seq<Annotation>) -> bool {
    forall|i: int, j: int| 0 <= i < j < s.len() ==> !lex_lt(#[trigger] s[j].t@, #[trigger] s[i].t@)
}

proof fn lemma_not_later_transitive(a: Seq<char>, b: Seq<char>, c: Seq<char>)
    requires
        !lex_lt(b, a),
        !lex_lt(c, b),
    ensures
        !lex_lt(c, a),
{
    crate::text::lemma_lex_total(a, b);
    crate::text::lemma_lex_total(b, c);
    crate::text::lemma_lex_transitive(a, b, c);
    crate::text::lemma_lex_asymmetric(a, c);
    crate::text::lemma_lex_irreflexive(a);
}

proof fn lemma_insert_by_time(s: Seq<Annotation>, x: Annotation)
    requires
        time_ordered(s),
    ensures
        time_ordered(insert_by_time(s, x)),
        insert_by_time(s, x).to_multiset() == s.to_multiset().insert(x),
    decreases s.len(),
{
    broadcast use vstd::seq_lib::group_to_multiset_ensures;

    if s.len() == 0 {
        assert(seq![x] == Seq::<Annotation>::empty().push(x));
    } else {
        let p = s.drop_last();
        let l = s.last();
        assert(s == p.push(l));
        if lex_lt(x.t@, l.t@) {
            assert(time_ordered(p));
            lemma_insert_by_time(p, x);
            let r = insert_by_time(p, x);
            assert forall|i: int| 0 <= i < r.len() implies !lex_lt(l.t@, #[trigger] r[i].t@) by {
                assert(r.contains(r[i]));
                assert(r.to_multiset().count(r[i]) > 0);
                if r[i] == x {
                    crate::text::lemma_lex_asymmetric(x.t@, l.t@);
                } else {
                    assert(p.to_multiset().count(r[i]) > 0);
                    assert(p.contains(r[i]));
                    let k = choose|k: int| 0 <= k < p.len() && p[k] == r[i];
                    assert(s[k] == r[i]);
                    assert(!lex_lt(s[s.len() - 1].t@, s[k].t@));
                }
            }
            assert(time_ordered(r.push(l)));
            assert(r.push(l).to_multiset() =~= s.to_multiset().insert(x));
        } else {
            assert forall|i: int| 0 <= i < s.len() implies !lex_lt(x.t@, #[trigger] s[i].t@) by {
                if i < s.len() - 1 {
                    assert(!lex_lt(s[s.len() - 1].t@, s[i].t@));
                    lemma_not_later_transitive(s[i].t@, l.t@, x.t@);
                }
            }
            assert(time_ordered(s.push(x)));
        }
    }
}

proof fn lemma_sort_by_time(s: Seq<Annotation>)
    ensures
        time_ordered(sort_by_time(s)),
        sort_by_time(s).to_multiset() == s.to_multiset(),
    decreases s.len(),
{
    broadcast use vstd::seq_lib::group_to_multiset_ensures;

    if s.len() > 0 {
        let p = s.drop_last();
        lemma_sort_by_time(p);
        lemma_insert_by_time(sort_by_time(p), s.last());
        assert(s == p.push(s.last()));
    }
}

proof fn lemma_ordered_is_sorted(s: Seq<Annotation>)
    requires
        time_ordered(s),
    ensures
        sort_by_time(s) == s,
    decreases s.len(),
{
    if s.len() > 0 {
        let p = s.drop_last();
        assert(time_ordered(p));
        lemma_ordered_is_sorted(p);
        if p.len() > 0 {
            assert(!lex_lt(s[s.len() - 1].t@, s[s.len() - 2].t@));
        }
        assert(s == p.push(s.last()));
    }
}

proof fn lemma_merge_keeps_prefix(left: Seq<Annotation>, right: Seq<Annotation>)
    ensures
        merged_annotations(left, right).len() >= left.len(),
        merged_annotations(left, right).subrange(0, left.len() as int) == left,
        forall|j: int| 0 <= j < right.len() ==> repeats_any(merged_annotations(left, right), #[trigger] right[j]),
    decreases right.len(),
{
    if right.len() > 0 {
        let r = right.drop_last();
        let m = merged_annotations(left, r);
        lemma_merge_keeps_prefix(left, r);
        let x = right.last();
        if !repeats_any(m, x) {
            assert(m.push(x).subrange(0, left.len() as int) == m.subrange(0, left.len() as int));
            assert(same_annotation(m.push(x)[m.len() as int], x));
        }
        let out = merged_annotations(left, right);
        assert forall|j: int| 0 <= j < right.len() implies repeats_any(out, #[trigger] right[j]) by {
            if j < right.len() - 1 {
                assert(r[j] == right[j]);
                assert(repeats_any(m, r[j]));
                let i = choose|i: int| 0 <= i < m.len() && same_annotation(#[trigger] m[i], r[j]);
                assert(out[i] == m[i]);
            }
        }
    }
}

proof fn lemma_merge_repeats(left: Seq<Annotation>, right: Seq<Annotation>)
    requires
        forall|j: int| 0 <= j < right.len() ==> left.contains(#[trigger] right[j]),
    ensures
        merged_annotations(left, right) == left,
    decreases right.len(),
{
    if right.len() > 0 {
        let r = right.drop_last();
        assert forall|j: int| 0 <= j < r.len() implies left.contains(#[trigger] r[j]) by {
            assert(r[j] == right[j]);
        }
        lemma_merge_repeats(left, r);
        let x = right.last();
        assert(left.contains(right[right.len() - 1]));
        let i = choose|i: int| 0 <= i < left.len() && left[i] == x;
        assert(same_annotation(left[i], x));
    }
}

/// Synchronizing a pair's annotations orders them by time and neither loses nor invents one:
/// the result is a reordering of the merged list, which starts with every annotation of the
/// left side and holds, for each annotation of the right side, one that it repeats.
/// Synchronizing an already synchronized pair changes nothing.
pub proof fn lemma_synchronized_annotations(left: Seq<Annotation>, right: Seq<Annotation>)
    ensures
        time_ordered(sort_by_time(merged_annotations(left, right))),
        sort_by_time(merged_annotations(left, right)).to_multiset() == merged_annotations(left, right).to_multiset(),
        merged_annotations(left, right).subrange(0, left.len() as int) == left,
        forall|j: int| 0 <= j < right.len() ==> repeats_any(merged_annotations(left, right), #[trigger] right[j]),
        sort_by_time(
            merged_annotations(
                sort_by_time(merged_annotations(left, right)),
                sort_by_time(merged_annotations(left, right)),
            ),
        ) == sort_by_time(merged_annotations(left, right)),
{
    let m = merged_annotations(left, right);
    lemma_sort_by_time(m);
    lemma_merge_keeps_prefix(left, right);
    let s = sort_by_time(m);
    assert forall|j: int| 0 <= j < s.len() implies s.contains(#[trigger] s[j]) by {}
    lemma_merge_repeats(s, s);
    lemma_ordered_is_sorted(s);
}

proof fn lemma_merged_from(left: Seq<Annotation>, right: Seq<Annotation>)
    ensures
        forall|k: int|
            0 <= k < merged_annotations(left, right).len() ==> left.contains(
                #[trigger] merged_annotations(left, right)[k],
            ) || right.contains(merged_annotations(left, right)[k]),
    decreases right.len(),
{
    if right.len() > 0 {
        let r = right.drop_last();
        lemma_merged_from(left, r);
        let m = merged_annotations(left, r);
        let out = merged_annotations(left, right);
        assert forall|k: int| 0 <= k < out.len() implies left.contains(#[trigger] out[k]) || right.contains(out[k]) by {
            if k < m.len() {
                assert(out[k] == m[k]);
                if r.contains(m[k]) {
                    let q = choose|q: int| 0 <= q < r.len() && r[q] == m[k];
                    assert(right[q] == m[k]);
                }
            } else {
                assert(out[k] == right[right.len() - 1]);
            }
        }
    }
}

proof fn lemma_merged_grows(left: Seq<Annotation>, right: Seq<Annotation>, x: Annotation)
    requires
        right.len() > 0,
        merged_annotations(left, right.drop_last()).contains(x),
    ensures
        merged_annotations(left, right).contains(x),
{
    let m = merged_annotations(left, right.drop_last());
    let k = choose|k: int| 0 <= k < m.len() && m[k] == x;
    assert(merged_annotations(left, right)[k] == x);
}

proof fn lemma_merged_keeps_new(left: Seq<Annotation>, right: Seq<Annotation>, j: int)
    requires
        0 <= j < right.len(),
        forall|i: int|
            0 <= i < left.len() ==> !((#[trigger] left[i]).mark is None && right[j].mark is None && left[i].t@
                == right[j].t@ && left[i].memo@ == right[j].memo@) && !(left[i].mark is Some && right[j].mark is Some
                && left[i].mark->0.id@ == right[j].mark->0.id@),
        forall|i: int|
            0 <= i < j ==> !((#[trigger] right[i]).mark is None && right[j].mark is None && right[i].t@
                == right[j].t@ && right[i].memo@ == right[j].memo@) && !(right[i].mark is Some && right[j].mark is Some
                && right[i].mark->0.id@ == right[j].mark->0.id@),
    ensures
        merged_annotations(left, right).contains(right[j]),
    decreases right.len(),
{
    let x = right[j];
    let r = right.drop_last();
    if j == right.len() - 1 {
        let m = merged_annotations(left, r);
        lemma_merged_from(left, r);
        if repeats_any(m, x) {
            let i = choose|i: int| 0 <= i < m.len() && same_annotation(#[trigger] m[i], x);
            let y = m[i];
            if left.contains(y) {
                let q = choose|q: int| 0 <= q < left.len() && left[q] == y;
                assert(left[q] == y);
            } else {
                let q = choose|q: int| 0 <= q < r.len() && r[q] == y;
                assert(r[q] == right[q]);
                assert(right[q] == y);
            }
            assert(false);
        }
        assert(merged_annotations(left, right) == m.push(x));
        assert(m.push(x)[m.len() as int] == x);
    } else {
        assert(r[j] == x);
        assert forall|i: int| 0 <= i < j implies !((#[trigger] r[i]).mark is None && r[j].mark is None && r[i].t@
            == r[j].t@ && r[i].memo@ == r[j].memo@) && !(r[i].mark is Some && r[j].mark is Some && r[i].mark->0.id@
            == r[j].mark->0.id@) by {
            assert(r[i] == right[i]);
        }
        lemma_merged_keeps_new(left, r, j);
        lemma_merged_grows(left, right, x);
    }
}

/// Synchronizing drops an annotation of the right side only as a repeat: a NOTE only for a
/// NOTE with the same time and the same memo, a MARK only for a MARK with the same id. A
/// right-side annotation that nothing on the left side, nor earlier on the right side,
/// repeats in that sense is in the synchronized list.
pub proof fn lemma_unrepeated_annotations_survive_synchronization(left: Seq<Annotation>, right: Seq<Annotation>, j: int)
    requires
        0 <= j < right.len(),
        forall|i: int|
            0 <= i < left.len() ==> !((#[trigger] left[i]).mark is None && right[j].mark is None && left[i].t@
                == right[j].t@ && left[i].memo@ == right[j].memo@) && !(left[i].mark is Some && right[j].mark is Some
                && left[i].mark->0.id@ == right[j].mark->0.id@),
        forall|i: int|
            0 <= i < j ==> !((#[trigger] right[i]).mark is None && right[j].mark is None && right[i].t@
                == right[j].t@ && right[i].memo@ == right[j].memo@) && !(right[i].mark is Some && right[j].mark is Some
                && right[i].mark->0.id@ == right[j].mark->0.id@),
    ensures
        sort_by_time(merged_annotations(left, right)).contains(right[j]),
{
    broadcast use vstd::seq_lib::group_to_multiset_ensures;

    lemma_merged_keeps_new(left, right, j);
    lemma_synchronized_annotations(left, right);
    let m = merged_annotations(left, right);
    assert(m.to_multiset().count(right[j]) > 0);
    assert(sort_by_time(m).to_multiset().count(right[j]) > 0);
}

} // verus!
