use kirin_measure::annotations::{bind_annotation_marks_to_wav, synchronize_pair_annotations};
use kirin_measure::plugin_data::{Annotation, AnnotationMark};

fn marked_annotation(id: &str, position: i64, memo: &str) -> Annotation {
    Annotation {
        t: "2026-07-14T00:00:00Z".to_string(),
        memo: memo.to_string(),
        mark: Some(AnnotationMark {
            schema_version: "record_mark.v1".to_string(),
            id: id.to_string(),
            basis: "producer_sample_clock".to_string(),
            producer_position_samples: position,
            clock_source: "project_timeline".to_string(),
            wav_position_samples: None,
        }),
    }
}

fn note(t: &str, memo: &str) -> Annotation {
    Annotation { t: t.to_string(), memo: memo.to_string(), mark: None }
}

#[test]
fn record_mark_binds_only_inside_exact_wav_sample_range() {
    let mut annotations = vec![
        marked_annotation("before", 9_999, "Fix"),
        marked_annotation("start", 10_000, "Good"),
        marked_annotation("inside", 10_256, "Hold"),
        marked_annotation("end", 11_000, "Good"),
        marked_annotation("after", 11_001, "Fix"),
    ];
    bind_annotation_marks_to_wav(&mut annotations, 10_000, 1_000);
    let positions: Vec<Option<u64>> =
        annotations.iter().map(|annotation| annotation.mark.as_ref().and_then(|mark| mark.wav_position_samples)).collect();
    assert_eq!(positions, vec![None, Some(0), Some(256), Some(1_000), None]);
}

#[test]
fn pair_annotation_sync_deduplicates_mark_id_on_both_members() {
    let mut pre = vec![marked_annotation("shared", 10, "Good")];
    let mut post = vec![marked_annotation("shared", 10, "Good"), marked_annotation("post", 20, "Fix")];
    synchronize_pair_annotations(&mut pre, &mut post);
    assert_eq!(pre, post);
    assert_eq!(pre.len(), 2);
}

#[test]
fn notes_merge_by_time_and_memo_and_sort_stably() {
    let mut left = vec![note("2026-07-14T00:00:05Z", "b"), note("2026-07-14T00:00:01Z", "a")];
    let mut right = vec![
        note("2026-07-14T00:00:05Z", "b"),
        note("2026-07-14T00:00:03Z", "c"),
        note("2026-07-14T00:00:05Z", "d"),
        marked_annotation("m", 0, "b"),
    ];
    synchronize_pair_annotations(&mut left, &mut right);
    let order: Vec<(&str, &str)> = left.iter().map(|a| (a.t.as_str(), a.memo.as_str())).collect();
    assert_eq!(
        order,
        vec![
            ("2026-07-14T00:00:00Z", "b"),
            ("2026-07-14T00:00:01Z", "a"),
            ("2026-07-14T00:00:03Z", "c"),
            ("2026-07-14T00:00:05Z", "b"),
            ("2026-07-14T00:00:05Z", "d"),
        ]
    );
    assert_eq!(left, right);
    let before = left.clone();
    synchronize_pair_annotations(&mut left, &mut right);
    assert_eq!(left, before, "a synchronized pair stays as it is");
}

#[test]
fn marks_at_the_extremes_of_the_clock_stay_unbound() {
    let mut annotations = vec![marked_annotation("low", i64::MIN, "x"), note("t", "n")];
    bind_annotation_marks_to_wav(&mut annotations, 1, u64::MAX);
    assert_eq!(annotations[0].mark.as_ref().unwrap().wav_position_samples, None);
    assert!(annotations[1].mark.is_none());
    let mut high = vec![marked_annotation("high", i64::MAX, "x")];
    bind_annotation_marks_to_wav(&mut high, 0, u64::MAX);
    assert_eq!(high[0].mark.as_ref().unwrap().wav_position_samples, Some(i64::MAX as u64));
}
