use kirin_measure::perceptual::{
    difference_post_minus_pre, validate_aperture, DifferenceDefinition, PerceptualFrame, PERCEPTUAL_SCHEMA_VERSION, PerceptualDifferenceTimeline, PerceptualError,
    SpectrumChannelMode, TimelineFrame, TimelinePushResult, PERCEPTUAL_DIFFERENCE_TIMELINE_CAPACITY,
};

fn difference(endpoint: i64, epoch: i64) -> TimelineFrame<(f64, f64, f64)> {
    TimelineFrame {
        definition: DifferenceDefinition {
            sample_rate: 48_000,
            aperture_samples: 4_800,
            state_epoch_samples: epoch,
            channel_mode: SpectrumChannelMode::Lr,
            channels: 2,
        },
        presentation_end_samples: endpoint,
        values: (1.0, 1.2, 0.2),
    }
}

#[test]
fn retains_a_complete_six_second_window_and_ignores_repeated_exchange_ticks() {
    let mut timeline = PerceptualDifferenceTimeline::new();
    for index in 1..=70 {
        assert_ne!(timeline.push(difference(index * 4_800, 0)), TimelinePushResult::DuplicateIgnored);
    }
    assert_eq!(timeline.frames().len(), PERCEPTUAL_DIFFERENCE_TIMELINE_CAPACITY);
    assert_eq!(timeline.frames()[0].presentation_end_samples, 33_600);
    assert_eq!(timeline.push(difference(70 * 4_800, 0)), TimelinePushResult::DuplicateIgnored);
    assert_eq!(timeline.push(difference(69 * 4_800, 0)), TimelinePushResult::StaleIgnored);
    assert_eq!(timeline.frames().len(), PERCEPTUAL_DIFFERENCE_TIMELINE_CAPACITY);
}

#[test]
fn a_new_state_epoch_cannot_share_the_previous_timeline() {
    let mut timeline = PerceptualDifferenceTimeline::new();
    timeline.push(difference(4_800, 0));
    assert_eq!(timeline.push(difference(14_400, 9_600)), TimelinePushResult::DefinitionReset);
    assert_eq!(timeline.frames().len(), 1);
}

#[test]
fn repeated_sixteen_frame_exchange_windows_accumulate_without_rewinding() {
    let mut timeline = PerceptualDifferenceTimeline::new();
    for newest in 1..=70i64 {
        let oldest = (newest - 15).max(1);
        for index in oldest..=newest {
            timeline.push(difference(index * 4_800, 0));
        }
    }
    assert_eq!(timeline.frames().len(), PERCEPTUAL_DIFFERENCE_TIMELINE_CAPACITY);
    assert_eq!(timeline.frames()[0].presentation_end_samples, 33_600);
    assert_eq!(timeline.newest().unwrap().presentation_end_samples, 336_000);
}

#[test]
fn clear_empties_and_first_push_appends() {
    let mut timeline = PerceptualDifferenceTimeline::new();
    assert!(timeline.newest().is_none());
    assert_eq!(timeline.push(difference(4_800, 0)), TimelinePushResult::Appended);
    timeline.clear();
    assert_eq!(timeline.frames().len(), 0);
    assert_eq!(timeline.push(difference(100, 7)), TimelinePushResult::Appended);
    assert_eq!(timeline.newest().unwrap().values, (1.0, 1.2, 0.2));
}

#[test]
fn aperture_configurations() {
    assert_eq!(validate_aperture(48_000, 2), Ok(4_800));
    assert_eq!(validate_aperture(44_100, 1), Ok(4_410));
    assert_eq!(validate_aperture(8_000, 1), Ok(800));
    assert_eq!(validate_aperture(384_000, 2), Ok(38_400));
    assert_eq!(validate_aperture(7_990, 1), Err(PerceptualError::InvalidSampleRate));
    assert_eq!(validate_aperture(384_010, 1), Err(PerceptualError::InvalidSampleRate));
    assert_eq!(validate_aperture(44_105, 2), Err(PerceptualError::InvalidSampleRate));
    assert_eq!(validate_aperture(48_000, 0), Err(PerceptualError::InvalidSampleRate));
    assert_eq!(validate_aperture(48_000, 3), Err(PerceptualError::InvalidSampleRate));
}

#[test]
fn error_messages() {
    assert_eq!(PerceptualError::InvalidSampleRate.message(), "invalid Perceptual Delta sample rate");
    assert_eq!(
        PerceptualError::WrongApertureLength.message(),
        "Perceptual Delta requires one exact 100 ms aperture"
    );
    assert_eq!(PerceptualError::NonFiniteInput.message(), "Perceptual Delta input contains a non-finite sample");
    assert_eq!(PerceptualError::SideRequiresStereo.message(), "Perceptual Delta SIDE requires stereo input");
    assert_eq!(PerceptualError::ResamplerUnavailable.message(), "Perceptual Delta resampling failed");
    assert_eq!(PerceptualError::AnalysisUnavailable.message(), "Perceptual Delta analysis produced no frame");
}

#[test]
fn frames_are_compatible_only_on_one_exact_aperture() {
    let pre = PerceptualFrame {
        schema_version: PERCEPTUAL_SCHEMA_VERSION,
        sample_rate: 48_000,
        aperture_samples: 4_800,
        presentation_end_samples: 96_000,
        state_epoch_samples: 0,
        generation: 1,
        channel_mode: SpectrumChannelMode::Mid,
        channels: 2,
        sharpness_is_finite: true,
    };
    let mut post = pre;
    post.generation = 9;
    assert!(post.compatible_with(&pre) && pre.compatible_with(&post));
    post.presentation_end_samples += 4_800;
    assert!(!post.compatible_with(&pre));
    post = pre;
    post.channel_mode = SpectrumChannelMode::Side;
    assert!(!post.compatible_with(&pre));
    post = pre;
    post.state_epoch_samples = 4_800;
    assert!(!post.compatible_with(&pre) && !pre.compatible_with(&post));
    post = pre;
    post.sharpness_is_finite = false;
    assert!(!post.compatible_with(&pre) && !pre.compatible_with(&post));
}

#[test]
fn exact_endpoint_epoch_and_aperture_are_required_for_difference() {
    let frame = PerceptualFrame {
        schema_version: PERCEPTUAL_SCHEMA_VERSION,
        sample_rate: 48_000,
        aperture_samples: 4_800,
        presentation_end_samples: 48_000,
        state_epoch_samples: 0,
        generation: 1,
        channel_mode: SpectrumChannelMode::Lr,
        channels: 2,
        sharpness_is_finite: true,
    };
    let pre_sharpness: f64 = 1.25;
    let mut post = frame;
    let post_sharpness: f64 = 1.55;
    let difference = difference_post_minus_pre(&post, &frame, post_sharpness - pre_sharpness).unwrap();
    assert!((difference.values - 0.30).abs() < 1.0e-12);
    assert_eq!(difference.definition.state_epoch_samples, 0);

    post.presentation_end_samples += 1;
    assert!(difference_post_minus_pre(&post, &frame, post_sharpness - pre_sharpness).is_none());
    post.presentation_end_samples -= 1;
    post.state_epoch_samples = 4_800;
    assert!(difference_post_minus_pre(&post, &frame, post_sharpness - pre_sharpness).is_none());
    post.state_epoch_samples = 0;
    post.aperture_samples -= 1;
    assert!(difference_post_minus_pre(&post, &frame, post_sharpness - pre_sharpness).is_none());
}

#[test]
fn difference_takes_its_definition_and_endpoint_from_post() {
    let pre = PerceptualFrame {
        schema_version: PERCEPTUAL_SCHEMA_VERSION,
        sample_rate: 96_000,
        aperture_samples: 9_600,
        presentation_end_samples: 192_000,
        state_epoch_samples: 9_600,
        generation: 3,
        channel_mode: SpectrumChannelMode::Side,
        channels: 2,
        sharpness_is_finite: true,
    };
    let mut post = pre;
    post.generation = 4;
    let d = difference_post_minus_pre(&post, &pre, 7u8).unwrap();
    assert_eq!(
        d.definition,
        DifferenceDefinition {
            sample_rate: 96_000,
            aperture_samples: 9_600,
            state_epoch_samples: 9_600,
            channel_mode: SpectrumChannelMode::Side,
            channels: 2,
        }
    );
    assert_eq!(d.presentation_end_samples, 192_000);
    assert_eq!(d.values, 7u8);
    post.sharpness_is_finite = false;
    assert!(difference_post_minus_pre(&post, &pre, 7u8).is_none());
}

#[test]
fn timeline_stays_one_definition_with_rising_ends() {
    let mut timeline = PerceptualDifferenceTimeline::new();
    for index in [3i64, 1, 2, 5, 5, 4, 9] {
        timeline.push(difference(index * 4_800, 0));
    }
    let ends: Vec<i64> = timeline.frames().iter().map(|f| f.presentation_end_samples).collect();
    assert_eq!(ends, vec![14_400, 24_000, 43_200]);
    assert_eq!(timeline.push(difference(4_800, 4_800)), TimelinePushResult::DefinitionReset);
    assert_eq!(timeline.frames().len(), 1);
    assert_eq!(timeline.frames()[0].definition.state_epoch_samples, 4_800);
    for index in 2..=80i64 {
        assert_eq!(timeline.push(difference(index * 4_800, 4_800)), TimelinePushResult::Appended);
    }
    assert_eq!(timeline.frames().len(), PERCEPTUAL_DIFFERENCE_TIMELINE_CAPACITY);
    assert_eq!(timeline.frames()[0].presentation_end_samples, 17 * 4_800);
}
