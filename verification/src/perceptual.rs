//! Exact-aperture Perceptual Delta: the configuration rules of an aperture, the errors of the
//! analysis, and the timeline of PRE/POST differences the page displays. Each frame stands for
//! one non-overlapping 100 ms presentation-time aperture.
use vstd::prelude::*;

verus! {

/// Apertures per second of presentation time (one aperture is 100 ms).
pub const PERCEPTUAL_PRESENTATION_HZ: u32 = 10;

/// Number of differences the timeline keeps (a complete six-second window).
pub const PERCEPTUAL_DIFFERENCE_TIMELINE_CAPACITY: usize = 64;

/// Why a Perceptual Delta aperture could not be analyzed.
#[derive(Clone, Copy, Debug, PartialEq, Eq, Structural)]
pub enum PerceptualError {
    InvalidSampleRate,
    WrongApertureLength,
    NonFiniteInput,
    SideRequiresStereo,
    ResamplerUnavailable,
    AnalysisUnavailable,
}

/// The text shown for each error.
pub open spec fn perceptual_error_text(e: PerceptualError) -> Seq<char> {
    match e {
        PerceptualError::InvalidSampleRate => "invalid Perceptual Delta sample rate"@,
        PerceptualError::WrongApertureLength => "Perceptual Delta requires one exact 100 ms aperture"@,
        PerceptualError::NonFiniteInput => "Perceptual Delta input contains a non-finite sample"@,
        PerceptualError::SideRequiresStereo => "Perceptual Delta SIDE requires stereo input"@,
        PerceptualError::ResamplerUnavailable => "Perceptual Delta resampling failed"@,
        PerceptualError::AnalysisUnavailable => "Perceptual Delta analysis produced no frame"@,
    }
}

impl PerceptualError {
    /// The message of this error.
    pub fn message(&self) -> (m: &'static str)
        ensures
            m@ == perceptual_error_text(*self),
    {
        match self {
            PerceptualError::InvalidSampleRate => "invalid Perceptual Delta sample rate",
            PerceptualError::WrongApertureLength => "Perceptual Delta requires one exact 100 ms aperture",
            PerceptualError::NonFiniteInput => "Perceptual Delta input contains a non-finite sample",
            PerceptualError::SideRequiresStereo => "Perceptual Delta SIDE requires stereo input",
            PerceptualError::ResamplerUnavailable => "Perceptual Delta resampling failed",
            PerceptualError::AnalysisUnavailable => "Perceptual Delta analysis produced no frame",
        }
    }
}

/// An aperture configuration is accepted when the rate lies in 8 kHz ..= 384 kHz, divides into
/// whole 100 ms apertures, and there are one or two input channels.
pub open spec fn aperture_config_ok(sample_rate: u32, input_channels: usize) -> bool {
    &&& 8_000 <= sample_rate <= 384_000
    &&& sample_rate % PERCEPTUAL_PRESENTATION_HZ == 0
    &&& 1 <= input_channels <= 2
}

/// The aperture length in samples per channel for a configuration, or `InvalidSampleRate`.
pub fn validate_aperture(sample_rate: u32, input_channels: usize) -> (r: Result<usize, PerceptualError>)
    ensures
        aperture_config_ok(sample_rate, input_channels) ==> r == Ok::<usize, PerceptualError>(
            (sample_rate / PERCEPTUAL_PRESENTATION_HZ) as usize,
        ),
        !aperture_config_ok(sample_rate, input_channels) ==> r == Err::<usize, PerceptualError>(
            PerceptualError::InvalidSampleRate,
        ),
{
    if !(8_000 <= sample_rate && sample_rate <= 384_000) || sample_rate % PERCEPTUAL_PRESENTATION_HZ
        != 0 || !(1 <= input_channels && input_channels <= 2) {
        return Err(PerceptualError::InvalidSampleRate);
    }
    Ok((sample_rate / PERCEPTUAL_PRESENTATION_HZ) as usize)
}

/// Channel view of a spectrum/perceptual measurement.
#[derive(Clone, Copy, Debug, PartialEq, Eq, Structural)]
pub enum SpectrumChannelMode {
    Lr,
    Mid,
    Side,
}

/// Schema version of a perceptual frame.
pub const PERCEPTUAL_SCHEMA_VERSION: u16 = 1;

/// What the comparison of two perceptual frames reads of each: its identity on the
/// presentation clock and whether its measured sharpness is a finite number.
#[derive(Clone, Copy, Debug, PartialEq, Eq, Structural)]
pub struct PerceptualFrame {
    pub schema_version: u16,
    pub sample_rate: u32,
    pub aperture_samples: u32,
    pub presentation_end_samples: i64,
    /// The presentation sample at which the analyzer's state was last reset.
    pub state_epoch_samples: i64,
    pub generation: u64,
    pub channel_mode: SpectrumChannelMode,
    pub channels: u8,
    /// The frame's sharpness is finite.
    pub sharpness_is_finite: bool,
}

/// Two frames can be subtracted: one schema, rate, aperture, aperture end, state epoch,
/// channel mode and channel count, and both sharpness values finite. The generation does not
/// take part.
pub open spec fn frames_compatible(a: PerceptualFrame, b: PerceptualFrame) -> bool {
    &&& a.schema_version == b.schema_version
    &&& a.sample_rate == b.sample_rate
    &&& a.aperture_samples == b.aperture_samples
    &&& a.presentation_end_samples == b.presentation_end_samples
    &&& a.state_epoch_samples == b.state_epoch_samples
    &&& a.channel_mode == b.channel_mode
    &&& a.channels == b.channels
    &&& a.sharpness_is_finite
    &&& b.sharpness_is_finite
}

impl PerceptualFrame {
    /// Whether this frame and `other` can be subtracted.
    pub fn compatible_with(&self, other: &Self) -> (r: bool)
        ensures
            r == frames_compatible(*self, *other),
    {
        self.schema_version == other.schema_version && self.sample_rate == other.sample_rate
            && self.aperture_samples == other.aperture_samples && self.presentation_end_samples
            == other.presentation_end_samples && self.state_epoch_samples == other.state_epoch_samples
            && self.channel_mode == other.channel_mode && self.channels
            == other.channels && self.sharpness_is_finite && other.sharpness_is_finite
    }
}

/// Frames are subtracted only on one exact aperture of one analysis: two compatible frames
/// agree on schema, sample rate, aperture length, aperture end, state epoch, channel mode and
/// channel count, and both measured a finite sharpness; frames that differ in any of these
/// give no difference.
pub proof fn lemma_difference_needs_one_aperture(post: PerceptualFrame, pre: PerceptualFrame)
    ensures
        frames_compatible(post, pre) ==> {
            &&& post.schema_version == pre.schema_version
            &&& post.sample_rate == pre.sample_rate
            &&& post.aperture_samples == pre.aperture_samples
            &&& post.presentation_end_samples == pre.presentation_end_samples
            &&& post.state_epoch_samples == pre.state_epoch_samples
            &&& post.channel_mode == pre.channel_mode
            &&& post.channels == pre.channels
            &&& post.sharpness_is_finite && pre.sharpness_is_finite
        },
        (post.sample_rate == pre.sample_rate && post.schema_version == pre.schema_version
            && post.aperture_samples == pre.aperture_samples && post.presentation_end_samples
            == pre.presentation_end_samples && post.state_epoch_samples == pre.state_epoch_samples
            && post.channel_mode == pre.channel_mode && post.channels == pre.channels
            && post.sharpness_is_finite && pre.sharpness_is_finite) ==> frames_compatible(post, pre),
{
}

/// Frame compatibility is symmetric.
pub proof fn lemma_compatibility_is_symmetric(a: PerceptualFrame, b: PerceptualFrame)
    ensures
        frames_compatible(a, b) == frames_compatible(b, a),
{
}

/// What makes two differences comparable on one timeline.
#[derive(Clone, Copy, Debug, PartialEq, Eq, Structural)]
pub struct DifferenceDefinition {
    pub sample_rate: u32,
    pub aperture_samples: u32,
    pub state_epoch_samples: i64,
    pub channel_mode: SpectrumChannelMode,
    pub channels: u8,
}

/// One PRE/POST difference on the timeline: its definition, the presentation sample its
/// aperture ends at, and the measured values it carries.
pub struct TimelineFrame<T> {
    pub definition: DifferenceDefinition,
    pub presentation_end_samples: i64,
    pub values: T,
}

/// The definition of the difference `post − pre`, taken from `post`.
pub open spec fn definition_of(post: PerceptualFrame) -> DifferenceDefinition {
    DifferenceDefinition {
        sample_rate: post.sample_rate,
        aperture_samples: post.aperture_samples,
        state_epoch_samples: post.state_epoch_samples,
        channel_mode: post.channel_mode,
        channels: post.channels,
    }
}

/// The difference `post − pre` on the timeline, carrying `values` (the PRE, POST and delta
/// sharpness that the caller measured), or `None` when the two frames are not compatible.
pub fn difference_post_minus_pre<T>(post: &PerceptualFrame, pre: &PerceptualFrame, values: T) -> (r:
    Option<TimelineFrame<T>>)
    ensures
        !frames_compatible(*post, *pre) ==> r is None,
        frames_compatible(*post, *pre) ==> (r matches Some(d) && d.definition == definition_of(*post)
            && d.presentation_end_samples == post.presentation_end_samples && d.values == values),
{
    if !post.compatible_with(pre) {
        return None;
    }
    Some(
        TimelineFrame {
            definition: DifferenceDefinition {
                sample_rate: post.sample_rate,
                aperture_samples: post.aperture_samples,
                state_epoch_samples: post.state_epoch_samples,
                channel_mode: post.channel_mode,
                channels: post.channels,
            },
            presentation_end_samples: post.presentation_end_samples,
            values,
        },
    )
}

/// Outcome of offering a difference to the timeline.
#[derive(Clone, Copy, Debug, PartialEq, Eq, Structural)]
pub enum TimelinePushResult {
    Appended,
    DuplicateIgnored,
    StaleIgnored,
    DefinitionReset,
}

/// The most recent differences of one definition, oldest first, with strictly increasing
/// aperture ends and at most [`PERCEPTUAL_DIFFERENCE_TIMELINE_CAPACITY`] entries.
pub struct PerceptualDifferenceTimeline<T> {
    frames: Vec<TimelineFrame<T>>,
}

/// The timeline's shape: bounded, one definition, ends strictly increasing.
pub open spec fn timeline_ok<T>(s: Seq<TimelineFrame<T>>) -> bool {
    &&& s.len() <= PERCEPTUAL_DIFFERENCE_TIMELINE_CAPACITY
    &&& forall|i: int| 0 <= i < s.len() ==> #[trigger] s[i].definition == s[0].definition
    &&& forall|i: int, j: int|
        0 <= i < j < s.len() ==> s[i].presentation_end_samples < s[j].presentation_end_samples
}

/// The outcome of offering `f` to the timeline `s`.
pub open spec fn push_outcome<T>(s: Seq<TimelineFrame<T>>, f: TimelineFrame<T>) -> TimelinePushResult {
    if s.len() == 0 {
        TimelinePushResult::Appended
    } else if s.last().definition != f.definition {
        TimelinePushResult::DefinitionReset
    } else if f.presentation_end_samples == s.last().presentation_end_samples {
        TimelinePushResult::DuplicateIgnored
    } else if f.presentation_end_samples < s.last().presentation_end_samples {
        TimelinePushResult::StaleIgnored
    } else {
        TimelinePushResult::Appended
    }
}

/// The timeline after offering `f` to `s`: ignored offers leave it unchanged, a new definition
/// restarts it with `f`, and an append drops the oldest entry when the timeline is full.
pub open spec fn pushed<T>(s: Seq<TimelineFrame<T>>, f: TimelineFrame<T>) -> Seq<TimelineFrame<T>> {
    match push_outcome(s, f) {
        TimelinePushResult::DuplicateIgnored => s,
        TimelinePushResult::StaleIgnored => s,
        TimelinePushResult::DefinitionReset => seq![f],
        TimelinePushResult::Appended => if s.len() == PERCEPTUAL_DIFFERENCE_TIMELINE_CAPACITY {
            s.drop_first().push(f)
        } else {
            s.push(f)
        },
    }
}

impl<T> PerceptualDifferenceTimeline<T> {
    #[verifier::type_invariant]
    closed spec fn inv(&self) -> bool {
        timeline_ok(self.frames@)
    }

    /// The differences held, oldest first.
    pub closed spec fn view(&self) -> Seq<TimelineFrame<T>> {
        self.frames@
    }

    /// An empty timeline.
    pub fn new() -> (t: Self)
        ensures
            t.view() == Seq::<TimelineFrame<T>>::empty(),
    {
        PerceptualDifferenceTimeline { frames: Vec::new() }
    }

    /// Offers a difference to the timeline. Before and after, the timeline holds at most
    /// [`PERCEPTUAL_DIFFERENCE_TIMELINE_CAPACITY`] differences, all of one definition, with
    /// aperture ends strictly increasing; [`lemma_push_keeps_timeline_shape`] spells out each
    /// outcome.
    pub fn push(&mut self, frame: TimelineFrame<T>) -> (r: TimelinePushResult)
        ensures
            r == push_outcome(old(self).view(), frame),
            final(self).view() == pushed(old(self).view(), frame),
            timeline_ok(old(self).view()),
            timeline_ok(final(self).view()),
    {
        proof {
            use_type_invariant(&*self);
        }
        let n = self.frames.len();
        if n > 0 {
            let newest = &self.frames[n - 1];
            let same = newest.definition == frame.definition;
            if same && newest.presentation_end_samples == frame.presentation_end_samples {
                return TimelinePushResult::DuplicateIgnored;
            }
            if same && frame.presentation_end_samples < newest.presentation_end_samples {
                return TimelinePushResult::StaleIgnored;
            }
            if !same {
                let mut fresh: Vec<TimelineFrame<T>> = Vec::new();
                fresh.push(frame);
                assert(fresh@ == seq![frame]);
                self.frames = fresh;
                return TimelinePushResult::DefinitionReset;
            }
        }
        let ghost before = self.frames@;
        let mut frames: Vec<TimelineFrame<T>> = Vec::new();
        std::mem::swap(&mut frames, &mut self.frames);
        if frames.len() == PERCEPTUAL_DIFFERENCE_TIMELINE_CAPACITY {
            let _ = frames.remove(0);
            assert(frames@ == before.drop_first());
        }
        frames.push(frame);
        proof {
            let s = frames@;
            assert forall|i: int| 0 <= i < s.len() implies #[trigger] s[i].definition == s[0].definition by {
                if n > 0 {
                    assert(before[n - 1].definition == before[0].definition);
                }
            }
            assert forall|i: int, j: int|
                0 <= i < j < s.len() implies s[i].presentation_end_samples < s[j].presentation_end_samples by {
                if j == s.len() - 1 && n > 0 {
                    if before.len() == PERCEPTUAL_DIFFERENCE_TIMELINE_CAPACITY {
                        assert(s[i] == before[i + 1]);
                        if i + 1 < n - 1 {
                            assert(before[i + 1].presentation_end_samples < before[n - 1].presentation_end_samples);
                        }
                    } else {
                        assert(s[i] == before[i]);
                        if i < n - 1 {
                            assert(before[i].presentation_end_samples < before[n - 1].presentation_end_samples);
                        }
                    }
                }
            }
        }
        self.frames = frames;
        TimelinePushResult::Appended
    }

    /// Empties the timeline.
    pub fn clear(&mut self)
        ensures
            final(self).view() == Seq::<TimelineFrame<T>>::empty(),
    {
        self.frames = Vec::new();
    }

    /// The most recent difference.
    pub fn newest(&self) -> (r: Option<&TimelineFrame<T>>)
        ensures
            self.view().len() == 0 ==> r is None,
            self.view().len() > 0 ==> r == Some(&self.view().last()),
            timeline_ok(self.view()),
    {
        proof {
            use_type_invariant(self);
        }
        let n = self.frames.len();
        if n == 0 {
            None
        } else {
            Some(&self.frames[n - 1])
        }
    }

    /// The differences held, oldest first.
    pub fn frames(&self) -> (r: &[TimelineFrame<T>])
        ensures
            r@ == self.view(),
            timeline_ok(self.view()),
    {
        proof {
            use_type_invariant(self);
        }
        self.frames.as_slice()
    }
}

/// Offering a difference to a well-shaped timeline: a difference of the newest entry's
/// definition and aperture end is a duplicate, one of that definition ending earlier is stale,
/// and both leave the timeline unchanged; a difference of another definition restarts the
/// timeline with itself alone; otherwise it is appended as the newest entry, all earlier
/// entries kept but the oldest, which is dropped exactly when the timeline was full. The
/// timeline keeps its shape: at most the capacity, one definition, ends strictly increasing.
pub proof fn lemma_push_keeps_timeline_shape<T>(s: Seq<TimelineFrame<T>>, f: TimelineFrame<T>)
    requires
        timeline_ok(s),
    ensures
        timeline_ok(pushed(s, f)),
        (push_outcome(s, f) is DuplicateIgnored) <==> (s.len() > 0 && s.last().definition
            == f.definition && f.presentation_end_samples == s.last().presentation_end_samples),
        (push_outcome(s, f) is StaleIgnored) <==> (s.len() > 0 && s.last().definition == f.definition
            && f.presentation_end_samples < s.last().presentation_end_samples),
        (push_outcome(s, f) is DefinitionReset) <==> (s.len() > 0 && s.last().definition
            != f.definition),
        push_outcome(s, f) is DuplicateIgnored || push_outcome(s, f) is StaleIgnored ==> pushed(s, f) == s,
        push_outcome(s, f) is DefinitionReset ==> pushed(s, f) == seq![f],
        push_outcome(s, f) is Appended ==> pushed(s, f).last() == f && pushed(s, f).drop_last() == (
        if s.len() == PERCEPTUAL_DIFFERENCE_TIMELINE_CAPACITY {
            s.drop_first()
        } else {
            s
        }),
{
    let r = pushed(s, f);
    if push_outcome(s, f) is Appended {
        let n = s.len();
        if n == PERCEPTUAL_DIFFERENCE_TIMELINE_CAPACITY {
            assert(r == s.drop_first().push(f));
            assert(r.drop_last() == s.drop_first());
        } else {
            assert(r.drop_last() == s);
        }
        assert forall|i: int| 0 <= i < r.len() implies #[trigger] r[i].definition == r[0].definition by {
            if n > 0 {
                assert(s[n - 1].definition == s[0].definition);
            }
        }
        assert forall|i: int, j: int|
            0 <= i < j < r.len() implies r[i].presentation_end_samples < r[j].presentation_end_samples by {
            if j == r.len() - 1 && n > 0 {
                if n == PERCEPTUAL_DIFFERENCE_TIMELINE_CAPACITY {
                    assert(r[i] == s[i + 1]);
                    if i + 1 < n - 1 {
                        assert(s[i + 1].presentation_end_samples < s[n - 1].presentation_end_samples);
                    }
                } else {
                    assert(r[i] == s[i]);
                    if i < n - 1 {
                        assert(s[i].presentation_end_samples < s[n - 1].presentation_end_samples);
                    }
                }
            }
        }
    }
}

} // verus!
