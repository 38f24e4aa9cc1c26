//! The Record writer: the paths of one Record artifact and the Record file it builds while
//! the plug-in measures, with the rules that run when the Record closes.
use vstd::prelude::*;

use crate::late_expected::{LateFrame, RecordFile};
use crate::path_model::copy_string;
use crate::pair_finalize::failed_with;
use crate::plugin_data::{
    opt_view, str_views, Annotation, BounceTake, Role, TraceClock, TraceDiagnostics, TraceWavReference,
    WriterPaths,
};
use crate::record_gate::{
    quality_view, record_quality, side_publish_integrity_reasons, side_integrity_reasons,
    side_visibility_failure_reasons, side_visibility_reasons, with_new_reasons, ClockObservation,
    ExpectedWavFacts, RecordFacts, SideFacts, TraceAxis, TraceFacts,
};

verus! {

/// Writes one Record artifact.
pub struct PluginDataWriter {
    pub paths: WriterPaths,
    pub data: RecordFile,
}

/// Where a closed Record goes.
#[derive(Debug, Clone, Copy, PartialEq, Eq, Structural)]
pub enum CloseOutcome {
    /// To its pair-pending path, to wait for its pair.
    PairPending,
    /// To its failed path, as a diagnostic.
    Failed,
}

/// `chrono::Utc::now()` formatted `%Y-%m-%dT%H:%M:%SZ`. The current time: only that the text
/// is not empty, which the format guarantees whatever the time, is claimed of it.
#[verifier::external_body]
fn now_iso8601() -> (r: String)
    ensures
        r@.len() > 0,
{
    chrono::Utc::now().format("%Y-%m-%dT%H:%M:%SZ").to_string()
}

/// The fields of a fresh Record file.
pub open spec fn fresh_record(
    r: RecordFile,
    project_hash: Seq<char>,
    instance_id: Seq<char>,
    role: Role,
    sample_rate: u32,
    paired_pre_instance_id: Option<Seq<char>>,
    paired_post_instance_id: Option<Seq<char>>,
) -> bool {
    &&& r.facts.side.role == role
    &&& r.facts.side.project_hash@ == project_hash
    &&& r.facts.side.instance_id@ == instance_id
    &&& r.facts.side.validity
    &&& r.facts.side.frame_count == 0
    &&& r.facts.side.sample_rate == sample_rate
    &&& r.facts.side.record_session_id is None
    &&& opt_view(r.facts.side.paired_pre_instance_id) == paired_pre_instance_id
    &&& opt_view(r.facts.side.paired_post_instance_id) == paired_post_instance_id
    &&& r.facts.side.capture_generation_id is None
    &&& r.facts.side.generation_started_at_ms == 0
    &&& r.facts.trace.frame_t_ms@.len() == 0
    &&& r.facts.trace.trace_slot_positions@.len() == 0
    &&& r.facts.trace.trace_clock_resolution is None
    &&& r.facts.trace.trace_clock_observations@.len() == 0
    &&& r.facts.trace.expected_wav_time_reference_samples is None
    &&& r.facts.trace.trace_clock_origin_position_samples is None
    &&& r.facts.trace.trace_diagnostics is None
    &&& r.facts.trace.bounce_take is None
    &&& r.facts.expected_wav is None
    &&& !r.facts.integrity_degraded
    &&& r.facts.integrity_reasons@.len() == 0
    &&& r.facts.commit_status is None
    &&& r.facts.trace_axis == TraceAxis::Unrecognized
    &&& r.facts.trace_clock is None
    &&& !r.facts.trace_clock_basis_canonical
    &&& !r.facts.canonical_wav_reference
    &&& r.facts.trace_wav_reference is None
    &&& r.frames@.len() == 0
    &&& !r.closed
    &&& r.started_at_ms == 0
    &&& r.timestamp@.len() > 0
    &&& r.heartbeat@ == r.timestamp@
    &&& r.bounce_wall_clock_start@ == r.timestamp@
    &&& r.bounce_wall_clock_end@ == r.timestamp@
    &&& r.chain_memo@.len() == 0
    &&& r.first_block_hash@.len() == 0
    &&& r.last_block_hash@.len() == 0
    &&& r.trace_comparison_resolution is None
    &&& r.trace_comparison_slot_positions@.len() == 0
    &&& r.trace_raw_host_slot_positions@.len() == 0
    &&& r.psb_snapshot_t_ms matches Some(p) && p@.len() == 0
    &&& r.dropped_samples == 0
    &&& r.bounce_marker_duration_samples == 0
    &&& r.annotations@.len() == 0
    &&& r.record_quality is None
}

impl PluginDataWriter {
    /// A writer for a fresh, active Record at `paths`: valid, empty, with no session, no
    /// expected WAV and no integrity faults; its bounce end is the current time. The caller
    /// creates the artifact's directory.
    pub fn create(
        paths: WriterPaths,
        project_hash: String,
        instance_id: String,
        role: Role,
        sample_rate: u32,
        paired_pre_instance_id: Option<String>,
        paired_post_instance_id: Option<String>,
    ) -> (w: PluginDataWriter)
        ensures
            w.paths == paths,
            fresh_record(
                w.data,
                project_hash@,
                instance_id@,
                role,
                sample_rate,
                opt_view(paired_pre_instance_id),
                opt_view(paired_post_instance_id),
            ),
    {
        let side = SideFacts {
            role,
            project_hash,
            instance_id,
            validity: true,
            frame_count: 0,
            sample_rate,
            record_session_id: None,
            paired_pre_instance_id,
            paired_post_instance_id,
            capture_generation_id: None,
            generation_started_at_ms: 0,
        };
        let trace = TraceFacts {
            frame_t_ms: Vec::new(),
            trace_slot_positions: Vec::new(),
            trace_clock_resolution: None,
            trace_clock_observations: Vec::new(),
            expected_wav_time_reference_samples: None,
            trace_clock_origin_position_samples: None,
            trace_diagnostics: None,
            bounce_take: None,
        };
        let facts = RecordFacts {
            side,
            trace,
            expected_wav: None,
            integrity_degraded: false,
            integrity_reasons: Vec::new(),
            commit_status: None,
            trace_axis: TraceAxis::Unrecognized,
            trace_clock: None,
            trace_clock_basis_canonical: false,
            canonical_wav_reference: false,
            trace_wav_reference: None,
        };
        let now = now_iso8601();
        PluginDataWriter {
            paths,
            data: RecordFile {
                facts,
                frames: Vec::new(),
                closed: false,
                started_at_ms: 0,
                timestamp: copy_string(&now),
                chain_memo: String::new(),
                heartbeat: copy_string(&now),
                bounce_wall_clock_start: copy_string(&now),
                bounce_wall_clock_end: now,
                first_block_hash: String::new(),
                last_block_hash: String::new(),
                trace_comparison_resolution: None,
                trace_comparison_slot_positions: Vec::new(),
                trace_raw_host_slot_positions: Vec::new(),
                psb_snapshot_t_ms: Some(Vec::new()),
                dropped_samples: 0,
                bounce_marker_duration_samples: 0,
                annotations: Vec::new(),
                record_quality: None,
                trace_content_alignment: None,
                trace_context_frames: Vec::new(),
                trace_context_slot_positions: Vec::new(),
                trace_pair_wav_start_basis: None,
                trace_pair_offset_samples: None,
                trace_pair_alignment_scored: false,
                trace_context_psb_snapshot_t_ms: Vec::new(),
            },
        }
    }

    /// The Record file being written.
    pub fn data(&self) -> (d: &RecordFile)
        ensures
            *d == self.data,
    {
        &self.data
    }

    /// Drops every measured frame and TRACE slot, to bake the timeline anew.
    pub fn clear_frames(&mut self)
        ensures
            final(self).data == (RecordFile {
                frames: final(self).data.frames,
                facts: RecordFacts {
                    side: SideFacts { frame_count: 0, ..old(self).data.facts.side },
                    trace: TraceFacts {
                        frame_t_ms: final(self).data.facts.trace.frame_t_ms,
                        trace_slot_positions: final(self).data.facts.trace.trace_slot_positions,
                        ..old(self).data.facts.trace
                    },
                    ..old(self).data.facts
                },
                ..old(self).data
            }),
            final(self).paths == old(self).paths,
            final(self).data.frames@.len() == 0,
            final(self).data.facts.trace.frame_t_ms@.len() == 0,
            final(self).data.facts.trace.trace_slot_positions@.len() == 0,
    {
        self.data.frames = Vec::new();
        self.data.facts.trace.frame_t_ms = Vec::new();
        self.data.facts.side.frame_count = 0;
        self.data.facts.trace.trace_slot_positions = Vec::new();
    }

    /// Appends one measured frame at `t_ms`.
    pub fn append_frame(&mut self, frame: LateFrame)
        requires
            old(self).data.facts.side.frame_count < u64::MAX,
        ensures
            final(self).data == (RecordFile {
                frames: final(self).data.frames,
                facts: RecordFacts {
                    side: SideFacts { frame_count: (old(self).data.facts.side.frame_count + 1) as u64, ..old(self).data.facts.side },
                    trace: TraceFacts { frame_t_ms: final(self).data.facts.trace.frame_t_ms, ..old(self).data.facts.trace },
                    ..old(self).data.facts
                },
                ..old(self).data
            }),
            final(self).paths == old(self).paths,
            final(self).data.frames@ == old(self).data.frames@.push(frame),
            final(self).data.facts.trace.frame_t_ms@ == old(self).data.facts.trace.frame_t_ms@.push(frame.t_ms),
    {
        self.data.frames.push(frame);
        self.data.facts.trace.frame_t_ms.push(frame.t_ms);
        self.data.facts.side.frame_count = self.data.facts.side.frame_count + 1;
    }

    /// Sets the user's memo of the signal chain.
    pub fn set_chain_memo(&mut self, memo: String)
        ensures
            final(self).data == (RecordFile { chain_memo: memo, ..old(self).data }),
            final(self).paths == old(self).paths,
    {
        self.data.chain_memo = memo;
    }

    /// Takes the Record's start as the single origin of its wall clocks: its timestamp, its
    /// heartbeat and both ends of the bounce become that start.
    pub fn set_record_start_wall_clock(&mut self, wall_clock: String)
        ensures
            final(self).data == (RecordFile {
                timestamp: final(self).data.timestamp,
                heartbeat: final(self).data.heartbeat,
                bounce_wall_clock_start: final(self).data.bounce_wall_clock_start,
                bounce_wall_clock_end: final(self).data.bounce_wall_clock_end,
                ..old(self).data
            }),
            final(self).data.timestamp@ == wall_clock@,
            final(self).data.heartbeat@ == wall_clock@,
            final(self).data.bounce_wall_clock_start@ == wall_clock@,
            final(self).data.bounce_wall_clock_end@ == wall_clock@,
            final(self).paths == old(self).paths,
    {
        self.data.timestamp = copy_string(&wall_clock);
        self.data.heartbeat = copy_string(&wall_clock);
        self.data.bounce_wall_clock_start = copy_string(&wall_clock);
        self.data.bounce_wall_clock_end = wall_clock;
    }

    /// Sets the bounce start: its wall clock and the hash of its first block.
    pub fn set_bounce_start(&mut self, wall_clock: String, first_block_hash: String)
        ensures
            final(self).data == (RecordFile {
                bounce_wall_clock_start: wall_clock,
                first_block_hash: first_block_hash,
                ..old(self).data
            }),
            final(self).paths == old(self).paths,
    {
        self.data.bounce_wall_clock_start = wall_clock;
        self.data.first_block_hash = first_block_hash;
    }

    /// Sets the bounce end: its wall clock, its length in samples and the hash of its last
    /// block.
    pub fn set_bounce_end(&mut self, wall_clock: String, duration_samples: u64, last_block_hash: String)
        ensures
            final(self).data == (RecordFile {
                bounce_wall_clock_end: wall_clock,
                bounce_marker_duration_samples: duration_samples,
                last_block_hash: last_block_hash,
                ..old(self).data
            }),
            final(self).paths == old(self).paths,
    {
        self.data.bounce_wall_clock_end = wall_clock;
        self.data.bounce_marker_duration_samples = duration_samples;
        self.data.last_block_hash = last_block_hash;
    }

    /// Sets the heartbeat to the current wall clock; nothing else changes.
    pub fn heartbeat_now(&mut self)
        ensures
            final(self).data == (RecordFile { heartbeat: final(self).data.heartbeat, ..old(self).data }),
            final(self).data.heartbeat@.len() > 0,
            final(self).paths == old(self).paths,
    {
        self.data.heartbeat = now_iso8601();
    }

    /// Sets the Record's bounce take.
    pub fn set_bounce_take(&mut self, take: BounceTake)
        ensures
            final(self).data == (RecordFile {
                facts: RecordFacts {
                    trace: TraceFacts { bounce_take: Some(take), ..old(self).data.facts.trace },
                    ..old(self).data.facts
                },
                ..old(self).data
            }),
            final(self).paths == old(self).paths,
    {
        self.data.facts.trace.bounce_take = Some(take);
    }

    /// Latches expected WAV metadata when it is usable. Without a usable one, a WAV reference
    /// the Record carried is dropped with its content alignment, and the Record falls back to
    /// the host clock axis when it has a TRACE clock.
    pub fn set_expected_wav(&mut self, expected_wav: Option<ExpectedWavFacts>)
        ensures
            final(self).paths == old(self).paths,
            (expected_wav matches Some(e) && e.usable) ==> final(self).data == (RecordFile {
                facts: RecordFacts {
                    expected_wav: expected_wav,
                    trace: TraceFacts {
                        expected_wav_time_reference_samples: expected_wav->0.wav_time_reference_samples,
                        ..old(self).data.facts.trace
                    },
                    ..old(self).data.facts
                },
                ..old(self).data
            }),
            !(expected_wav matches Some(e) && e.usable) ==> {
                &&& old(self).data.facts.trace_wav_reference is Some ==> final(self).data == (RecordFile {
                    facts: RecordFacts {
                        expected_wav: None,
                        trace: TraceFacts {
                            expected_wav_time_reference_samples: None,
                            ..old(self).data.facts.trace
                        },
                        trace_wav_reference: None,
                        canonical_wav_reference: false,
                        trace_axis: if old(self).data.facts.trace_clock is Some {
                            TraceAxis::HostClock
                        } else {
                            TraceAxis::Unrecognized
                        },
                        ..old(self).data.facts
                    },
                    trace_content_alignment: None,
                    ..old(self).data
                })
                &&& old(self).data.facts.trace_wav_reference is None ==> final(self).data == (RecordFile {
                    facts: RecordFacts {
                        expected_wav: None,
                        trace: TraceFacts {
                            expected_wav_time_reference_samples: None,
                            ..old(self).data.facts.trace
                        },
                        ..old(self).data.facts
                    },
                    ..old(self).data
                })
            },
    {
        let usable = match &expected_wav {
            Some(e) => e.usable,
            None => false,
        };
        if usable {
            let reference = match &expected_wav {
                Some(e) => e.wav_time_reference_samples,
                None => None,
            };
            self.data.facts.expected_wav = expected_wav;
            self.data.facts.trace.expected_wav_time_reference_samples = reference;
        } else {
            self.data.facts.expected_wav = None;
            self.data.facts.trace.expected_wav_time_reference_samples = None;
            if self.data.facts.trace_wav_reference.is_some() {
                self.data.facts.trace_wav_reference = None;
                self.data.trace_content_alignment = None;
                self.data.facts.canonical_wav_reference = false;
                self.data.facts.trace_axis = if self.data.facts.trace_clock.is_some() {
                    TraceAxis::HostClock
                } else {
                    TraceAxis::Unrecognized
                };
            }
        }
    }

    /// Replaces the provisional context frames of the pair and their slot positions.
    pub fn set_trace_context(&mut self, frames: Vec<LateFrame>, slot_positions: Vec<i64>)
        ensures
            final(self).data == (RecordFile {
                trace_context_frames: frames,
                trace_context_slot_positions: slot_positions,
                ..old(self).data
            }),
            final(self).paths == old(self).paths,
    {
        self.data.trace_context_frames = frames;
        self.data.trace_context_slot_positions = slot_positions;
    }

    /// Sets the raw host positions of the measured frames' slots.
    pub fn set_trace_raw_host_slot_positions(&mut self, positions: Vec<i64>)
        ensures
            final(self).data == (RecordFile { trace_raw_host_slot_positions: positions, ..old(self).data }),
            final(self).paths == old(self).paths,
    {
        self.data.trace_raw_host_slot_positions = positions;
    }

    /// Sets the TRACE bake diagnostics.
    pub fn set_trace_diagnostics(&mut self, diagnostics: TraceDiagnostics)
        ensures
            final(self).data == (RecordFile {
                facts: RecordFacts {
                    trace: TraceFacts { trace_diagnostics: Some(diagnostics), ..old(self).data.facts.trace },
                    ..old(self).data.facts
                },
                ..old(self).data
            }),
            final(self).paths == old(self).paths,
    {
        self.data.facts.trace.trace_diagnostics = Some(diagnostics);
    }

    /// Sets the axis the TRACE slots are positioned on.
    pub fn set_trace_time_axis(&mut self, axis: TraceAxis)
        ensures
            final(self).data == (RecordFile {
                facts: RecordFacts { trace_axis: axis, ..old(self).data.facts },
                ..old(self).data
            }),
            final(self).paths == old(self).paths,
    {
        self.data.facts.trace_axis = axis;
    }

    /// Sets the producer's TRACE clock and whether its basis is the canonical one.
    pub fn set_trace_clock(&mut self, trace_clock: Option<TraceClock>, basis_canonical: bool)
        ensures
            final(self).data == (RecordFile {
                facts: RecordFacts {
                    trace_clock: trace_clock,
                    trace_clock_basis_canonical: basis_canonical,
                    trace: TraceFacts {
                        trace_clock_origin_position_samples: match trace_clock {
                            Some(c) => Some(c.origin_position_samples),
                            None => None,
                        },
                        ..old(self).data.facts.trace
                    },
                    ..old(self).data.facts
                },
                ..old(self).data
            }),
            final(self).paths == old(self).paths,
    {
        let origin = match &trace_clock {
            Some(c) => Some(c.origin_position_samples),
            None => None,
        };
        self.data.facts.trace_clock = trace_clock;
        self.data.facts.trace_clock_basis_canonical = basis_canonical;
        self.data.facts.trace.trace_clock_origin_position_samples = origin;
    }

    /// Sets the untouched producer clock observations of the measured frames.
    pub fn set_trace_clock_observations(&mut self, observations: Vec<ClockObservation>)
        ensures
            final(self).data == (RecordFile {
                facts: RecordFacts {
                    trace: TraceFacts { trace_clock_observations: observations, ..old(self).data.facts.trace },
                    ..old(self).data.facts
                },
                ..old(self).data
            }),
            final(self).paths == old(self).paths,
    {
        self.data.facts.trace.trace_clock_observations = observations;
    }

    /// Sets the WAV-axis position of each measured frame's slot.
    pub fn set_trace_slot_positions(&mut self, positions: Vec<i64>)
        ensures
            final(self).data == (RecordFile {
                facts: RecordFacts {
                    trace: TraceFacts { trace_slot_positions: positions, ..old(self).data.facts.trace },
                    ..old(self).data.facts
                },
                ..old(self).data
            }),
            final(self).paths == old(self).paths,
    {
        self.data.facts.trace.trace_slot_positions = positions;
    }

    /// Sets the TRACE axis's reference to the exact dropped WAV, and whether it is canonical.
    pub fn set_trace_wav_reference(&mut self, reference: Option<TraceWavReference>, canonical: bool)
        ensures
            final(self).data == (RecordFile {
                facts: RecordFacts {
                    trace_wav_reference: reference,
                    canonical_wav_reference: canonical,
                    ..old(self).data.facts
                },
                ..old(self).data
            }),
            final(self).paths == old(self).paths,
    {
        self.data.facts.trace_wav_reference = reference;
        self.data.facts.canonical_wav_reference = canonical;
    }

    /// Cuts the frames and PSB snapshots to the take: those after `end_t_ms` are dropped.
    pub fn clip_timeline_to_duration(&mut self, end_t_ms: u64)
        ensures
            final(self).paths == old(self).paths,
            final(self).data.frames@ == crate::late_expected::frames_within(old(self).data.frames@, end_t_ms),
            final(self).data.facts.trace.frame_t_ms@ == crate::late_expected::frame_times(final(self).data.frames@),
            final(self).data.facts.side.frame_count == final(self).data.frames@.len(),
            match old(self).data.psb_snapshot_t_ms {
                Some(p) => final(self).data.psb_snapshot_t_ms matches Some(q) && q@
                    == crate::late_expected::times_within(p@, end_t_ms),
                None => final(self).data.psb_snapshot_t_ms is None,
            },
            final(self).data == (RecordFile {
                frames: final(self).data.frames,
                psb_snapshot_t_ms: final(self).data.psb_snapshot_t_ms,
                facts: RecordFacts {
                    side: SideFacts { frame_count: final(self).data.facts.side.frame_count, ..old(self).data.facts.side },
                    trace: TraceFacts { frame_t_ms: final(self).data.facts.trace.frame_t_ms, ..old(self).data.facts.trace },
                    ..old(self).data.facts
                },
                ..old(self).data
            }),
    {
        let kept = crate::late_expected::frames_within_all(&self.data.frames, end_t_ms);
        let times = crate::late_expected::frame_times_exec(&kept);
        let psb = match &self.data.psb_snapshot_t_ms {
            Some(p) => Some(crate::late_expected::times_within_exec(p, end_t_ms)),
            None => None,
        };
        self.data.facts.side.frame_count = kept.len() as u64;
        self.data.frames = kept;
        self.data.facts.trace.frame_t_ms = times;
        self.data.psb_snapshot_t_ms = psb;
    }

    /// Records how many samples the Record dropped, from the ring overflow and from oversized
    /// blocks; any drop degrades the Record's integrity, and a degraded Record stays degraded.
    pub fn set_integrity(&mut self, push_dropped: u64, oversized_dropped: u64)
        ensures
            final(self).paths == old(self).paths,
            final(self).data == (RecordFile {
                dropped_samples: if push_dropped + oversized_dropped > u64::MAX {
                    u64::MAX
                } else {
                    (push_dropped + oversized_dropped) as u64
                },
                facts: RecordFacts {
                    integrity_degraded: old(self).data.facts.integrity_degraded || push_dropped + oversized_dropped > 0,
                    ..old(self).data.facts
                },
                ..old(self).data
            }),
    {
        let total = push_dropped.saturating_add(oversized_dropped);
        self.data.dropped_samples = total;
        if total > 0 {
            self.data.facts.integrity_degraded = true;
        }
    }

    /// Marks the Record's integrity as degraded; the drop count is left alone.
    pub fn mark_integrity_degraded(&mut self)
        ensures
            final(self).paths == old(self).paths,
            final(self).data == (RecordFile {
                facts: RecordFacts { integrity_degraded: true, ..old(self).data.facts },
                ..old(self).data
            }),
    {
        self.data.facts.integrity_degraded = true;
    }

    /// Records a non-empty integrity reason once.
    pub fn add_integrity_reason(&mut self, reason: &'static str)
        ensures
            final(self).paths == old(self).paths,
            final(self).data == (RecordFile {
                facts: RecordFacts { integrity_reasons: final(self).data.facts.integrity_reasons, ..old(self).data.facts },
                ..old(self).data
            }),
            crate::path_model::strs_view(final(self).data.facts.integrity_reasons@) == if reason@.len() == 0 {
                crate::path_model::strs_view(old(self).data.facts.integrity_reasons@)
            } else {
                with_new_reasons(crate::path_model::strs_view(old(self).data.facts.integrity_reasons@), seq![reason@])
            },
    {
        if reason.is_empty() {
            return;
        }
        let one: [&'static str; 1] = [reason];
        assert(str_views(one@) == seq![reason@]);
        crate::record_gate::append_new_reasons(&mut self.data.facts.integrity_reasons, &one);
    }

    /// Appends a NOTE with `memo`, stamped with the current wall clock.
    pub fn append_annotation(&mut self, memo: String)
        ensures
            final(self).paths == old(self).paths,
            final(self).data == (RecordFile { annotations: final(self).data.annotations, ..old(self).data }),
            final(self).data.annotations@.len() == old(self).data.annotations@.len() + 1,
            final(self).data.annotations@.drop_last() == old(self).data.annotations@,
            final(self).data.annotations@.last().memo == memo,
            final(self).data.annotations@.last().mark is None,
            final(self).data.annotations@.last().t@.len() > 0,
    {
        let t = now_iso8601();
        self.data.annotations.push(Annotation { t, memo, mark: None });
    }

    /// Appends a MARK unless one with its id is already there; NOTEs are refused. Returns
    /// whether it was appended.
    pub fn append_record_mark_if_absent(&mut self, annotation: Annotation) -> (appended: bool)
        ensures
            final(self).paths == old(self).paths,
            appended == (annotation.mark is Some && !(exists|i: int|
                0 <= i < old(self).data.annotations@.len() && has_mark_id(
                    #[trigger] old(self).data.annotations@[i],
                    annotation.mark->0.id@,
                ))),
            final(self).data == (RecordFile { annotations: final(self).data.annotations, ..old(self).data }),
            final(self).data.annotations@ == if appended {
                old(self).data.annotations@.push(annotation)
            } else {
                old(self).data.annotations@
            },
    {
        let id = match &annotation.mark {
            Some(m) => m.id.as_str(),
            None => return false,
        };
        let mut i: usize = 0;
        while i < self.data.annotations.len()
            invariant
                i <= self.data.annotations@.len(),
                annotation.mark->0.id@ == id@,
                annotation.mark is Some,
                forall|j: int| 0 <= j < i ==> !has_mark_id(#[trigger] self.data.annotations@[j], id@),
            decreases self.data.annotations@.len() - i,
        {
            let same = match &self.data.annotations[i].mark {
                Some(m) => crate::path_model::str_equal(m.id.as_str(), id),
                None => false,
            };
            if same {
                return false;
            }
            i = i + 1;
        }
        self.data.annotations.push(annotation);
        true
    }

    /// Sets the Record's validity.
    pub fn set_validity(&mut self, valid: bool)
        ensures
            final(self).paths == old(self).paths,
            final(self).data == (RecordFile {
                facts: RecordFacts {
                    side: SideFacts { validity: valid, ..old(self).data.facts.side },
                    ..old(self).data.facts
                },
                ..old(self).data
            }),
    {
        self.data.facts.side.validity = valid;
    }

    /// Sets the Record's start, in Unix milliseconds.
    pub fn set_started_at_ms(&mut self, started_at_ms: i64)
        ensures
            final(self).paths == old(self).paths,
            final(self).data == (RecordFile { started_at_ms: started_at_ms, ..old(self).data }),
    {
        self.data.started_at_ms = started_at_ms;
    }

    /// Sets the Record session id, trimmed; a blank one is none.
    pub fn set_record_session_id(&mut self, session_id: Option<String>)
        ensures
            final(self).paths == old(self).paths,
            final(self).data == (RecordFile {
                facts: RecordFacts {
                    side: SideFacts {
                        record_session_id: final(self).data.facts.side.record_session_id,
                        ..old(self).data.facts.side
                    },
                    ..old(self).data.facts
                },
                ..old(self).data
            }),
            opt_view(final(self).data.facts.side.record_session_id) == crate::plugin_data::trimmed_session(
                opt_view(session_id),
            ),
    {
        self.data.facts.side.record_session_id = crate::plugin_data::non_empty_string(session_id);
    }

    /// Sets the capture generation, trimmed (a blank one is none), and its start, at least 0.
    pub fn set_capture_generation(&mut self, capture_generation_id: Option<String>, generation_started_at_ms: i64)
        ensures
            final(self).paths == old(self).paths,
            final(self).data == (RecordFile {
                facts: RecordFacts {
                    side: SideFacts {
                        capture_generation_id: final(self).data.facts.side.capture_generation_id,
                        generation_started_at_ms: if generation_started_at_ms > 0 {
                            generation_started_at_ms
                        } else {
                            0
                        },
                        ..old(self).data.facts.side
                    },
                    ..old(self).data.facts
                },
                ..old(self).data
            }),
            opt_view(final(self).data.facts.side.capture_generation_id) == crate::plugin_data::trimmed_session(
                opt_view(capture_generation_id),
            ),
    {
        self.data.facts.side.capture_generation_id = crate::plugin_data::non_empty_string(capture_generation_id);
        self.data.facts.side.generation_started_at_ms = if generation_started_at_ms > 0 {
            generation_started_at_ms
        } else {
            0
        };
    }

    /// Closes the Record. Its own integrity reasons are recorded (degrading it when there are
    /// any); then, when the side can be shown, it is committed as `pair_pending` and goes to its
    /// pair-pending path, else it is failed for its visibility reasons and goes to its failed
    /// path. Either way it gets a fresh quality summary.
    pub fn close_record(&mut self) -> (outcome: CloseOutcome)
        requires
            crate::pair_finalize::frames_fit(old(self).data),
        ensures
            final(self).paths == old(self).paths,
            final(self).data.closed,
            outcome == (if side_visibility_reasons(old(self).data.facts.side).len() == 0 {
                CloseOutcome::PairPending
            } else {
                CloseOutcome::Failed
            }),
            outcome == CloseOutcome::PairPending ==> closed_pending(old(self).data, final(self).data),
            outcome == CloseOutcome::Failed ==> exists|m: RecordFile|
                #[trigger] integrity_recorded(old(self).data, m) && failed_with(
                    m,
                    final(self).data,
                    side_visibility_reasons(old(self).data.facts.side),
                ),
    {
        self.data.closed = true;
        let reasons = side_publish_integrity_reasons(&self.data.facts);
        if reasons.len() > 0 {
            self.data.facts.integrity_degraded = true;
            crate::record_gate::append_new_reasons(&mut self.data.facts.integrity_reasons, reasons.as_slice());
        }
        let ghost m = self.data;
        let failures = side_visibility_failure_reasons(&self.data.facts.side);
        if failures.len() == 0 {
            self.data.facts.commit_status = Some("pair_pending".to_owned());
            self.data.record_quality = Some(crate::record_gate::refresh_record_quality(&self.data.facts));
            CloseOutcome::PairPending
        } else {
            crate::pair_finalize::fail_pair_record(&mut self.data, failures.as_slice());
            assert(integrity_recorded(old(self).data, m));
            CloseOutcome::Failed
        }
    }
}

/// `a` is a MARK with this id.
pub open spec fn has_mark_id(a: Annotation, id: Seq<char>) -> bool {
    a.mark matches Some(m) && m.id@ == id
}

/// `b` is `a` closed with its own integrity reasons recorded, degrading it when there are any.
pub open spec fn integrity_recorded(a: RecordFile, b: RecordFile) -> bool {
    let reasons = side_integrity_reasons(a.facts);
    &&& b == RecordFile {
        closed: true,
        facts: RecordFacts {
            integrity_degraded: a.facts.integrity_degraded || reasons.len() > 0,
            integrity_reasons: b.facts.integrity_reasons,
            ..a.facts
        },
        ..a
    }
    &&& crate::path_model::strs_view(b.facts.integrity_reasons@) == with_new_reasons(
        crate::path_model::strs_view(a.facts.integrity_reasons@),
        reasons,
    )
}

/// `b` is `a` closed, its own integrity reasons recorded, committed as `pair_pending`, with a
/// fresh quality summary.
pub open spec fn closed_pending(a: RecordFile, b: RecordFile) -> bool {
    let reasons = side_integrity_reasons(a.facts);
    &&& b == RecordFile {
        closed: true,
        facts: RecordFacts {
            integrity_degraded: a.facts.integrity_degraded || reasons.len() > 0,
            integrity_reasons: b.facts.integrity_reasons,
            commit_status: b.facts.commit_status,
            ..a.facts
        },
        record_quality: b.record_quality,
        ..a
    }
    &&& crate::path_model::strs_view(b.facts.integrity_reasons@) == with_new_reasons(
        crate::path_model::strs_view(a.facts.integrity_reasons@),
        reasons,
    )
    &&& opt_view(b.facts.commit_status) == Some("pair_pending"@)
    &&& b.record_quality matches Some(q) && quality_view(q) == record_quality(b.facts)
}

} // verus!
