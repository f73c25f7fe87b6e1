//! The editor's bookkeeping around a project: frame counts, the timeline
//! of a fresh project, and what the preview does for a playhead change.

use vstd::prelude::*;
use crate::fixed::{clip, plus, plus_spec, quot, Fixed, ONE};
use crate::project::{ClipOffsets, ProjectConfiguration, TimelineSegment};

verus! {

/// The length assumed for a recording whose length cannot be found: 5 s.
pub const DEFAULT_CLIP_DURATION: Fixed = 5_000_000_000;

/// Frames decoded ahead of the one that is shown.
pub const PREFETCH_FRAMES: u32 = 15;

/// While an export runs, the preview waits this many milliseconds before
/// it looks again.
pub const EXPORT_THROTTLE_MILLIS: u64 = 100;

/// The number of frames that `duration` seconds take at `fps` frames per
/// second: every frame that has begun counts.
pub open spec fn total_frames(fps: u32, duration: Fixed) -> u32 {
    let whole = (fps as int * duration as int + ONE as int - 1) / ONE as int;
    if duration <= 0 {
        0
    } else if whole > u32::MAX {
        u32::MAX
    } else {
        whole as u32
    }
}

/// The number of frames of a timeline of `duration` seconds at `fps`.
pub fn get_total_frames(fps: u32, duration: Fixed) -> (frames: u32)
    ensures
        frames == total_frames(fps, duration),
{
    if duration <= 0 {
        return 0;
    }
    let f: u128 = fps as u128;
    let d: u128 = duration as u128;
    assert(f * d <= 0xffff_ffff * 0x7fff_ffff_ffff_ffff) by (nonlinear_arith)
        requires
            f <= 0xffff_ffff,
            d <= 0x7fff_ffff_ffff_ffff,
    ;
    let whole: u128 = (f * d + 999_999_999) / 1_000_000_000;
    if whole > u32::MAX as u128 {
        u32::MAX
    } else {
        whole as u32
    }
}

/// The length of a video stream in units of its time base.
#[derive(Clone, Copy, Debug, PartialEq, Eq, Structural)]
pub struct StreamDuration {
    pub duration: i64,
    pub numerator: i32,
    pub denominator: i32,
}

/// The length in seconds that a file's metadata gives: the container's
/// length in microseconds where it is positive; else the length of the
/// video stream, where that and the time base's denominator are positive.
pub open spec fn metadata_duration(container_micros: i64, stream: Option<StreamDuration>) -> Option<
    Fixed,
> {
    if container_micros > 0 {
        Some(clip(container_micros as int * 1000) as Fixed)
    } else {
        match stream {
            Some(s) => if s.duration > 0 && s.denominator > 0 {
                Some(
                    clip(
                        quot(
                            s.duration as int * s.numerator as int * ONE as int,
                            s.denominator as int,
                        ),
                    ) as Fixed,
                )
            } else {
                None
            },
            None => None,
        }
    }
}

/// The length in seconds that a file's metadata gives.
pub fn duration_from_metadata(container_micros: i64, stream: Option<StreamDuration>) -> (seconds:
    Option<Fixed>)
    ensures
        seconds == metadata_duration(container_micros, stream),
{
    if container_micros > 0 {
        let nanos: i128 = (container_micros as i128) * 1000;
        return Some(
            if nanos > i64::MAX as i128 {
                i64::MAX
            } else {
                nanos as i64
            },
        );
    }
    match stream {
        Some(s) => {
            if s.duration > 0 && s.denominator > 0 {
                let duration: i128 = s.duration as i128;
                let numerator: i128 = s.numerator as i128;
                assert(-0x7fff_ffff_ffff_ffff * 0x8000_0000 <= duration * numerator
                    <= 0x7fff_ffff_ffff_ffff * 0x8000_0000) by (nonlinear_arith)
                    requires
                        0 < duration <= 0x7fff_ffff_ffff_ffff,
                        -0x8000_0000 <= numerator <= 0x8000_0000,
                ;
                let ticks: i128 = duration * numerator;
                assert(-0x7fff_ffff_ffff_ffff * 0x8000_0000 * 1_000_000_000 <= ticks
                    * 1_000_000_000 <= 0x7fff_ffff_ffff_ffff * 0x8000_0000 * 1_000_000_000)
                    by (nonlinear_arith)
                    requires
                        -0x7fff_ffff_ffff_ffff * 0x8000_0000 <= ticks <= 0x7fff_ffff_ffff_ffff
                            * 0x8000_0000,
                ;
                let scaled: i128 = ticks * 1_000_000_000;
                let den: i128 = s.denominator as i128;
                let seconds: i128 = if scaled >= 0 {
                    scaled / den
                } else {
                    -((-scaled) / den)
                };
                Some(
                    if seconds > i64::MAX as i128 {
                        i64::MAX
                    } else if seconds < i64::MIN as i128 {
                        i64::MIN
                    } else {
                        seconds as i64
                    },
                )
            } else {
                None
            }
        },
        None => None,
    }
}

/// The length to take for a recording: what the decoder says, else what
/// the file's metadata says, else five seconds.
pub fn resolve_duration(decoded: Option<Fixed>, metadata: Option<Fixed>) -> (seconds: Fixed)
    ensures
        seconds == (match decoded {
            Some(d) => d,
            None => match metadata {
                Some(m) => m,
                None => DEFAULT_CLIP_DURATION,
            },
        }),
{
    match decoded {
        Some(d) => d,
        None => match metadata {
            Some(m) => m,
            None => DEFAULT_CLIP_DURATION,
        },
    }
}

/// The number of a recording as a clip index, held at the largest.
pub open spec fn clip_index_of(i: int) -> u32 {
    if i > u32::MAX {
        u32::MAX
    } else {
        i as u32
    }
}

/// Where the timeline of the first `upto` recordings ends: the lengths of
/// those of positive length, added up.
pub open spec fn laid_end(durations: Seq<Fixed>, upto: int) -> int
    decreases upto,
{
    if upto <= 0 || upto > durations.len() {
        0
    } else if durations[upto - 1] > 0 {
        plus_spec(laid_end(durations, upto - 1), durations[upto - 1] as int)
    } else {
        laid_end(durations, upto - 1)
    }
}

/// The timeline segments for the first `upto` recordings of a project
/// without a timeline: each recording of positive length plays once, whole
/// and at normal speed, one behind the other.
pub open spec fn default_segments(durations: Seq<Fixed>, upto: int) -> Seq<TimelineSegment>
    decreases upto,
{
    if upto <= 0 || upto > durations.len() {
        Seq::empty()
    } else if durations[upto - 1] > 0 {
        default_segments(durations, upto - 1).push(
            TimelineSegment {
                recording_clip: clip_index_of(upto - 1),
                start: laid_end(durations, upto - 1) as Fixed,
                end: laid_end(durations, upto) as Fixed,
                timescale: ONE,
            },
        )
    } else {
        default_segments(durations, upto - 1)
    }
}

/// The timeline of a project that has none yet, from the lengths of its recordings.
pub fn default_timeline_segments(durations: &[Fixed]) -> (segments: Vec<TimelineSegment>)
    ensures
        segments@ == default_segments(durations@, durations@.len() as int),
{
    let n: usize = durations.len();
    let mut segments: Vec<TimelineSegment> = Vec::new();
    let mut end: Fixed = 0;
    let mut i: usize = 0;
    while i < n
        invariant
            n == durations@.len(),
            i <= n,
            end == laid_end(durations@, i as int),
            segments@ == default_segments(durations@, i as int),
        decreases n - i,
    {
        if durations[i] > 0 {
            let start: Fixed = end;
            end = plus(end, durations[i]);
            segments.push(
                TimelineSegment {
                    recording_clip: if i > u32::MAX as usize {
                        u32::MAX
                    } else {
                        i as u32
                    },
                    start,
                    end,
                    timescale: ONE,
                },
            );
        }
        i = i + 1;
    }
    segments
}

/// What else goes on in the editor when the playhead changes.
#[derive(Clone, Copy, Debug, PartialEq, Eq, Structural)]
pub struct EditorActivity {
    pub playback_active: bool,
    pub export_preview_active: bool,
    pub export_active: bool,
}

/// A frame to decode: clip `clip_index` at `segment_time` seconds into the
/// clip, with the clip's offsets.
#[derive(Clone, Copy, Debug, PartialEq, Eq, Structural)]
pub struct FrameRequest {
    pub frame_number: u32,
    pub clip_index: u32,
    pub segment_time: Fixed,
    pub offsets: ClipOffsets,
}

/// What the preview does for a new playhead.
#[derive(Clone, Debug)]
pub enum PreviewPlan {
    /// Playback shows the frames itself: nothing to do.
    Idle,
    /// An export runs: wait a little and look again.
    Throttle { millis: u64 },
    /// No segment of the timeline holds the frame.
    NoSegment,
    /// Decode and render `frame`, and decode the frames of `prefetch` ahead.
    Render { frame: FrameRequest, prefetch: Vec<FrameRequest> },
}

/// The time in seconds of frame `frame_number` at `fps` frames per second.
pub open spec fn frame_time(frame_number: u32, fps: u32) -> Fixed
    recommends
        fps > 0,
{
    clip(frame_number as int * ONE as int / fps as int) as Fixed
}

/// The request for frame `frame_number`, where the timeline holds it; at
/// a frame rate of zero no frame has a time.
pub open spec fn request_for(project: ProjectConfiguration, frame_number: u32, fps: u32) -> Option<
    FrameRequest,
> {
    if fps == 0 {
        None
    } else {
        match project.segment_time_spec(frame_time(frame_number, fps) as int) {
            Some((segment_time, segment)) => Some(
                FrameRequest {
                    frame_number,
                    clip_index: segment.recording_clip,
                    segment_time,
                    offsets: project.offsets_spec(segment.recording_clip),
                },
            ),
            None => None,
        }
    }
}

/// The requests for the frames `first ..= last` that the timeline holds,
/// in order.
pub open spec fn requests_between(
    project: ProjectConfiguration,
    first: int,
    last: int,
    fps: u32,
) -> Seq<FrameRequest>
    decreases last - first + 1,
{
    if last < first || last > u32::MAX || first < 0 {
        Seq::empty()
    } else {
        let rest = requests_between(project, first, last - 1, fps);
        match request_for(project, last as u32, fps) {
            Some(request) => rest.push(request),
            None => rest,
        }
    }
}

/// The frames to decode ahead of `frame_number`: the next fifteen, unless
/// playback or an export keeps the decoders busy.
pub open spec fn prefetch_for(
    project: ProjectConfiguration,
    frame_number: u32,
    fps: u32,
    activity: EditorActivity,
) -> Seq<FrameRequest> {
    if activity.playback_active || activity.export_preview_active || activity.export_active {
        Seq::empty()
    } else {
        requests_between(
            project,
            frame_number + 1,
            if frame_number + PREFETCH_FRAMES > u32::MAX {
                u32::MAX as int
            } else {
                frame_number + PREFETCH_FRAMES
            },
            fps,
        )
    }
}

fn time_of_frame(frame_number: u32, fps: u32) -> (seconds: Fixed)
    requires
        fps > 0,
    ensures
        seconds == frame_time(frame_number, fps),
{
    let f: u128 = frame_number as u128;
    let v: u128 = f * 1_000_000_000 / (fps as u128);
    if v > i64::MAX as u128 {
        i64::MAX
    } else {
        v as i64
    }
}

fn request_frame(project: &ProjectConfiguration, frame_number: u32, fps: u32) -> (request: Option<
    FrameRequest,
>)
    ensures
        request == request_for(*project, frame_number, fps),
{
    if fps == 0 {
        return None;
    }
    match project.get_segment_time(time_of_frame(frame_number, fps)) {
        Some((segment_time, segment)) => Some(
            FrameRequest {
                frame_number,
                clip_index: segment.recording_clip,
                segment_time,
                offsets: project.clip_offsets(segment.recording_clip),
            },
        ),
        None => None,
    }
}

/// Decides what the preview does for the playhead at frame `frame_number`.
pub fn plan_preview(
    project: &ProjectConfiguration,
    frame_number: u32,
    fps: u32,
    activity: EditorActivity,
) -> (plan: PreviewPlan)
    ensures
        match plan {
            PreviewPlan::Idle => activity.playback_active,
            PreviewPlan::Throttle { millis } => !activity.playback_active && activity.export_active
                && millis == EXPORT_THROTTLE_MILLIS,
            PreviewPlan::NoSegment => !activity.playback_active && !activity.export_active
                && request_for(*project, frame_number, fps) is None,
            PreviewPlan::Render { frame, prefetch } => {
                &&& !activity.playback_active
                &&& !activity.export_active
                &&& request_for(*project, frame_number, fps) == Some(frame)
                &&& prefetch@ == prefetch_for(*project, frame_number, fps, activity)
            },
        },
{
    if activity.playback_active {
        return PreviewPlan::Idle;
    }
    if activity.export_active {
        return PreviewPlan::Throttle { millis: EXPORT_THROTTLE_MILLIS };
    }
    let frame = match request_frame(project, frame_number, fps) {
        Some(frame) => frame,
        None => {
            return PreviewPlan::NoSegment;
        },
    };
    let mut prefetch: Vec<FrameRequest> = Vec::new();
    if !activity.export_preview_active {
        let last: u32 = if frame_number > u32::MAX - PREFETCH_FRAMES {
            u32::MAX
        } else {
            frame_number + PREFETCH_FRAMES
        };
        let mut next: u32 = frame_number;
        while next < last
            invariant
                frame_number <= next <= last,
                prefetch@ == requests_between(*project, frame_number + 1, next as int, fps),
            decreases last - next,
        {
            next = next + 1;
            match request_frame(project, next, fps) {
                Some(request) => {
                    prefetch.push(request);
                },
                None => {},
            }
        }
    }
    PreviewPlan::Render { frame, prefetch }
}

} // verus!
