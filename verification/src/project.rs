//! The parts of a project's configuration that the core reads: scene and
//! text segments of the timeline, overlays, and the plain pair type.

use vstd::prelude::*;
use crate::fixed::{minus, minus_spec, times, times_spec, Fixed};

verus! {

/// A pair of coordinates or extents.
#[derive(Clone, Copy, Debug, PartialEq, Eq)]
pub struct XY<T> {
    pub x: T,
    pub y: T,
}

impl<T> XY<T> {
    /// The pair of `x` and `y`.
    pub fn new(x: T, y: T) -> (r: Self)
        ensures
            r.x == x,
            r.y == y,
    {
        XY { x, y }
    }
}

/// How screen and camera are composed during a span of the timeline.
#[derive(Clone, Copy, Debug, PartialEq, Eq, Structural)]
pub enum SceneMode {
    Default,
    CameraOnly,
    HideCamera,
    SplitScreenLeft,
    SplitScreenRight,
}

/// The span `[start, end)` of the edited timeline shown in one scene mode.
#[derive(Clone, Copy, Debug, PartialEq, Eq)]
pub struct SceneSegment {
    pub start: Fixed,
    pub end: Fixed,
    pub mode: SceneMode,
}

/// A position keyframe of a text segment; `time` counts from the segment's
/// start.
#[derive(Clone, Copy, Debug, PartialEq, Eq, Structural)]
pub struct TextVectorKeyframe {
    pub time: Fixed,
    pub x: Fixed,
    pub y: Fixed,
}

/// An opacity keyframe of a text segment; `time` counts from the segment's
/// start.
#[derive(Clone, Copy, Debug, PartialEq, Eq, Structural)]
pub struct TextScalarKeyframe {
    pub time: Fixed,
    pub value: Fixed,
}

/// The keyframe tracks of a text segment.
#[derive(Clone, Debug)]
pub struct TextKeyframes {
    pub position: Vec<TextVectorKeyframe>,
    pub opacity: Vec<TextScalarKeyframe>,
}

impl Default for TextKeyframes {
    fn default() -> (r: Self)
        ensures
            r.position@.len() == 0,
            r.opacity@.len() == 0,
    {
        TextKeyframes { position: Vec::new(), opacity: Vec::new() }
    }
}

/// A text shown from `start` to `end` of the edited timeline.
#[derive(Clone, Debug)]
pub struct TextSegment {
    pub start: Fixed,
    pub end: Fixed,
    pub enabled: bool,
    pub content: String,
    pub center: XY<Fixed>,
    pub size: XY<Fixed>,
    pub font_family: String,
    pub font_size: Fixed,
    pub font_weight: Fixed,
    pub italic: bool,
    pub color: String,
    pub fade_duration: Fixed,
    pub keyframes: TextKeyframes,
}

/// How a track's two channels are routed into the mix.
#[derive(Clone, Copy, Debug, PartialEq, Eq, Structural)]
pub enum StereoMode {
    /// Left to left, right to right.
    Stereo,
    /// The left channel to both.
    MonoL,
    /// The right channel to both.
    MonoR,
    /// The mean of both channels to both.
    MonoMix,
}

/// Where each audio track of a clip begins relative to the start of its
/// video, in seconds; a positive offset means the track starts later.
#[derive(Clone, Copy, Debug, PartialEq, Eq, Structural)]
pub struct ClipOffsets {
    pub camera: Fixed,
    pub mic: Fixed,
    pub system_audio: Fixed,
}

impl Default for ClipOffsets {
    fn default() -> (r: Self)
        ensures
            r == (ClipOffsets { camera: 0, mic: 0, system_audio: 0 }),
    {
        ClipOffsets { camera: 0, mic: 0, system_audio: 0 }
    }
}

/// The settings of the clip with the index `index`.
#[derive(Clone, Copy, Debug, PartialEq, Eq, Structural)]
pub struct ClipConfiguration {
    pub index: u32,
    pub offsets: ClipOffsets,
}

/// The project's audio settings; volumes are in decibels.
#[derive(Clone, Copy, Debug, PartialEq, Eq, Structural)]
pub struct AudioConfiguration {
    pub mute: bool,
    pub mic_volume_db: Fixed,
    pub mic_stereo_mode: StereoMode,
    pub system_volume_db: Fixed,
}

/// The span `[start, end)` of the edited timeline that plays clip
/// `recording_clip` at the rate `timescale`.
#[derive(Clone, Copy, Debug, PartialEq, Eq, Structural)]
pub struct TimelineSegment {
    pub recording_clip: u32,
    pub start: Fixed,
    pub end: Fixed,
    pub timescale: Fixed,
}

/// The edited timeline: which clip plays when, and the scenes and texts laid over it.
#[derive(Clone, Debug)]
pub struct TimelineConfiguration {
    pub segments: Vec<TimelineSegment>,
    pub scene_segments: Vec<SceneSegment>,
    pub text_segments: Vec<TextSegment>,
}

/// What the core reads of a project.
#[derive(Clone, Debug)]
pub struct ProjectConfiguration {
    pub timeline: Option<TimelineConfiguration>,
    pub clips: Vec<ClipConfiguration>,
    pub audio: AudioConfiguration,
}

/// The first index from `from` on whose segment holds `time` in
/// `[start, end)`: the start belongs to a segment, the end does not.
pub open spec fn segment_at(segments: Seq<TimelineSegment>, time: int, from: int) -> Option<int>
    decreases segments.len() - from,
{
    if from < 0 || from >= segments.len() {
        None
    } else if segments[from].start <= time && time < segments[from].end {
        Some(from)
    } else {
        segment_at(segments, time, from + 1)
    }
}

/// The time inside the clip that `time` of the edited timeline shows.
pub open spec fn clip_time(segment: TimelineSegment, time: int) -> int {
    times_spec(minus_spec(time, segment.start as int), segment.timescale as int)
}

/// The first clip in `clips` with the index `index`.
pub open spec fn clip_with_index(clips: Seq<ClipConfiguration>, index: u32, from: int) -> Option<
    ClipConfiguration,
>
    decreases clips.len() - from,
{
    if from < 0 || from >= clips.len() {
        None
    } else if clips[from].index == index {
        Some(clips[from])
    } else {
        clip_with_index(clips, index, from + 1)
    }
}

impl TimelineConfiguration {
    /// The length of the edited timeline: the end of its last segment, or
    /// zero for a timeline without segments.
    pub open spec fn duration_spec(self) -> Fixed {
        if self.segments@.len() == 0 {
            0
        } else {
            self.segments@[self.segments@.len() - 1].end
        }
    }

    /// The length of the edited timeline in seconds.
    pub fn duration(&self) -> (seconds: Fixed)
        ensures
            seconds == self.duration_spec(),
    {
        let n: usize = self.segments.len();
        if n == 0 {
            0
        } else {
            self.segments[n - 1].end
        }
    }

    /// The clip and the time inside it that are shown at `time`, or `None`
    /// where no segment holds `time`.
    pub open spec fn segment_time_spec(self, time: int) -> Option<(Fixed, TimelineSegment)> {
        match segment_at(self.segments@, time, 0) {
            Some(i) => Some((clip_time(self.segments@[i], time) as Fixed, self.segments@[i])),
            None => None,
        }
    }

    pub fn get_segment_time(&self, time: Fixed) -> (found: Option<(Fixed, &TimelineSegment)>)
        ensures
            match found {
                Some((segment_time, segment)) => self.segment_time_spec(time as int) == Some(
                    (segment_time, *segment),
                ),
                None => self.segment_time_spec(time as int) is None,
            },
    {
        let n: usize = self.segments.len();
        let mut i: usize = 0;
        while i < n
            invariant
                n == self.segments@.len(),
                i <= n,
                segment_at(self.segments@, time as int, 0) == segment_at(
                    self.segments@,
                    time as int,
                    i as int,
                ),
            decreases n - i,
        {
            let segment: &TimelineSegment = &self.segments[i];
            if segment.start <= time && time < segment.end {
                return Some((times(minus(time, segment.start), segment.timescale), segment));
            }
            i = i + 1;
        }
        None
    }
}

impl ProjectConfiguration {
    pub open spec fn segment_time_spec(self, time: int) -> Option<(Fixed, TimelineSegment)> {
        match self.timeline {
            Some(timeline) => timeline.segment_time_spec(time),
            None => None,
        }
    }

    pub fn get_segment_time(&self, time: Fixed) -> (found: Option<(Fixed, &TimelineSegment)>)
        ensures
            match found {
                Some((segment_time, segment)) => self.segment_time_spec(time as int) == Some(
                    (segment_time, *segment),
                ),
                None => self.segment_time_spec(time as int) is None,
            },
    {
        match &self.timeline {
            Some(timeline) => timeline.get_segment_time(time),
            None => None,
        }
    }

    /// The offsets of the clip with the index `clip_index`; all zero where
    /// the project names no such clip.
    pub open spec fn offsets_spec(self, clip_index: u32) -> ClipOffsets {
        match clip_with_index(self.clips@, clip_index, 0) {
            Some(clip) => clip.offsets,
            None => ClipOffsets { camera: 0, mic: 0, system_audio: 0 },
        }
    }

    /// The offsets of the clip with the index `clip_index`.
    pub fn clip_offsets(&self, clip_index: u32) -> (offsets: ClipOffsets)
        ensures
            offsets == self.offsets_spec(clip_index),
    {
        let n: usize = self.clips.len();
        let mut i: usize = 0;
        while i < n
            invariant
                n == self.clips@.len(),
                i <= n,
                clip_with_index(self.clips@, clip_index, 0) == clip_with_index(
                    self.clips@,
                    clip_index,
                    i as int,
                ),
            decreases n - i,
        {
            if self.clips[i].index == clip_index {
                return self.clips[i].offsets;
            }
            i = i + 1;
        }
        ClipOffsets::default()
    }
}

} // verus!
