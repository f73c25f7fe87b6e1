//! Audio rendering: the cursor that follows the edited timeline through the
//! clips' audio, the buffers that hold rendered audio for playback, and the
//! digest that tells when rendered audio is stale.

use vstd::prelude::*;
use crate::fixed::{
    clamp_spec, max, max_spec, minus, minus_spec, scale, scale_spec, Fixed, ONE,
};
use crate::ring::{popped, pushed, ring_capacity, ring_contents, SampleRing};
use crate::mixer::{
    latest_end, mixed, render_audio, track_end, track_views, AudioData, AudioRendererTrack,
    TrackView,
};
use crate::project::{
    AudioConfiguration, ClipConfiguration, ClipOffsets, ProjectConfiguration, StereoMode,
    TimelineConfiguration, TimelineSegment,
};
use std::sync::Arc;

verus! {

/// The rate of the mix, in samples per second and channel.
pub const SAMPLE_RATE: u32 = 48_000;

/// The mix is stereo.
pub const CHANNELS: u16 = 2;

/// One thirtieth of a second of samples: how far the cursor may stand from
/// where the timeline puts it before it is moved there.
pub const DRIFT_TOLERANCE: usize = 1600;

/// Tracks at -30 dB or quieter are left out of the mix.
pub const SILENCE_THRESHOLD_DB: Fixed = -30_000_000_000;

/// Output to more than eight channels is not supported.
pub const MAX_OUTPUT_CHANNELS: usize = 8;

/// Mix-rate frames rendered at a time for the playback ring.
pub const PROCESSING_SAMPLES_COUNT: u32 = 1024;

/// Mix-rate frames rendered at a time when a whole timeline is rendered.
pub const PRERENDER_CHUNK: usize = 4096;

/// The number of the sample that plays at `playhead` seconds; times before
/// zero count as zero.
pub open spec fn samples_at(playhead: int) -> nat {
    if playhead <= 0 {
        0
    } else if playhead * SAMPLE_RATE as int / ONE as int > usize::MAX {
        usize::MAX as nat
    } else {
        (playhead * SAMPLE_RATE as int / ONE as int) as nat
    }
}

/// The time in seconds at which sample number `samples` plays.
pub open spec fn playhead_at(samples: nat) -> int {
    if samples * ONE as int / SAMPLE_RATE as int > i64::MAX {
        i64::MAX as int
    } else {
        samples * ONE as int / SAMPLE_RATE as int
    }
}

/// A number of seconds, which may be negative, as a number of samples,
/// rounded toward zero.
pub open spec fn offset_samples(seconds: int) -> int {
    scale_spec(seconds, SAMPLE_RATE as int, ONE as int)
}

/// The number of the sample that plays at `playhead` seconds.
pub fn playhead_to_samples(playhead: Fixed) -> (samples: usize)
    ensures
        samples == samples_at(playhead as int),
{
    if playhead <= 0 {
        0
    } else {
        let p: u128 = playhead as u128;
        assert(p * 48_000 <= 0x7fff_ffff_ffff_ffff * 48_000) by (nonlinear_arith)
            requires
                p <= 0x7fff_ffff_ffff_ffff,
        ;
        let v: u128 = p * 48_000 / 1_000_000_000;
        if v > usize::MAX as u128 {
            usize::MAX
        } else {
            v as usize
        }
    }
}

/// The time in seconds at which sample number `samples` plays.
pub fn samples_to_playhead(samples: usize) -> (playhead: Fixed)
    ensures
        playhead == playhead_at(samples as nat),
{
    let s: u128 = samples as u128;
    assert(s * 1_000_000_000 <= 0xffff_ffff_ffff_ffff * 1_000_000_000) by (nonlinear_arith)
        requires
            s <= 0xffff_ffff_ffff_ffff,
    ;
    let v: u128 = s * 1_000_000_000 / 48_000;
    if v > i64::MAX as u128 {
        i64::MAX
    } else {
        v as i64
    }
}

/// Which of a clip's recordings a track is; it decides which of the
/// project's settings apply to the track.
#[derive(Clone, Copy, Debug, PartialEq, Eq, Structural)]
pub enum TrackKind {
    Mic,
    CameraMic,
    SystemAudio,
}

/// One audio track of a clip: its decoded audio, shared with whoever else
/// plays it, and which recording it is.
#[derive(Clone, Debug)]
pub struct AudioSegmentTrack {
    pub data: Arc<AudioData>,
    pub kind: TrackKind,
}

impl AudioSegmentTrack {
    pub fn new(data: Arc<AudioData>, kind: TrackKind) -> (track: Self)
        ensures
            track.data == data,
            track.kind == kind,
    {
        AudioSegmentTrack { data, kind }
    }

    pub fn data(&self) -> (data: &Arc<AudioData>)
        ensures
            *data == self.data,
    {
        &self.data
    }

    /// The track's volume in decibels: the system volume for system audio,
    /// the microphone's for the others.
    pub open spec fn gain_spec(self, config: AudioConfiguration) -> Fixed {
        match self.kind {
            TrackKind::SystemAudio => config.system_volume_db,
            _ => config.mic_volume_db,
        }
    }

    pub fn gain(&self, config: &AudioConfiguration) -> (db: Fixed)
        ensures
            db == self.gain_spec(*config),
    {
        match self.kind {
            TrackKind::SystemAudio => config.system_volume_db,
            _ => config.mic_volume_db,
        }
    }

    /// The track's routing: system audio is always stereo.
    pub open spec fn stereo_mode_spec(self, config: AudioConfiguration) -> StereoMode {
        match self.kind {
            TrackKind::SystemAudio => StereoMode::Stereo,
            _ => config.mic_stereo_mode,
        }
    }

    pub fn stereo_mode(&self, config: &AudioConfiguration) -> (mode: StereoMode)
        ensures
            mode == self.stereo_mode_spec(*config),
    {
        match self.kind {
            TrackKind::SystemAudio => StereoMode::Stereo,
            _ => config.mic_stereo_mode,
        }
    }

    /// The track's offset in seconds.
    pub open spec fn offset_spec(self, offsets: ClipOffsets) -> Fixed {
        match self.kind {
            TrackKind::Mic => offsets.mic,
            TrackKind::CameraMic => offsets.camera,
            TrackKind::SystemAudio => offsets.system_audio,
        }
    }

    pub fn offset(&self, offsets: &ClipOffsets) -> (seconds: Fixed)
        ensures
            seconds == self.offset_spec(*offsets),
    {
        match self.kind {
            TrackKind::Mic => offsets.mic,
            TrackKind::CameraMic => offsets.camera,
            TrackKind::SystemAudio => offsets.system_audio,
        }
    }

    /// The frame of the clip behind the track's last: the track's length
    /// in frames behind its offset, and not before the clip's start.
    pub open spec fn available_spec(self, offsets: ClipOffsets) -> nat {
        let left = self.data.frames() + offset_samples(self.offset_spec(offsets) as int);
        if left <= 0 {
            0
        } else if left > usize::MAX {
            usize::MAX as nat
        } else {
            left as nat
        }
    }

    /// Whether the track is heard: the project is not muted and the track
    /// is louder than -30 dB.
    pub open spec fn is_heard(self, config: AudioConfiguration) -> bool {
        !config.mute && self.gain_spec(config) > SILENCE_THRESHOLD_DB
    }

    /// The track as the mixer takes it, with the gain `gain`.
    pub open spec fn mixer_view(
        self,
        gain: Option<Fixed>,
        config: AudioConfiguration,
        offsets: ClipOffsets,
    ) -> TrackView {
        TrackView {
            samples: self.data.samples@,
            gain,
            stereo_mode: self.stereo_mode_spec(config),
            offset: offset_samples(self.offset_spec(offsets) as int),
        }
    }

    fn available(&self, offsets: &ClipOffsets) -> (n: usize)
        ensures
            n == self.available_spec(*offsets),
    {
        let shift: i64 = scale(self.offset(offsets), 48_000, ONE);
        let left: i128 = self.data.sample_count() as i128 + shift as i128;
        if left <= 0 {
            0
        } else if left > usize::MAX as i128 {
            usize::MAX
        } else {
            left as usize
        }
    }
}

/// The audio tracks of one clip.
#[derive(Clone, Debug)]
pub struct AudioSegment {
    pub tracks: Vec<AudioSegmentTrack>,
}

/// Where the renderer stands: in which clip, how many frames into it, and
/// at which speed the segment plays.
#[derive(Clone, Copy, Debug, PartialEq, Eq, Structural)]
pub struct AudioRendererCursor {
    pub clip_index: u32,
    pub timescale: Fixed,
    /// Frames into the clip.
    pub samples: usize,
}

/// Renders the audio of the edited timeline, some frames at a time.
pub struct AudioRenderer {
    pub data: Vec<AudioSegment>,
    pub cursor: AudioRendererCursor,
    /// Frames rendered or skipped since the start of the timeline.
    pub elapsed_samples: usize,
}

/// The frame of the clip behind the last frame of the first `upto`
/// tracks.
pub open spec fn longest_available(
    tracks: Seq<AudioSegmentTrack>,
    offsets: ClipOffsets,
    upto: int,
) -> nat
    decreases upto,
{
    if upto <= 0 || upto > tracks.len() {
        0
    } else {
        let rest = longest_available(tracks, offsets, upto - 1);
        let here = tracks[upto - 1].available_spec(offsets);
        if here > rest {
            here
        } else {
            rest
        }
    }
}

/// `a + b`, held at the largest `usize`.
pub open spec fn advance_spec(a: usize, b: usize) -> usize {
    if a + b > usize::MAX {
        usize::MAX
    } else {
        (a + b) as usize
    }
}

/// Where the timeline puts the cursor once `elapsed` frames have played.
pub open spec fn expected_cursor(
    timeline: TimelineConfiguration,
    elapsed: usize,
) -> AudioRendererCursor {
    match timeline.segment_time_spec(playhead_at(elapsed as nat)) {
        Some((segment_time, segment)) => AudioRendererCursor {
            clip_index: segment.recording_clip,
            timescale: segment.timescale,
            samples: samples_at(segment_time as int) as usize,
        },
        None => AudioRendererCursor { clip_index: 0, timescale: ONE, samples: 0 },
    }
}

/// The distance between two frame counts.
pub open spec fn distance(a: usize, b: usize) -> nat {
    if a >= b {
        (a - b) as nat
    } else {
        (b - a) as nat
    }
}

/// Whether the cursor has come too far from where it is expected: another
/// clip, or more than a thirtieth of a second away.
pub open spec fn has_drifted(cursor: AudioRendererCursor, expected: AudioRendererCursor) -> bool {
    expected.clip_index != cursor.clip_index || distance(expected.samples, cursor.samples)
        > DRIFT_TOLERANCE
}

/// Whether `gains` are the gains that the tracks go to the mixer with:
/// none for a track that is not heard, else what `gain_of` makes of the
/// track's volume in decibels.
pub open spec fn gains_follow<F: Fn(Fixed) -> Fixed>(
    gain_of: &F,
    tracks: Seq<AudioSegmentTrack>,
    config: AudioConfiguration,
    gains: Seq<Option<Fixed>>,
) -> bool {
    &&& gains.len() == tracks.len()
    &&& forall|i: int|
        0 <= i < tracks.len() ==> (match #[trigger] gains[i] {
            Some(gain) => tracks[i].is_heard(config) && gain_of.ensures(
                (tracks[i].gain_spec(config),),
                gain,
            ),
            None => !tracks[i].is_heard(config),
        })
}

/// The tracks as the mixer takes them, with the gains `gains`.
pub open spec fn mixer_views(
    tracks: Seq<AudioSegmentTrack>,
    gains: Seq<Option<Fixed>>,
    config: AudioConfiguration,
    offsets: ClipOffsets,
) -> Seq<TrackView> {
    Seq::new(tracks.len(), |i: int| tracks[i].mixer_view(gains[i], config, offsets))
}

/// The renderer and the mixer agree on where a clip's audio ends.
pub proof fn lemma_longest_is_latest(
    tracks: Seq<AudioSegmentTrack>,
    gains: Seq<Option<Fixed>>,
    config: AudioConfiguration,
    offsets: ClipOffsets,
    upto: int,
)
    requires
        0 <= upto <= tracks.len(),
    ensures
        longest_available(tracks, offsets, upto) == (if upto == 0 {
            0
        } else {
            clamp_spec(
                latest_end(mixer_views(tracks, gains, config, offsets), upto),
                0,
                usize::MAX as int,
            )
        }),
    decreases upto,
{
    if upto > 0 {
        lemma_longest_is_latest(tracks, gains, config, offsets, upto - 1);
        let views = mixer_views(tracks, gains, config, offsets);
        assert(track_end(views[upto - 1]) == tracks[upto - 1].data.frames() + offset_samples(
            tracks[upto - 1].offset_spec(offsets) as int,
        ));
    }
}

impl AudioRenderer {
    /// A renderer at the start of the first clip; `data` holds the clips'
    /// audio by clip index.
    pub fn new(data: Vec<AudioSegment>) -> (renderer: Self)
        ensures
            renderer.data == data,
            renderer.cursor == (AudioRendererCursor { clip_index: 0, timescale: ONE, samples: 0 }),
            renderer.elapsed_samples == 0,
    {
        AudioRenderer {
            data,
            cursor: AudioRendererCursor { clip_index: 0, samples: 0, timescale: ONE },
            elapsed_samples: 0,
        }
    }

    /// The cursor after the drift check against the timeline.
    pub open spec fn adjusted_cursor(self, project: ProjectConfiguration) -> AudioRendererCursor {
        match project.timeline {
            Some(timeline) => if has_drifted(
                self.cursor,
                expected_cursor(timeline, self.elapsed_samples),
            ) {
                expected_cursor(timeline, self.elapsed_samples)
            } else {
                self.cursor
            },
            None => self.cursor,
        }
    }

    /// The tracks of the clip under `cursor`; none for a clip that the
    /// renderer holds no audio of.
    pub open spec fn tracks_at(self, cursor: AudioRendererCursor) -> Seq<AudioSegmentTrack> {
        if cursor.clip_index < self.data@.len() {
            self.data@[cursor.clip_index as int].tracks@
        } else {
            Seq::empty()
        }
    }

    /// The frames that the clip under `cursor` offers.
    pub open spec fn max_samples(
        self,
        cursor: AudioRendererCursor,
        project: ProjectConfiguration,
    ) -> nat {
        longest_available(
            self.tracks_at(cursor),
            project.offsets_spec(cursor.clip_index),
            self.tracks_at(cursor).len() as int,
        )
    }

    /// Whether nothing is to be mixed at `cursor`: the segment does not play
    /// at normal speed, the clip has no tracks, or the cursor stands behind
    /// the end of all of them.
    pub open spec fn is_silent(
        self,
        cursor: AudioRendererCursor,
        project: ProjectConfiguration,
    ) -> bool {
        ||| cursor.timescale != ONE
        ||| self.tracks_at(cursor).len() == 0
        ||| cursor.samples >= self.max_samples(cursor, project)
    }

    /// The frames to ask of the mixer at `cursor` for `samples` frames: as
    /// many of them as the clip still offers.
    pub open spec fn frames_to_mix(
        self,
        cursor: AudioRendererCursor,
        samples: usize,
        project: ProjectConfiguration,
    ) -> int {
        let left = self.max_samples(cursor, project) - cursor.samples;
        if samples <= left {
            samples as int
        } else {
            left
        }
    }

    /// Whether `count` frames with the samples `data` are the mix at
    /// `cursor` of up to `samples` frames, for some gains that `gain_of`
    /// gives.
    pub open spec fn is_mix_at<F: Fn(Fixed) -> Fixed>(
        self,
        cursor: AudioRendererCursor,
        samples: usize,
        project: ProjectConfiguration,
        gain_of: &F,
        count: usize,
        data: Seq<Fixed>,
    ) -> bool {
        exists|gains: Seq<Option<Fixed>>|
            {
                &&& #[trigger] gains_follow(gain_of, self.tracks_at(cursor), project.audio, gains)
                &&& count == self.frames_to_mix(cursor, samples, project)
                &&& data == mixed(
                    self.views_at(cursor, project, gains),
                    cursor.samples as int,
                    count as int,
                )
            }
    }

    /// The tracks of the clip under `cursor` as the mixer takes them.
    pub open spec fn views_at(
        self,
        cursor: AudioRendererCursor,
        project: ProjectConfiguration,
        gains: Seq<Option<Fixed>>,
    ) -> Seq<TrackView> {
        mixer_views(
            self.tracks_at(cursor),
            gains,
            project.audio,
            project.offsets_spec(cursor.clip_index),
        )
    }

    /// Where the cursor stands at `playhead` seconds of the edited
    /// timeline: in the clip and at the frame that the timeline shows then,
    /// or, behind the timeline's end, in the first clip at the frame of the
    /// playhead.
    pub open spec fn cursor_at(project: ProjectConfiguration, playhead: int) -> AudioRendererCursor {
        match project.segment_time_spec(playhead) {
            Some((segment_time, segment)) => AudioRendererCursor {
                clip_index: segment.recording_clip,
                timescale: segment.timescale,
                samples: samples_at(segment_time as int) as usize,
            },
            None => AudioRendererCursor {
                clip_index: 0,
                timescale: ONE,
                samples: samples_at(playhead) as usize,
            },
        }
    }

    /// Whether rendering `samples` frames takes the renderer to `after` and
    /// gives `rendered`. The cursor is first checked against the timeline.
    /// A silent stretch gives nothing and counts as elapsed; otherwise the
    /// clip's tracks are mixed, as many frames as the clip still offers,
    /// and both counters go on by the number of frames mixed.
    pub open spec fn renders<F: Fn(Fixed) -> Fixed>(
        self,
        after: AudioRenderer,
        samples: usize,
        project: ProjectConfiguration,
        gain_of: &F,
        rendered: Option<(usize, Vec<Fixed>)>,
    ) -> bool {
        let start = self.adjusted_cursor(project);
        &&& after.data == self.data
        &&& match rendered {
            None => {
                &&& self.is_silent(start, project)
                &&& after.cursor == start
                &&& after.elapsed_samples == advance_spec(self.elapsed_samples, samples)
            },
            Some((count, data)) => {
                &&& !self.is_silent(start, project)
                &&& self.is_mix_at(start, samples, project, gain_of, count, data@)
                &&& after.elapsed_samples == advance_spec(self.elapsed_samples, count)
                &&& after.cursor == (AudioRendererCursor {
                    clip_index: start.clip_index,
                    timescale: start.timescale,
                    samples: advance_spec(start.samples, count),
                })
            },
        }
    }

    /// Moves the renderer to `playhead` seconds of the edited timeline.
    pub fn set_playhead(&mut self, playhead: Fixed, project: &ProjectConfiguration)
        ensures
            final(self).data == old(self).data,
            final(self).elapsed_samples == samples_at(playhead as int),
            final(self).cursor == Self::cursor_at(*project, playhead as int),
    {
        self.elapsed_samples = playhead_to_samples(playhead);
        self.cursor = match project.get_segment_time(playhead) {
            Some((segment_time, segment)) => AudioRendererCursor {
                clip_index: segment.recording_clip,
                timescale: segment.timescale,
                samples: playhead_to_samples(segment_time),
            },
            None => AudioRendererCursor {
                clip_index: 0,
                timescale: ONE,
                samples: self.elapsed_samples,
            },
        };
    }

    /// Checks the cursor against the timeline and moves it where a trim or
    /// a split was crossed. Afterwards the cursor stands in the expected
    /// clip, at most a thirtieth of a second from the expected frame.
    pub fn adjust_cursor(&mut self, timeline: &TimelineConfiguration)
        ensures
            final(self).data == old(self).data,
            final(self).elapsed_samples == old(self).elapsed_samples,
            final(self).cursor == (if has_drifted(
                old(self).cursor,
                expected_cursor(*timeline, old(self).elapsed_samples),
            ) {
                expected_cursor(*timeline, old(self).elapsed_samples)
            } else {
                old(self).cursor
            }),
            final(self).cursor.clip_index == expected_cursor(
                *timeline,
                old(self).elapsed_samples,
            ).clip_index,
            distance(
                final(self).cursor.samples,
                expected_cursor(*timeline, old(self).elapsed_samples).samples,
            ) <= DRIFT_TOLERANCE,
    {
        let playhead: Fixed = self.elapsed_samples_to_playhead();
        let new_cursor = match timeline.get_segment_time(playhead) {
            Some((segment_time, segment)) => AudioRendererCursor {
                clip_index: segment.recording_clip,
                timescale: segment.timescale,
                samples: playhead_to_samples(segment_time),
            },
            None => AudioRendererCursor { clip_index: 0, timescale: ONE, samples: 0 },
        };
        let cursor_diff: usize = if new_cursor.samples >= self.cursor.samples {
            new_cursor.samples - self.cursor.samples
        } else {
            self.cursor.samples - new_cursor.samples
        };
        if new_cursor.clip_index != self.cursor.clip_index || cursor_diff > DRIFT_TOLERANCE {
            self.cursor = new_cursor;
        }
    }

    /// The time in seconds that the renderer has come to.
    pub fn elapsed_samples_to_playhead(&self) -> (playhead: Fixed)
        ensures
            playhead == playhead_at(self.elapsed_samples as nat),
    {
        samples_to_playhead(self.elapsed_samples)
    }

    /// Mixes up to `samples` frames at the cursor, or gives `None` where
    /// they are silent. `gain_of` turns a volume in decibels into the factor
    /// that the samples are multiplied by.
    pub fn mix_at_cursor<F: Fn(Fixed) -> Fixed>(
        &self,
        samples: usize,
        project: &ProjectConfiguration,
        gain_of: &F,
    ) -> (mixed: Option<(usize, Vec<Fixed>)>)
        requires
            forall|db: Fixed| gain_of.requires((db,)),
        ensures
            match mixed {
                Some((count, data)) => !self.is_silent(self.cursor, *project) && self.is_mix_at(
                    self.cursor,
                    samples,
                    *project,
                    gain_of,
                    count,
                    data@,
                ),
                None => self.is_silent(self.cursor, *project),
            },
    {
        if self.cursor.timescale != ONE {
            return None;
        }
        if self.cursor.clip_index as usize >= self.data.len() {
            return None;
        }
        let tracks: &Vec<AudioSegmentTrack> = &self.data[self.cursor.clip_index as usize].tracks;
        let n: usize = tracks.len();
        if n == 0 {
            return None;
        }
        let offsets: ClipOffsets = project.clip_offsets(self.cursor.clip_index);
        let mut max_samples: usize = 0;
        let mut track_datas: Vec<AudioRendererTrack> = Vec::new();
        let ghost mut gains: Seq<Option<Fixed>> = Seq::empty();
        let mut i: usize = 0;
        while i < n
            invariant
                n == tracks@.len(),
                i <= n,
                tracks@ == self.tracks_at(self.cursor),
                offsets == project.offsets_spec(self.cursor.clip_index),
                max_samples == longest_available(tracks@, offsets, i as int),
                track_datas@.len() == i,
                gains.len() == i,
                forall|db: Fixed| gain_of.requires((db,)),
                forall|k: int|
                    0 <= k < i ==> (#[trigger] track_datas@[k])@ == tracks@[k].mixer_view(
                        gains[k],
                        project.audio,
                        offsets,
                    ),
                forall|k: int|
                    0 <= k < i ==> (match #[trigger] gains[k] {
                        Some(gain) => tracks@[k].is_heard(project.audio) && gain_of.ensures(
                            (tracks@[k].gain_spec(project.audio),),
                            gain,
                        ),
                        None => !tracks@[k].is_heard(project.audio),
                    }),
            decreases n - i,
        {
            let track: &AudioSegmentTrack = &tracks[i];
            let available: usize = track.available(&offsets);
            if available > max_samples {
                max_samples = available;
            }
            let db: Fixed = track.gain(&project.audio);
            let gain: Option<Fixed> = if project.audio.mute || db <= SILENCE_THRESHOLD_DB {
                None
            } else {
                Some(gain_of(db))
            };
            proof {
                gains = gains.push(gain);
            }
            track_datas.push(
                AudioRendererTrack {
                    data: &*track.data,
                    gain,
                    stereo_mode: track.stereo_mode(&project.audio),
                    offset: scale(track.offset(&offsets), 48_000, ONE),
                },
            );
            i = i + 1;
        }
        if self.cursor.samples >= max_samples {
            return None;
        }
        let left: usize = max_samples - self.cursor.samples;
        let wanted: usize = if samples <= left {
            samples
        } else {
            left
        };
        let (count, data) = render_audio(track_datas.as_slice(), self.cursor.samples, wanted);
        proof {
            let views = mixer_views(tracks@, gains, project.audio, offsets);
            assert(track_views(track_datas@) =~= views);
            assert(gains_follow(gain_of, tracks@, project.audio, gains));
            lemma_longest_is_latest(tracks@, gains, project.audio, offsets, n as int);
        }
        Some((count, data))
    }

    /// Renders the next `samples` frames. The cursor is first checked
    /// against the timeline. Silent stretches are skipped: the frames count
    /// as elapsed and nothing is returned. Otherwise the tracks of the clip
    /// are mixed, as many frames as the clip still offers, and both
    /// counters go on by the number of frames mixed.
    pub fn render_frame_raw<F: Fn(Fixed) -> Fixed>(
        &mut self,
        samples: usize,
        project: &ProjectConfiguration,
        gain_of: &F,
    ) -> (rendered: Option<(usize, Vec<Fixed>)>)
        requires
            forall|db: Fixed| gain_of.requires((db,)),
        ensures
            old(self).renders(*final(self), samples, *project, gain_of, rendered),
    {
        if let Some(timeline) = &project.timeline {
            self.adjust_cursor(timeline);
        }
        let ghost start = old(self).adjusted_cursor(*project);
        let ghost before = *self;
        assert(self.tracks_at(start) == old(self).tracks_at(start));
        match self.mix_at_cursor(samples, project, gain_of) {
            None => {
                self.elapsed_samples = self.elapsed_samples.saturating_add(samples);
                None
            },
            Some((actual_sample_count, ret)) => {
                self.elapsed_samples = self.elapsed_samples.saturating_add(actual_sample_count);
                self.cursor.samples = self.cursor.samples.saturating_add(actual_sample_count);
                proof {
                    assert(before.is_mix_at(
                        start,
                        samples,
                        *project,
                        gain_of,
                        actual_sample_count,
                        ret@,
                    ));
                    assert(before.tracks_at(start) == old(self).tracks_at(start));
                    assert(before.max_samples(start, *project) == old(self).max_samples(
                        start,
                        *project,
                    ));
                }
                Some((actual_sample_count, ret))
            },
        }
    }
}

/// A frame of rendered audio: `samples` frames of interleaved stereo at
/// the mix rate, and the time stamp that the encoder is to give it.
pub struct AudioFrame {
    pub samples: usize,
    pub rate: u32,
    pub data: Vec<Fixed>,
    pub pts: Option<i64>,
}

impl AudioRenderer {
    /// Renders the next `requested_samples` frames as `render_frame_raw`
    /// does, and wraps them as a frame without time stamp.
    pub fn render_frame<F: Fn(Fixed) -> Fixed>(
        &mut self,
        requested_samples: usize,
        project: &ProjectConfiguration,
        gain_of: &F,
    ) -> (frame: Option<AudioFrame>)
        requires
            forall|db: Fixed| gain_of.requires((db,)),
        ensures
            final(self).data == old(self).data,
            match frame {
                None => {
                    &&& old(self).is_silent(old(self).adjusted_cursor(*project), *project)
                    &&& final(self).cursor == old(self).adjusted_cursor(*project)
                    &&& final(self).elapsed_samples == advance_spec(
                        old(self).elapsed_samples,
                        requested_samples,
                    )
                },
                Some(made) => {
                    &&& made.rate == SAMPLE_RATE
                    &&& made.pts is None
                    &&& !old(self).is_silent(old(self).adjusted_cursor(*project), *project)
                    &&& old(self).is_mix_at(
                        old(self).adjusted_cursor(*project),
                        requested_samples,
                        *project,
                        gain_of,
                        made.samples,
                        made.data@,
                    )
                    &&& final(self).elapsed_samples == advance_spec(
                        old(self).elapsed_samples,
                        made.samples,
                    )
                    &&& final(self).cursor.samples == advance_spec(
                        old(self).adjusted_cursor(*project).samples,
                        made.samples,
                    )
                },
            },
    {
        match self.render_frame_raw(requested_samples, project, gain_of) {
            Some((samples, data)) => Some(
                AudioFrame { samples, rate: SAMPLE_RATE, data, pts: None },
            ),
            None => None,
        }
    }
}

/// The layout of one sample on the output device.
#[derive(Clone, Copy, Debug, PartialEq, Eq, Structural)]
pub enum SampleFormat {
    U8,
    I16,
    I32,
    I64,
    F32,
    F64,
}

impl SampleFormat {
    pub open spec fn bytes_spec(self) -> usize {
        match self {
            SampleFormat::U8 => 1,
            SampleFormat::I16 => 2,
            SampleFormat::I32 => 4,
            SampleFormat::F32 => 4,
            SampleFormat::I64 => 8,
            SampleFormat::F64 => 8,
        }
    }

    /// The size of one sample in bytes.
    pub fn bytes(&self) -> (n: usize)
        ensures
            n == self.bytes_spec(),
    {
        match self {
            SampleFormat::U8 => 1,
            SampleFormat::I16 => 2,
            SampleFormat::I32 => 4,
            SampleFormat::F32 => 4,
            SampleFormat::I64 => 8,
            SampleFormat::F64 => 8,
        }
    }
}

/// The format of a stream of interleaved audio.
#[derive(Clone, Copy, Debug, PartialEq, Eq, Structural)]
pub struct AudioInfo {
    pub sample_format: SampleFormat,
    pub sample_rate: u32,
    pub channels: usize,
}

impl AudioInfo {
    /// The same format with at most eight channels.
    pub open spec fn clamped(self) -> AudioInfo {
        AudioInfo {
            sample_format: self.sample_format,
            sample_rate: self.sample_rate,
            channels: if self.channels > MAX_OUTPUT_CHANNELS {
                MAX_OUTPUT_CHANNELS
            } else {
                self.channels
            },
        }
    }

    /// The same format with at most eight channels, as the resampler takes it.
    pub fn for_ffmpeg_output(&self) -> (info: Self)
        ensures
            info == self.clamped(),
    {
        AudioInfo {
            sample_format: self.sample_format,
            sample_rate: self.sample_rate,
            channels: if self.channels > MAX_OUTPUT_CHANNELS {
                MAX_OUTPUT_CHANNELS
            } else {
                self.channels
            },
        }
    }

    /// The size of one sample in bytes.
    pub fn sample_size(&self) -> (n: usize)
        ensures
            n == self.sample_format.bytes_spec(),
    {
        self.sample_format.bytes()
    }

    /// Whether the format is that of the mix, so that rendered audio can go
    /// to the device as it is.
    pub open spec fn is_mix_format(self) -> bool {
        &&& self.sample_rate == SAMPLE_RATE
        &&& self.channels == 2
        &&& self.sample_format == SampleFormat::F32
    }

    /// Whether the format is that of the mix.
    pub fn matches_mix(&self) -> (r: bool)
        ensures
            r == self.is_mix_format(),
    {
        self.sample_rate == SAMPLE_RATE && self.channels == 2 && self.sample_format
            == SampleFormat::F32
    }
}

impl AudioRenderer {
    /// The format of the mix: 48 kHz, stereo, 32-bit floating-point samples.
    pub fn info() -> (info: AudioInfo)
        ensures
            info == (AudioInfo {
                sample_format: SampleFormat::F32,
                sample_rate: SAMPLE_RATE,
                channels: 2,
            }),
    {
        AudioInfo { sample_format: SampleFormat::F32, sample_rate: SAMPLE_RATE, channels: 2 }
    }
}

/// The number of the device frame that plays at `seconds`, at `rate` frames
/// per second; times before zero count as zero.
pub open spec fn device_frame_at(seconds: int, rate: u32) -> nat {
    if seconds <= 0 {
        0
    } else {
        (seconds * rate as int / ONE as int) as nat
    }
}

/// The time in seconds at which device frame `frame` plays; zero at rate zero.
pub open spec fn device_time_at(frame: nat, rate: u32) -> int {
    if rate == 0 {
        0
    } else if frame * ONE as int / rate as int > i64::MAX {
        i64::MAX as int
    } else {
        frame * ONE as int / rate as int
    }
}

fn device_time(frame: usize, rate: u32) -> (seconds: Fixed)
    ensures
        seconds == device_time_at(frame as nat, rate),
{
    if rate == 0 {
        return 0;
    }
    let f: u128 = frame as u128;
    assert(f * 1_000_000_000 <= 0xffff_ffff_ffff_ffff * 1_000_000_000) by (nonlinear_arith)
        requires
            f <= 0xffff_ffff_ffff_ffff,
    ;
    let v: u128 = f * 1_000_000_000 / (rate as u128);
    if v > i64::MAX as u128 {
        i64::MAX
    } else {
        v as i64
    }
}

/// A whole timeline of audio, rendered once in the device's format, with
/// the place up to which it has been played.
pub struct PrerenderedAudioBuffer<T> {
    pub samples: Vec<T>,
    pub read_position: usize,
    pub sample_rate: u32,
    pub channels: usize,
    /// The sample that stands for silence.
    pub equilibrium: T,
}

impl<T: Copy> PrerenderedAudioBuffer<T> {
    /// The read position for `playhead_secs`: the frame that plays then,
    /// counted in samples of all channels, and at most the buffer's length.
    pub open spec fn position_at(self, playhead_secs: int) -> nat {
        let wanted = device_frame_at(playhead_secs, self.sample_rate) * self.channels;
        if wanted > self.samples@.len() {
            self.samples@.len()
        } else {
            wanted as nat
        }
    }

    /// The samples that the next read of `count` samples takes.
    pub open spec fn to_copy(self, count: nat) -> nat {
        let available = if self.read_position >= self.samples@.len() {
            0
        } else {
            self.samples@.len() - self.read_position
        };
        if count <= available {
            count
        } else {
            available as nat
        }
    }

    /// Wraps audio that is already in the device's format.
    pub fn from_samples(samples: Vec<T>, output_info: AudioInfo, equilibrium: T) -> (buffer: Self)
        ensures
            buffer.samples == samples,
            buffer.read_position == 0,
            buffer.sample_rate == output_info.sample_rate,
            buffer.channels == output_info.clamped().channels,
            buffer.equilibrium == equilibrium,
    {
        let output_info = output_info.for_ffmpeg_output();
        PrerenderedAudioBuffer {
            samples,
            read_position: 0,
            sample_rate: output_info.sample_rate,
            channels: output_info.channels,
            equilibrium,
        }
    }

    /// Moves the read position to `playhead_secs`.
    pub fn set_playhead(&mut self, playhead_secs: Fixed)
        ensures
            final(self).read_position == old(self).position_at(playhead_secs as int),
            final(self).samples == old(self).samples,
            final(self).sample_rate == old(self).sample_rate,
            final(self).channels == old(self).channels,
            final(self).equilibrium == old(self).equilibrium,
    {
        let len: usize = self.samples.len();
        if playhead_secs <= 0 {
            assert(0 * self.channels == 0) by (nonlinear_arith);
            self.read_position = 0;
            return ;
        }
        let p: u128 = playhead_secs as u128;
        let rate: u128 = self.sample_rate as u128;
        assert(p * rate <= 0x7fff_ffff_ffff_ffff * 0xffff_ffff) by (nonlinear_arith)
            requires
                p <= 0x7fff_ffff_ffff_ffff,
                rate <= 0xffff_ffff,
        ;
        let frame: u128 = p * rate / 1_000_000_000;
        let channels: u128 = self.channels as u128;
        if channels == 0 {
            assert(frame * 0 == 0) by (nonlinear_arith);
            self.read_position = 0;
        } else if frame > len as u128 {
            assert(frame * channels > len) by (nonlinear_arith)
                requires
                    frame > len,
                    channels >= 1,
            ;
            self.read_position = len;
        } else {
            assert(frame * channels <= 0xffff_ffff_ffff_ffff * 0xffff_ffff_ffff_ffff)
                by (nonlinear_arith)
                requires
                    frame <= 0xffff_ffff_ffff_ffff,
                    channels <= 0xffff_ffff_ffff_ffff,
            ;
            let wanted: u128 = frame * channels;
            self.read_position = if wanted > len as u128 {
                len
            } else {
                wanted as usize
            };
        }
    }

    /// The time of the frame that is read next.
    pub fn current_playhead_secs(&self) -> (seconds: Fixed)
        requires
            self.channels > 0,
        ensures
            seconds == device_time_at((self.read_position / self.channels) as nat, self.sample_rate),
    {
        device_time(self.read_position / self.channels, self.sample_rate)
    }

    /// Fills `buffer` from the read position on and moves the position
    /// behind what was taken; where the audio ends, the rest is silence.
    pub fn fill(&mut self, buffer: &mut Vec<T>)
        ensures
            final(self).samples == old(self).samples,
            final(self).sample_rate == old(self).sample_rate,
            final(self).channels == old(self).channels,
            final(self).equilibrium == old(self).equilibrium,
            final(self).read_position == old(self).read_position + old(self).to_copy(
                old(buffer)@.len(),
            ),
            final(buffer)@.len() == old(buffer)@.len(),
            forall|i: int|
                0 <= i < old(self).to_copy(old(buffer)@.len()) ==> #[trigger] final(buffer)@[i]
                    == old(self).samples@[old(self).read_position + i],
            forall|i: int|
                old(self).to_copy(old(buffer)@.len()) <= i < old(buffer)@.len()
                    ==> #[trigger] final(buffer)@[i] == old(self).equilibrium,
    {
        let read_pos: usize = self.read_position;
        let len: usize = self.samples.len();
        let available: usize = if read_pos >= len {
            0
        } else {
            len - read_pos
        };
        let n: usize = buffer.len();
        let to_copy: usize = if n <= available {
            n
        } else {
            available
        };
        let mut i: usize = 0;
        while i < n
            invariant
                i <= n,
                n == buffer@.len(),
                n == old(buffer)@.len(),
                to_copy <= n,
                to_copy == old(self).to_copy(n as nat),
                read_pos == old(self).read_position,
                *self == *old(self),
                len == self.samples@.len(),
                to_copy > 0 ==> read_pos + to_copy <= len,
                forall|k: int|
                    0 <= k < i && k < to_copy ==> #[trigger] buffer@[k] == self.samples@[read_pos
                        + k],
                forall|k: int| to_copy <= k < i ==> #[trigger] buffer@[k] == self.equilibrium,
            decreases n - i,
        {
            if i < to_copy {
                let sample: T = self.samples[read_pos + i];
                buffer[i] = sample;
            } else {
                buffer[i] = self.equilibrium;
            }
            i = i + 1;
        }
        if to_copy > 0 {
            self.read_position = read_pos + to_copy;
        }
    }

    /// Gives up the samples.
    pub fn into_samples(self) -> (samples: Vec<T>)
        ensures
            samples == self.samples,
    {
        self.samples
    }
}

/// Audio that was decoded ahead of playback, with the digest of the
/// project it was rendered for.
pub struct PredecodedAudio<T> {
    pub samples: Vec<T>,
    pub sample_rate: u32,
    pub channels: usize,
    pub timeline_hash: u64,
}

/// What has to happen to predecoded audio before the device can play it.
#[derive(Clone, Copy, Debug, PartialEq, Eq, Structural)]
pub enum PredecodedRoute {
    /// Rate, channels and sample format fit: the samples go over as they are.
    Copy,
    /// Rate and channels fit, the sample format does not: each sample is
    /// converted on its own.
    ConvertFormat,
    /// Rate or channels differ: the audio goes through the resampler.
    Resample,
}

impl<T: Copy> PredecodedAudio<T> {
    pub open spec fn route_spec(self, output_info: AudioInfo) -> PredecodedRoute {
        if self.sample_rate == output_info.sample_rate && self.channels
            == output_info.clamped().channels {
            if output_info.sample_format == SampleFormat::F32 {
                PredecodedRoute::Copy
            } else {
                PredecodedRoute::ConvertFormat
            }
        } else {
            PredecodedRoute::Resample
        }
    }

    /// Decides how the audio gets to `output_info`, taken with at most
    /// eight channels.
    pub fn route(&self, output_info: AudioInfo) -> (route: PredecodedRoute)
        ensures
            route == self.route_spec(output_info),
    {
        let output_info = output_info.for_ffmpeg_output();
        if self.sample_rate == output_info.sample_rate && self.channels == output_info.channels {
            if output_info.sample_format == SampleFormat::F32 {
                PredecodedRoute::Copy
            } else {
                PredecodedRoute::ConvertFormat
            }
        } else {
            PredecodedRoute::Resample
        }
    }

    /// The chunk that begins at sample `chunk_start`: up to 4096 frames of
    /// all channels, as its end and its length in frames; `None` behind the
    /// last whole frame.
    pub open spec fn chunk_spec(self, chunk_start: usize) -> Option<(usize, usize)> {
        let len = self.samples@.len();
        let step = PRERENDER_CHUNK * self.channels;
        let end = if chunk_start + step < len {
            chunk_start + step
        } else {
            len as int
        };
        if self.channels == 0 || chunk_start >= len || (end - chunk_start) / self.channels as int
            == 0 {
            None
        } else {
            Some((end as usize, ((end - chunk_start) / self.channels as int) as usize))
        }
    }

    /// The chunk that begins at sample `chunk_start`.
    pub fn chunk(&self, chunk_start: usize) -> (bounds: Option<(usize, usize)>)
        ensures
            bounds == self.chunk_spec(chunk_start),
            bounds is Some ==> chunk_start < bounds.unwrap().0 <= self.samples@.len(),
    {
        let len: usize = self.samples.len();
        if self.channels == 0 || chunk_start >= len {
            return None;
        }
        let step: u128 = (PRERENDER_CHUNK as u128) * (self.channels as u128);
        let chunk_end: usize = if (chunk_start as u128) + step < len as u128 {
            ((chunk_start as u128) + step) as usize
        } else {
            len
        };
        let chunk_samples: usize = (chunk_end - chunk_start) / self.channels;
        if chunk_samples == 0 {
            None
        } else {
            Some((chunk_end, chunk_samples))
        }
    }
}

/// What an answer of the resampler holds: nothing where it gave none.
pub open spec fn given<T>(out: Option<Vec<T>>) -> Seq<T> {
    match out {
        Some(data) => data@,
        None => Seq::empty(),
    }
}

/// The sequences of `parts`, one behind the other.
pub open spec fn joined<T>(parts: Seq<Seq<T>>) -> Seq<T>
    decreases parts.len(),
{
    if parts.len() == 0 {
        Seq::empty()
    } else {
        joined(parts.drop_last()) + parts.last()
    }
}

/// One more part goes behind what was joined.
pub proof fn lemma_joined_push<T>(parts: Seq<Seq<T>>, part: Seq<T>)
    ensures
        joined(parts.push(part)) == joined(parts) + part,
{
    assert(parts.push(part).drop_last() =~= parts);
}

/// Whether `flush` is what a resampler gives up when asked without a
/// frame: an answer of `resample` to no frame that holds something.
pub open spec fn is_flush<S, T, R: Fn(Option<(usize, Vec<S>)>) -> Option<Vec<T>>>(
    flush: Seq<T>,
    resample: &R,
) -> bool {
    &&& flush.len() > 0
    &&& exists|out: Vec<T>| #[trigger] resample.ensures((None::<(usize, Vec<S>)>,), Some(out)) && out@ == flush
}

/// Whether the draining of a resampler can end: asked without a frame, it
/// may answer with nothing.
pub open spec fn ends_drain<S, T, R: Fn(Option<(usize, Vec<S>)>) -> Option<Vec<T>>>(
    resample: &R,
) -> bool {
    exists|out: Option<Vec<T>>| #[trigger] resample.ensures((None::<(usize, Vec<S>)>,), out) && given(out).len() == 0
}

/// Whether `flushes` is a draining of the resampler: each of them is given
/// up in turn, and then nothing more.
pub open spec fn is_drain<S, T, R: Fn(Option<(usize, Vec<S>)>) -> Option<Vec<T>>>(
    flushes: Seq<Seq<T>>,
    resample: &R,
) -> bool {
    &&& forall|f: int| 0 <= f < flushes.len() ==> #[trigger] is_flush(flushes[f], resample)
    &&& ends_drain(resample)
}

/// The chunks of 4096 frames that `total` frames of the mix are rendered in.
pub open spec fn chunk_count(total: nat) -> nat {
    ((total + PRERENDER_CHUNK - 1) / PRERENDER_CHUNK as int) as nat
}

/// Whether `chunk` is what the rendered frame `frame` adds to a buffer
/// that is rendered ahead. Where the device plays the mix's format, a
/// rendered frame adds its samples, each through `to_device`, and a silent
/// one adds `rest`. Otherwise the frame adds what `resample` answers for
/// it, and a silent one after that `rest`.
pub open spec fn is_chunk<T, C, R>(
    chunk: Seq<T>,
    frame: Option<(usize, Vec<Fixed>)>,
    bypass: bool,
    rest: Seq<T>,
    to_device: &C,
    resample: &R,
) -> bool where C: Fn(Fixed) -> T, R: Fn(Option<(usize, Vec<Fixed>)>) -> Option<Vec<T>> {
    if bypass {
        match frame {
            Some((count, data)) => {
                &&& chunk.len() == data@.len()
                &&& forall|i: int|
                    0 <= i < data@.len() ==> to_device.ensures((data@[i],), #[trigger] chunk[i])
            },
            None => chunk == rest,
        }
    } else {
        exists|out: Option<Vec<T>>|
            {
                &&& #[trigger] resample.ensures((frame,), out)
                &&& chunk == given(out) + (if frame is None {
                    rest
                } else {
                    Seq::empty()
                })
            }
    }
}

/// Whether the renderer goes from state `k` of `states` to the next by
/// rendering the frame `frames[k]` of up to 4096 samples, and `chunks[k]`
/// is what that frame adds to the buffer.
pub open spec fn is_prerender_step<T, G, C, R>(
    states: Seq<AudioRenderer>,
    frames: Seq<Option<(usize, Vec<Fixed>)>>,
    chunks: Seq<Seq<T>>,
    k: int,
    project: ProjectConfiguration,
    bypass: bool,
    rest: Seq<T>,
    gain_of: &G,
    to_device: &C,
    resample: &R,
) -> bool where
    G: Fn(Fixed) -> Fixed,
    C: Fn(Fixed) -> T,
    R: Fn(Option<(usize, Vec<Fixed>)>) -> Option<Vec<T>>,
 {
    &&& states[k].renders(states[k + 1], PRERENDER_CHUNK, project, gain_of, frames[k])
    &&& is_chunk(chunks[k], frames[k], bypass, rest, to_device, resample)
}

/// Whether `samples` is a rendering ahead of `total` frames of the mix
/// for a device of the format `output_info`, with the renderer starting
/// in the state `start`: one chunk for every 4096 frames begun, each
/// rendered from where the one before left the renderer, and behind them,
/// where the audio went through the resampler, what the resampler gave
/// up at the end.
pub open spec fn is_prerender<T, G, C, R>(
    samples: Seq<T>,
    start: AudioRenderer,
    total: nat,
    project: ProjectConfiguration,
    output_info: AudioInfo,
    equilibrium: T,
    gain_of: &G,
    to_device: &C,
    resample: &R,
    states: Seq<AudioRenderer>,
    frames: Seq<Option<(usize, Vec<Fixed>)>>,
    chunks: Seq<Seq<T>>,
    flushes: Seq<Seq<T>>,
) -> bool where
    G: Fn(Fixed) -> Fixed,
    C: Fn(Fixed) -> T,
    R: Fn(Option<(usize, Vec<Fixed>)>) -> Option<Vec<T>>,
 {
    &&& chunks.len() == chunk_count(total)
    &&& frames.len() == chunks.len()
    &&& states.len() == chunks.len() + 1
    &&& states[0] == start
    &&& forall|k: int|
        0 <= k < chunks.len() ==> #[trigger] is_prerender_step(
            states,
            frames,
            chunks,
            k,
            project,
            output_info.is_mix_format(),
            silence(equilibrium, output_chunk_spec(output_info)),
            gain_of,
            to_device,
            resample,
        )
    &&& if output_info.is_mix_format() {
        flushes.len() == 0
    } else {
        is_drain(flushes, resample)
    }
    &&& samples == joined(chunks) + joined(flushes)
}

/// Whether `parts[k]` is what `resample` answers for the chunk of `audio`
/// that begins at `bounds[k]`, and `bounds[k + 1]` is where that chunk
/// ends.
pub open spec fn is_resampled_chunk<T: Copy, R>(
    audio: PredecodedAudio<T>,
    bounds: Seq<usize>,
    parts: Seq<Seq<T>>,
    k: int,
    resample: &R,
) -> bool where R: Fn(Option<(usize, Vec<T>)>) -> Option<Vec<T>> {
    exists|frames: usize, data: Vec<T>, out: Option<Vec<T>>|
        {
            &&& #[trigger] resample.ensures((Some((frames, data)),), out)
            &&& audio.chunk_spec(bounds[k]) == Some((bounds[k + 1], frames))
            &&& data@ == audio.samples@.subrange(bounds[k] as int, bounds[k + 1] as int)
            &&& parts[k] == given(out)
        }
}

/// Whether `samples` is `audio` resampled: its chunks from the first
/// sample on, each through `resample`, until no chunk is left, and behind
/// them what the resampler gave up at the end.
pub open spec fn is_resampling<T: Copy, R>(
    samples: Seq<T>,
    audio: PredecodedAudio<T>,
    resample: &R,
    bounds: Seq<usize>,
    parts: Seq<Seq<T>>,
    flushes: Seq<Seq<T>>,
) -> bool where R: Fn(Option<(usize, Vec<T>)>) -> Option<Vec<T>> {
    &&& bounds.len() == parts.len() + 1
    &&& bounds[0] == 0
    &&& forall|k: int|
        0 <= k < parts.len() ==> #[trigger] is_resampled_chunk(audio, bounds, parts, k, resample)
    &&& audio.chunk_spec(bounds.last()) is None
    &&& is_drain(flushes, resample)
    &&& samples == joined(parts) + joined(flushes)
}

/// The first `k` chunks of a rendering for a device that plays the mix's
/// format hold whole stereo frames, at most 4096 for each chunk.
proof fn lemma_chunks_in_mix_format<T, G, C, R>(
    states: Seq<AudioRenderer>,
    frames: Seq<Option<(usize, Vec<Fixed>)>>,
    chunks: Seq<Seq<T>>,
    k: nat,
    project: ProjectConfiguration,
    rest: Seq<T>,
    gain_of: &G,
    to_device: &C,
    resample: &R,
) where
    G: Fn(Fixed) -> Fixed,
    C: Fn(Fixed) -> T,
    R: Fn(Option<(usize, Vec<Fixed>)>) -> Option<Vec<T>>,

    requires
        k <= chunks.len(),
        frames.len() == chunks.len(),
        states.len() == chunks.len() + 1,
        rest.len() == 2 * PRERENDER_CHUNK,
        forall|j: int|
            0 <= j < chunks.len() ==> #[trigger] is_prerender_step(
                states,
                frames,
                chunks,
                j,
                project,
                true,
                rest,
                gain_of,
                to_device,
                resample,
            ),
    ensures
        joined(chunks.take(k as int)).len() % 2 == 0,
        joined(chunks.take(k as int)).len() <= k * (2 * PRERENDER_CHUNK),
    decreases k,
{
    if k > 0 {
        lemma_chunks_in_mix_format(
            states,
            frames,
            chunks,
            (k - 1) as nat,
            project,
            rest,
            gain_of,
            to_device,
            resample,
        );
        assert(chunks.take(k as int).drop_last() =~= chunks.take(k - 1));
        assert(chunks.take(k as int).last() == chunks[k - 1]);
        assert(is_prerender_step(
            states,
            frames,
            chunks,
            k - 1,
            project,
            true,
            rest,
            gain_of,
            to_device,
            resample,
        ));
        assert(chunks[k - 1].len() % 2 == 0 && chunks[k - 1].len() <= 2 * PRERENDER_CHUNK);
        assert((k - 1) * (2 * PRERENDER_CHUNK) + 2 * PRERENDER_CHUNK == k * (2 * PRERENDER_CHUNK))
            by (nonlinear_arith);
    } else {
        assert(chunks.take(0).len() == 0);
    }
}

/// Rendered ahead for a device that plays the mix's format, a timeline
/// comes to whole stereo frames, at most 4096 for each chunk, and a
/// timeline of no length to nothing.
pub proof fn lemma_prerender_in_mix_format<T, G, C, R>(
    samples: Seq<T>,
    start: AudioRenderer,
    total: nat,
    project: ProjectConfiguration,
    output_info: AudioInfo,
    equilibrium: T,
    gain_of: &G,
    to_device: &C,
    resample: &R,
    states: Seq<AudioRenderer>,
    frames: Seq<Option<(usize, Vec<Fixed>)>>,
    chunks: Seq<Seq<T>>,
    flushes: Seq<Seq<T>>,
) where
    G: Fn(Fixed) -> Fixed,
    C: Fn(Fixed) -> T,
    R: Fn(Option<(usize, Vec<Fixed>)>) -> Option<Vec<T>>,

    requires
        output_info.is_mix_format(),
        is_prerender(
            samples,
            start,
            total,
            project,
            output_info,
            equilibrium,
            gain_of,
            to_device,
            resample,
            states,
            frames,
            chunks,
            flushes,
        ),
    ensures
        samples.len() % 2 == 0,
        samples.len() <= chunk_count(total) * (2 * PRERENDER_CHUNK),
        total == 0 ==> samples.len() == 0,
{
    let rest = silence(equilibrium, output_chunk_spec(output_info));
    assert(rest.len() == 2 * PRERENDER_CHUNK);
    lemma_chunks_in_mix_format(
        states,
        frames,
        chunks,
        chunks.len(),
        project,
        rest,
        gain_of,
        to_device,
        resample,
    );
    assert(chunks.take(chunks.len() as int) =~= chunks);
    assert(joined(flushes) =~= Seq::<T>::empty());
    assert(samples =~= joined(chunks));
}

/// The samples of the mix as device samples, each through `to_device`.
fn device_samples<T, C: Fn(Fixed) -> T>(data: &Vec<Fixed>, to_device: &C) -> (produced: Vec<T>)
    requires
        forall|sample: Fixed| to_device.requires((sample,)),
    ensures
        produced@.len() == data@.len(),
        forall|i: int|
            0 <= i < data@.len() ==> to_device.ensures((data@[i],), #[trigger] produced@[i]),
{
    let count: usize = data.len();
    let mut produced: Vec<T> = Vec::new();
    let mut i: usize = 0;
    while i < count
        invariant
            count == data@.len(),
            i <= count,
            produced@.len() == i,
            forall|sample: Fixed| to_device.requires((sample,)),
            forall|k: int| 0 <= k < i ==> to_device.ensures((data@[k],), #[trigger] produced@[k]),
        decreases count - i,
    {
        produced.push(to_device(data[i]));
        i = i + 1;
    }
    produced
}

impl<T: Copy> PrerenderedAudioBuffer<T> {
    /// The buffer for audio that was decoded ahead. Where the device plays
    /// the audio's format the samples are taken as they are; where only the
    /// sample format differs, each goes through `convert`; otherwise the
    /// audio goes through `resample` in chunks of 4096 frames, and what the
    /// resampler still holds at the end is taken too.
    pub fn from_predecoded<C, R>(
        predecoded: &PredecodedAudio<T>,
        output_info: AudioInfo,
        equilibrium: T,
        convert: &C,
        resample: &R,
    ) -> (buffer: Self) where
        C: Fn(T) -> T,
        R: Fn(Option<(usize, Vec<T>)>) -> Option<Vec<T>>,

        requires
            forall|sample: T| convert.requires((sample,)),
            forall|frame: Option<(usize, Vec<T>)>| resample.requires((frame,)),
        ensures
            buffer.read_position == 0,
            buffer.sample_rate == output_info.sample_rate,
            buffer.channels == output_info.clamped().channels,
            buffer.equilibrium == equilibrium,
            predecoded.route_spec(output_info) == PredecodedRoute::Copy ==> buffer.samples@
                == predecoded.samples@,
            predecoded.route_spec(output_info) == PredecodedRoute::ConvertFormat ==> {
                &&& buffer.samples@.len() == predecoded.samples@.len()
                &&& forall|i: int|
                    0 <= i < predecoded.samples@.len() ==> convert.ensures(
                        (predecoded.samples@[i],),
                        #[trigger] buffer.samples@[i],
                    )
            },
            predecoded.route_spec(output_info) == PredecodedRoute::Resample ==> exists|
                bounds: Seq<usize>,
                parts: Seq<Seq<T>>,
                flushes: Seq<Seq<T>>,
            |
                #[trigger] is_resampling(
                    buffer.samples@,
                    *predecoded,
                    resample,
                    bounds,
                    parts,
                    flushes,
                ),
    {
        let n: usize = predecoded.samples.len();
        let mut samples: Vec<T> = Vec::new();
        match predecoded.route(output_info) {
            PredecodedRoute::Copy => {
                let mut i: usize = 0;
                while i < n
                    invariant
                        n == predecoded.samples@.len(),
                        i <= n,
                        samples@ =~= predecoded.samples@.subrange(0, i as int),
                    decreases n - i,
                {
                    samples.push(predecoded.samples[i]);
                    i = i + 1;
                }
                assert(samples@ =~= predecoded.samples@);
            },
            PredecodedRoute::ConvertFormat => {
                let mut i: usize = 0;
                while i < n
                    invariant
                        n == predecoded.samples@.len(),
                        i <= n,
                        samples@.len() == i,
                        forall|sample: T| convert.requires((sample,)),
                        forall|k: int|
                            0 <= k < i ==> convert.ensures(
                                (predecoded.samples@[k],),
                                #[trigger] samples@[k],
                            ),
                    decreases n - i,
                {
                    samples.push(convert(predecoded.samples[i]));
                    i = i + 1;
                }
            },
            PredecodedRoute::Resample => {
                let ghost mut bounds: Seq<usize> = seq![0usize];
                let ghost mut parts: Seq<Seq<T>> = Seq::empty();
                let ghost mut flushes: Seq<Seq<T>> = Seq::empty();
                let mut chunk_start: usize = 0;
                loop
                    invariant
                        n == predecoded.samples@.len(),
                        chunk_start <= n,
                        bounds.len() == parts.len() + 1,
                        bounds[0] == 0,
                        bounds.last() == chunk_start,
                        samples@ == joined(parts),
                        forall|k: int|
                            0 <= k < parts.len() ==> #[trigger] is_resampled_chunk(
                                *predecoded,
                                bounds,
                                parts,
                                k,
                                resample,
                            ),
                        forall|frame: Option<(usize, Vec<T>)>| resample.requires((frame,)),
                    ensures
                        predecoded.chunk_spec(bounds.last()) is None,
                    decreases n - chunk_start,
                {
                    let (chunk_end, chunk_samples) = match predecoded.chunk(chunk_start) {
                        Some(found) => found,
                        None => {
                            break ;
                        },
                    };
                    let mut frame_data: Vec<T> = Vec::new();
                    let mut i: usize = chunk_start;
                    while i < chunk_end
                        invariant
                            chunk_start <= i <= chunk_end <= n,
                            n == predecoded.samples@.len(),
                            frame_data@ =~= predecoded.samples@.subrange(
                                chunk_start as int,
                                i as int,
                            ),
                        decreases chunk_end - i,
                    {
                        frame_data.push(predecoded.samples[i]);
                        i = i + 1;
                    }
                    let ghost data = frame_data;
                    let ghost bounds_before = bounds;
                    let ghost parts_before = parts;
                    let ghost samples_before = samples@;
                    let resampled: Option<Vec<T>> = resample(Some((chunk_samples, frame_data)));
                    let ghost out = resampled;
                    assert(resample.ensures((Some((chunk_samples, data)),), out));
                    if let Some(made) = resampled {
                        let mut made = made;
                        samples.append(&mut made);
                    }
                    proof {
                        let part = given(out);
                        assert(samples@ =~= samples_before + part);
                        lemma_joined_push(parts_before, part);
                        bounds = bounds.push(chunk_end);
                        parts = parts.push(part);
                        assert forall|k: int| 0 <= k < parts.len() implies #[trigger] is_resampled_chunk(
                            *predecoded,
                            bounds,
                            parts,
                            k,
                            resample,
                        ) by {
                            if k < parts_before.len() {
                                assert(is_resampled_chunk(
                                    *predecoded,
                                    bounds_before,
                                    parts_before,
                                    k,
                                    resample,
                                ));
                                assert(bounds[k] == bounds_before[k]);
                                assert(bounds[k + 1] == bounds_before[k + 1]);
                                assert(parts[k] == parts_before[k]);
                            } else {
                                assert(bounds[k] == chunk_start);
                                assert(bounds[k + 1] == chunk_end);
                                assert(parts[k] == part);
                            }
                        }
                    }
                    chunk_start = chunk_end;
                }
                assert(samples@ =~= joined(parts) + joined(flushes));
                loop
                    invariant
                        samples@ == joined(parts) + joined(flushes),
                        forall|f: int|
                            0 <= f < flushes.len() ==> #[trigger] is_flush(flushes[f], resample),
                        forall|frame: Option<(usize, Vec<T>)>| resample.requires((frame,)),
                    ensures
                        ends_drain(resample),
                    decreases usize::MAX - samples@.len(),
                {
                    let before: usize = samples.len();
                    let flushed: Option<Vec<T>> = resample(None);
                    let ghost answer = flushed;
                    assert(resample.ensures((None::<(usize, Vec<T>)>,), answer));
                    match flushed {
                        None => {
                            break ;
                        },
                        Some(flushed) => {
                            if flushed.len() == 0 {
                                break ;
                            }
                            let ghost flush = flushed@;
                            let ghost flushes_before = flushes;
                            let ghost samples_before = samples@;
                            assert(is_flush(flush, resample));
                            let mut flushed = flushed;
                            samples.append(&mut flushed);
                            proof {
                                lemma_joined_push(flushes_before, flush);
                                flushes = flushes.push(flush);
                                assert(samples@ =~= joined(parts) + joined(flushes));
                                assert forall|f: int| 0 <= f < flushes.len() implies #[trigger] is_flush(
                                    flushes[f],
                                    resample,
                                ) by {
                                    if f < flushes_before.len() {
                                        assert(is_flush(flushes_before[f], resample));
                                    }
                                }
                            }
                            let after: usize = samples.len();
                            assert(after > before);
                        },
                    }
                }
                assert(is_resampling(samples@, *predecoded, resample, bounds, parts, flushes));
            },
        }
        Self::from_samples(samples, output_info, equilibrium)
    }

    /// Renders the whole timeline of `duration_secs` once, in chunks of
    /// 4096 frames of the mix. Where the device plays the mix's format, the
    /// rendered samples go to the buffer through `to_device`; otherwise each
    /// chunk goes through `resample`. A silent chunk leaves what the
    /// resampler still held, and a chunk's worth of silence. At the end the
    /// resampler is drained.
    pub fn new<G, C, R>(
        segments: Vec<AudioSegment>,
        project: &ProjectConfiguration,
        output_info: AudioInfo,
        duration_secs: Fixed,
        equilibrium: T,
        gain_of: &G,
        to_device: &C,
        resample: &R,
    ) -> (buffer: Self) where
        G: Fn(Fixed) -> Fixed,
        C: Fn(Fixed) -> T,
        R: Fn(Option<(usize, Vec<Fixed>)>) -> Option<Vec<T>>,

        requires
            forall|db: Fixed| gain_of.requires((db,)),
            forall|sample: Fixed| to_device.requires((sample,)),
            forall|frame: Option<(usize, Vec<Fixed>)>| resample.requires((frame,)),
        ensures
            buffer.read_position == 0,
            buffer.sample_rate == output_info.sample_rate,
            buffer.channels == output_info.clamped().channels,
            buffer.equilibrium == equilibrium,
            exists|
                states: Seq<AudioRenderer>,
                frames: Seq<Option<(usize, Vec<Fixed>)>>,
                chunks: Seq<Seq<T>>,
                flushes: Seq<Seq<T>>,
            |
                #[trigger] is_prerender(
                    buffer.samples@,
                    (AudioRenderer {
                        data: segments,
                        cursor: AudioRenderer::cursor_at(*project, 0),
                        elapsed_samples: 0,
                    }),
                    samples_at(duration_secs as int),
                    *project,
                    output_info.clamped(),
                    equilibrium,
                    gain_of,
                    to_device,
                    resample,
                    states,
                    frames,
                    chunks,
                    flushes,
                ),
    {
        let mut job = PrerenderJob::new(segments, project, output_info, duration_secs, equilibrium);
        let ghost start = job.renderer;
        let ghost bypass = output_info.clamped().is_mix_format();
        let ghost rest = silence(equilibrium, output_chunk_spec(output_info.clamped()));
        let ghost mut states: Seq<AudioRenderer> = seq![job.renderer];
        let ghost mut frames: Seq<Option<(usize, Vec<Fixed>)>> = Seq::empty();
        let ghost mut chunks: Seq<Seq<T>> = Seq::empty();
        let ghost mut flushes: Seq<Seq<T>> = Seq::empty();
        let mut rendering: bool = job.is_rendering();
        while rendering
            invariant
                job.output_info == output_info.clamped(),
                job.equilibrium == equilibrium,
                job.can_bypass_resampler == bypass,
                job.output_chunk_samples == output_chunk_spec(output_info.clamped()),
                job.total_source_samples == samples_at(duration_secs as int),
                bypass == output_info.clamped().is_mix_format(),
                rest == silence(equilibrium, output_chunk_spec(output_info.clamped())),
                rendering == (job.rendered_source_samples < job.total_source_samples),
                frames.len() == chunks.len(),
                states.len() == chunks.len() + 1,
                states[0] == start,
                states.last() == job.renderer,
                job.samples@ == joined(chunks),
                job.rendered_source_samples == (if chunks.len() * 4096 > usize::MAX {
                    usize::MAX as int
                } else {
                    (chunks.len() * 4096) as int
                }),
                chunks.len() > 0 ==> (chunks.len() - 1) * 4096 < job.total_source_samples,
                forall|k: int|
                    0 <= k < chunks.len() ==> #[trigger] is_prerender_step(
                        states,
                        frames,
                        chunks,
                        k,
                        *project,
                        bypass,
                        rest,
                        gain_of,
                        to_device,
                        resample,
                    ),
                forall|db: Fixed| gain_of.requires((db,)),
                forall|sample: Fixed| to_device.requires((sample,)),
                forall|frame: Option<(usize, Vec<Fixed>)>| resample.requires((frame,)),
            decreases job.frames_left(),
        {
            let ghost before = job.renderer;
            let ghost states_before = states;
            let ghost frames_before = frames;
            let ghost chunks_before = chunks;
            let next: Option<(usize, Vec<Fixed>)> = job.renderer.render_frame_raw(
                PRERENDER_CHUNK,
                project,
                gain_of,
            );
            let ghost frame = next;
            let silent: bool = next.is_none();
            let produced: Option<Vec<T>> = if job.can_bypass_resampler {
                match next {
                    Some((_, data)) => Some(device_samples(&data, to_device)),
                    None => None,
                }
            } else {
                resample(next)
            };
            let ghost out = produced;
            job.push_chunk(produced, silent);
            proof {
                let chunk = given(out) + (if silent {
                    rest
                } else {
                    Seq::empty()
                });
                assert(job.samples@ =~= joined(chunks_before) + chunk);
                lemma_joined_push(chunks_before, chunk);
                states = states.push(job.renderer);
                frames = frames.push(frame);
                chunks = chunks.push(chunk);
                if bypass {
                    if frame is Some {
                        assert(chunk =~= given(out));
                    } else {
                        assert(chunk =~= rest);
                    }
                } else {
                    assert(resample.ensures((frame,), out));
                }
                assert(is_chunk(chunk, frame, bypass, rest, to_device, resample));
                assert forall|k: int| 0 <= k < chunks.len() implies #[trigger] is_prerender_step(
                    states,
                    frames,
                    chunks,
                    k,
                    *project,
                    bypass,
                    rest,
                    gain_of,
                    to_device,
                    resample,
                ) by {
                    if k < chunks_before.len() {
                        assert(is_prerender_step(
                            states_before,
                            frames_before,
                            chunks_before,
                            k,
                            *project,
                            bypass,
                            rest,
                            gain_of,
                            to_device,
                            resample,
                        ));
                        assert(states[k] == states_before[k]);
                        assert(states[k + 1] == states_before[k + 1]);
                        assert(frames[k] == frames_before[k]);
                        assert(chunks[k] == chunks_before[k]);
                    } else {
                        assert(states[k] == before);
                        assert(states[k + 1] == job.renderer);
                        assert(frames[k] == frame);
                        assert(chunks[k] == chunk);
                    }
                }
            }
            rendering = job.is_rendering();
        }
        assert(chunks.len() == chunk_count(samples_at(duration_secs as int)));
        assert(job.samples@ =~= joined(chunks) + joined(flushes));
        if !job.can_bypass_resampler {
            loop
                invariant
                    job.output_info == output_info.clamped(),
                    job.equilibrium == equilibrium,
                    job.samples@ == joined(chunks) + joined(flushes),
                    forall|f: int|
                        0 <= f < flushes.len() ==> #[trigger] is_flush(flushes[f], resample),
                    forall|frame: Option<(usize, Vec<Fixed>)>| resample.requires((frame,)),
                ensures
                    ends_drain(resample),
                decreases usize::MAX - job.samples@.len(),
            {
                let before: usize = job.samples.len();
                let flushed: Option<Vec<T>> = resample(None);
                let ghost answer = flushed;
                assert(resample.ensures((None::<(usize, Vec<Fixed>)>,), answer));
                match flushed {
                    None => {
                        break ;
                    },
                    Some(flushed) => {
                        if flushed.len() == 0 {
                            break ;
                        }
                        let ghost flush = flushed@;
                        let ghost flushes_before = flushes;
                        assert(is_flush(flush, resample));
                        job.push_drained(flushed);
                        proof {
                            lemma_joined_push(flushes_before, flush);
                            flushes = flushes.push(flush);
                            assert(job.samples@ =~= joined(chunks) + joined(flushes));
                            assert forall|f: int| 0 <= f < flushes.len() implies #[trigger] is_flush(
                                flushes[f],
                                resample,
                            ) by {
                                if f < flushes_before.len() {
                                    assert(is_flush(flushes_before[f], resample));
                                }
                            }
                        }
                        let after: usize = job.samples.len();
                        assert(after > before);
                    },
                }
            }
        }
        let buffer = job.finish();
        proof {
            assert(is_prerender(
                buffer.samples@,
                start,
                samples_at(duration_secs as int),
                *project,
                output_info.clamped(),
                equilibrium,
                gain_of,
                to_device,
                resample,
                states,
                frames,
                chunks,
                flushes,
            ));
        }
        buffer
    }
}

/// The rendering of a whole timeline ahead of playback, one chunk of 4096
/// mix-rate frames at a time.
pub struct PrerenderJob<T> {
    pub renderer: AudioRenderer,
    pub output_info: AudioInfo,
    /// Whether rendered audio needs no resampling.
    pub can_bypass_resampler: bool,
    /// Mix-rate frames to render in all.
    pub total_source_samples: usize,
    /// Mix-rate frames asked for so far.
    pub rendered_source_samples: usize,
    /// Device samples of silence that stand in for one chunk.
    pub output_chunk_samples: usize,
    pub samples: Vec<T>,
    pub equilibrium: T,
}

/// The device samples that one chunk of the mix comes to: its frames at
/// the device's rate, for every channel.
pub open spec fn output_chunk_spec(info: AudioInfo) -> nat {
    (PRERENDER_CHUNK * info.sample_rate / SAMPLE_RATE as int * info.channels) as nat
}

/// `count` samples of silence.
pub open spec fn silence<T>(equilibrium: T, count: nat) -> Seq<T> {
    Seq::new(count, |i: int| equilibrium)
}

impl<T: Copy> PrerenderJob<T> {
    /// Sets the job up for `duration_secs` of timeline and puts the
    /// renderer at its start.
    pub fn new(
        segments: Vec<AudioSegment>,
        project: &ProjectConfiguration,
        output_info: AudioInfo,
        duration_secs: Fixed,
        equilibrium: T,
    ) -> (job: Self)
        ensures
            job.output_info == output_info.clamped(),
            job.can_bypass_resampler == output_info.clamped().is_mix_format(),
            job.total_source_samples == samples_at(duration_secs as int),
            job.rendered_source_samples == 0,
            job.output_chunk_samples == output_chunk_spec(output_info.clamped()),
            job.samples@.len() == 0,
            job.equilibrium == equilibrium,
            job.renderer.data == segments,
            job.renderer.elapsed_samples == 0,
            job.renderer.cursor == AudioRenderer::cursor_at(*project, 0),
    {
        let output_info = output_info.for_ffmpeg_output();
        let mut renderer = AudioRenderer::new(segments);
        renderer.set_playhead(0, project);
        let rate: u64 = output_info.sample_rate as u64;
        let frames: u64 = 4096 * rate / 48_000;
        assert(frames * output_info.channels <= 366_503_875 * 8) by (nonlinear_arith)
            requires
                frames <= 366_503_875,
                output_info.channels <= 8,
        ;
        PrerenderJob {
            renderer,
            output_info,
            can_bypass_resampler: output_info.matches_mix(),
            total_source_samples: playhead_to_samples(duration_secs),
            rendered_source_samples: 0,
            output_chunk_samples: (frames as usize) * output_info.channels,
            samples: Vec::new(),
            equilibrium,
        }
    }

    /// The frames of the mix that are left to render.
    pub open spec fn frames_left(self) -> nat {
        if self.rendered_source_samples < self.total_source_samples {
            (self.total_source_samples - self.rendered_source_samples) as nat
        } else {
            0
        }
    }

    /// Whether chunks are left to render.
    pub fn is_rendering(&self) -> (r: bool)
        ensures
            r == (self.rendered_source_samples < self.total_source_samples),
    {
        self.rendered_source_samples < self.total_source_samples
    }

    /// Takes in one chunk: `produced` is the rendered audio in the device's
    /// format, or, for a silent chunk, what the resampler still held. A
    /// silent chunk is followed by a chunk's worth of silence.
    pub fn push_chunk(&mut self, produced: Option<Vec<T>>, silent: bool)
        ensures
            final(self).samples@ == old(self).samples@ + (match produced {
                Some(data) => data@,
                None => Seq::empty(),
            }) + (if silent {
                silence(old(self).equilibrium, old(self).output_chunk_samples as nat)
            } else {
                Seq::empty()
            }),
            final(self).rendered_source_samples == advance_spec(
                old(self).rendered_source_samples,
                PRERENDER_CHUNK,
            ),
            final(self).renderer == old(self).renderer,
            final(self).output_info == old(self).output_info,
            final(self).can_bypass_resampler == old(self).can_bypass_resampler,
            final(self).total_source_samples == old(self).total_source_samples,
            final(self).output_chunk_samples == old(self).output_chunk_samples,
            final(self).equilibrium == old(self).equilibrium,
    {
        if let Some(data) = produced {
            let mut data = data;
            self.samples.append(&mut data);
        }
        if silent {
            let ghost before = self.samples@;
            let mut i: usize = 0;
            while i < self.output_chunk_samples
                invariant
                    i <= self.output_chunk_samples,
                    self.samples@ =~= before + silence(self.equilibrium, i as nat),
                    self.renderer == old(self).renderer,
                    self.output_info == old(self).output_info,
                    self.can_bypass_resampler == old(self).can_bypass_resampler,
                    self.total_source_samples == old(self).total_source_samples,
                    self.rendered_source_samples == old(self).rendered_source_samples,
                    self.output_chunk_samples == old(self).output_chunk_samples,
                    self.equilibrium == old(self).equilibrium,
                decreases self.output_chunk_samples - i,
            {
                self.samples.push(self.equilibrium);
                i = i + 1;
            }
        }
        self.rendered_source_samples = self.rendered_source_samples.saturating_add(PRERENDER_CHUNK);
        assert(final(self).samples@ =~= old(self).samples@ + (match produced {
            Some(data) => data@,
            None => Seq::empty(),
        }) + (if silent {
            silence(old(self).equilibrium, old(self).output_chunk_samples as nat)
        } else {
            Seq::empty()
        }));
    }

    /// Takes in what the resampler gives up once every chunk is rendered.
    pub fn push_drained(&mut self, drained: Vec<T>)
        ensures
            final(self).samples@ == old(self).samples@ + drained@,
            final(self).rendered_source_samples == old(self).rendered_source_samples,
            final(self).renderer == old(self).renderer,
            final(self).output_info == old(self).output_info,
            final(self).can_bypass_resampler == old(self).can_bypass_resampler,
            final(self).total_source_samples == old(self).total_source_samples,
            final(self).output_chunk_samples == old(self).output_chunk_samples,
            final(self).equilibrium == old(self).equilibrium,
    {
        let mut drained = drained;
        self.samples.append(&mut drained);
    }

    /// The finished buffer, at its start.
    pub fn finish(self) -> (buffer: PrerenderedAudioBuffer<T>)
        ensures
            buffer.samples == self.samples,
            buffer.read_position == 0,
            buffer.sample_rate == self.output_info.sample_rate,
            buffer.channels == self.output_info.clamped().channels,
            buffer.equilibrium == self.equilibrium,
    {
        PrerenderedAudioBuffer::from_samples(self.samples, self.output_info, self.equilibrium)
    }
}

/// The word that carries the first `count` bytes of a sample: the first
/// byte lowest.
pub open spec fn word_from(bytes: Seq<u8>, count: int) -> int
    decreases count,
{
    if count <= 0 || count > bytes.len() {
        0
    } else {
        word_from(bytes, count - 1) + bytes[count - 1] as int * pow256(count - 1)
    }
}

/// 256 to the power of `exponent`.
pub open spec fn pow256(exponent: int) -> int
    decreases exponent,
{
    if exponent <= 0 {
        1
    } else {
        256 * pow256(exponent - 1)
    }
}

/// The number of samples in `len` bytes of `bytes_per_sample` bytes each;
/// a shorter rest counts as a sample.
pub open spec fn sample_count_in(len: nat, bytes_per_sample: nat) -> nat {
    ((len + bytes_per_sample - 1) / bytes_per_sample as int) as nat
}

/// The device samples in a byte buffer, as words: each run of
/// `bytes_per_sample` bytes is one sample.
pub open spec fn words_in(bytes: Seq<u8>, bytes_per_sample: nat) -> Seq<u64> {
    Seq::new(
        sample_count_in(bytes.len(), bytes_per_sample),
        |i: int|
            {
                let from = i * bytes_per_sample;
                let to = if from + bytes_per_sample < bytes.len() {
                    from + bytes_per_sample
                } else {
                    bytes.len() as int
                };
                word_from(bytes.subrange(from, to), to - from) as u64
            },
    )
}

proof fn lemma_word_bound(bytes: Seq<u8>, count: int)
    requires
        0 <= count <= bytes.len(),
    ensures
        0 <= word_from(bytes, count) < pow256(count),
        pow256(count) > 0,
    decreases count,
{
    if count > 0 {
        lemma_word_bound(bytes, count - 1);
        assert(bytes[count - 1] as int * pow256(count - 1) <= 255 * pow256(count - 1))
            by (nonlinear_arith)
            requires
                0 <= bytes[count - 1] as int <= 255,
                pow256(count - 1) > 0,
        ;
    }
}

proof fn lemma_pow256_eight()
    ensures
        pow256(8) == 0x1_0000_0000_0000_0000,
{
    reveal_with_fuel(pow256, 10);
}

proof fn lemma_pow256_rises(a: int, b: int)
    requires
        0 <= a <= b,
    ensures
        0 < pow256(a) <= pow256(b),
    decreases b,
{
    if a < b {
        lemma_pow256_rises(a, b - 1);
    } else if a > 0 {
        lemma_pow256_rises(a - 1, b - 1);
    }
}

/// Reads the device samples of a resampled frame as words. Samples are at
/// most eight bytes long.
pub fn words_from_bytes(bytes: &[u8], bytes_per_sample: usize) -> (words: Vec<u64>)
    requires
        0 < bytes_per_sample <= 8,
    ensures
        words@ == words_in(bytes@, bytes_per_sample as nat),
{
    let len: usize = bytes.len();
    let ghost want = words_in(bytes@, bytes_per_sample as nat);
    let mut words: Vec<u64> = Vec::new();
    let mut from: usize = 0;
    proof {
        assert(0 * bytes_per_sample == 0) by (nonlinear_arith);
        if len == 0 {
            vstd::arithmetic::div_mod::lemma_basic_div(
                bytes_per_sample as int - 1,
                bytes_per_sample as int,
            );
        }
    }
    while from < len
        invariant
            0 < bytes_per_sample <= 8,
            len == bytes@.len(),
            want == words_in(bytes@, bytes_per_sample as nat),
            from == words@.len() * bytes_per_sample || (from == len && words@.len()
                * bytes_per_sample >= len),
            from <= len,
            words@.len() <= want.len(),
            from == len ==> words@.len() == want.len(),
            forall|i: int| 0 <= i < words@.len() ==> words@[i] == #[trigger] want[i],
        decreases len - from,
    {
        let to: usize = if len - from > bytes_per_sample {
            from + bytes_per_sample
        } else {
            len
        };
        let ghost chunk = bytes@.subrange(from as int, to as int);
        let ghost index = words@.len() as int;
        proof {
            let total = (len + bytes_per_sample - 1) as int;
            let size = bytes_per_sample as int;
            vstd::arithmetic::div_mod::lemma_fundamental_div_mod(total, size);
            vstd::arithmetic::div_mod::lemma_mod_bound(total, size);
            let q = total / size;
            assert(index < q) by (nonlinear_arith)
                requires
                    size * q + total % size == total,
                    0 <= total % size < size,
                    total == len + size - 1,
                    index * size < len,
                    size > 0,
            ;
            if to == len {
                assert(q == index + 1) by (nonlinear_arith)
                    requires
                        size * q + total % size == total,
                        0 <= total % size < size,
                        total == len + size - 1,
                        index * size < len,
                        len - index * size <= size,
                        size > 0,
                ;
            }
        }
        let mut word: u64 = 0;
        let mut factor: u64 = 1;
        let mut k: usize = from;
        while k < to
            invariant
                from <= k <= to <= len,
                to - from <= 8,
                len == bytes@.len(),
                chunk == bytes@.subrange(from as int, to as int),
                word as int == word_from(chunk, k - from),
                k < to ==> factor as int == pow256(k - from),
            decreases to - k,
        {
            proof {
                lemma_word_bound(chunk, k - from);
                lemma_pow256_rises(k - from, 7);
                lemma_pow256_rises(k - from + 1, 8);
                lemma_pow256_eight();
                reveal_with_fuel(pow256, 10);
                assert(bytes@[k as int] as int * pow256(k - from) <= 255 * pow256(k - from))
                    by (nonlinear_arith)
                    requires
                        0 <= bytes@[k as int] as int <= 255,
                        pow256(k - from) > 0,
                ;
                assert(chunk[k - from] == bytes@[k as int]);
            }
            word = word + (bytes[k] as u64) * factor;
            if k + 1 < to {
                factor = factor * 256;
            }
            k = k + 1;
        }
        words.push(word);
        proof {
            assert(words@[index] == want[index]);
            assert((index + 1) * bytes_per_sample == index * bytes_per_sample + bytes_per_sample)
                by (nonlinear_arith);
        }
        from = to;
    }
    assert(words@ =~= want);
    words
}

/// The sample that stands for silence in a format: the middle of the range
/// for unsigned bytes, zero for the others.
pub fn equilibrium(format: SampleFormat) -> (word: u64)
    ensures
        word == (if format == SampleFormat::U8 {
            128u64
        } else {
            0u64
        }),
{
    match format {
        SampleFormat::U8 => 128,
        _ => 0,
    }
}

/// Frames that the device asks for at a time.
pub const PLAYBACK_SAMPLES_COUNT: u32 = 512;

/// Frames that a wireless device asks for at a time.
pub const WIRELESS_PLAYBACK_SAMPLES_COUNT: u32 = 1024;

/// The audio that is being played: the renderer, and the ring of device
/// samples that the render thread fills and the audio callback empties.
pub struct AudioPlaybackBuffer {
    pub frame_buffer: AudioRenderer,
    pub output: AudioInfo,
    pub resampled_buffer: SampleRing,
    /// The sample that stands for silence.
    pub equilibrium: u64,
}

/// The places of the ring for an output format: sample rate times
/// channels times the size of a sample.
pub open spec fn ring_places(info: AudioInfo) -> nat {
    (info.sample_rate * info.channels * info.sample_format.bytes_spec()) as nat
}

/// Whether `after` is `before` with samples added behind it.
pub open spec fn extends(before: Seq<u64>, after: Seq<u64>) -> bool {
    &&& before.len() <= after.len()
    &&& forall|i: int| 0 <= i < before.len() ==> #[trigger] after[i] == before[i]
}

/// The number of waiting samples that a filling aims at: `min_samples`,
/// or the ring's capacity where that is less.
pub open spec fn fill_target(min_samples: usize, capacity: nat) -> nat {
    if min_samples <= capacity {
        min_samples as nat
    } else {
        capacity
    }
}

/// Whether state `k` of `run` has fewer than `target` samples waiting and
/// goes over to the next by one rendered chunk, of which `took` says
/// whether the ring took anything: only the last chunk may bring nothing.
pub open spec fn is_filling_step<M, R>(
    run: Seq<AudioPlaybackBuffer>,
    took: Seq<bool>,
    k: int,
    target: nat,
    project: ProjectConfiguration,
    gain_of: &M,
    resample: &R,
) -> bool where
    M: Fn(Fixed) -> Fixed,
    R: Fn(Option<(usize, Vec<Fixed>)>) -> Option<Vec<u64>>,
 {
    &&& run[k].buffered().len() < target
    &&& run[k].renders_chunk(run[k + 1], project, gain_of, resample, took[k])
    &&& (took[k] || k + 1 == took.len())
}

/// Whether `run` is a filling of the ring up to `target` waiting samples:
/// one rendered chunk after the other, until a chunk brings nothing or
/// `target` samples wait.
pub open spec fn is_filling<M, R>(
    run: Seq<AudioPlaybackBuffer>,
    took: Seq<bool>,
    target: nat,
    project: ProjectConfiguration,
    gain_of: &M,
    resample: &R,
) -> bool where
    M: Fn(Fixed) -> Fixed,
    R: Fn(Option<(usize, Vec<Fixed>)>) -> Option<Vec<u64>>,
 {
    &&& run.len() == took.len() + 1
    &&& forall|k: int|
        0 <= k < took.len() ==> #[trigger] is_filling_step(
            run,
            took,
            k,
            target,
            project,
            gain_of,
            resample,
        )
    &&& (run.last().buffered().len() >= target || (took.len() > 0 && !took.last()))
}

/// The places of the ring for an output format, where there is at least
/// one and their number can be held.
pub fn ring_places_for(output_info: AudioInfo) -> (places: Option<usize>)
    ensures
        match places {
            Some(n) => n == ring_places(output_info.clamped()) && n > 0,
            None => ring_places(output_info.clamped()) == 0 || ring_places(output_info.clamped())
                > usize::MAX,
        },
{
    let info = output_info.for_ffmpeg_output();
    let rate: u64 = info.sample_rate as u64;
    let channels: u64 = info.channels as u64;
    let bytes: u64 = info.sample_format.bytes() as u64;
    assert(rate * channels <= 0xffff_ffff * 8 && rate * channels * bytes <= 0xffff_ffff * 8 * 8)
        by (nonlinear_arith)
        requires
            rate <= 0xffff_ffff,
            channels <= 8,
            bytes <= 8,
    ;
    let places: u64 = rate * channels * bytes;
    if places == 0 || places as u128 > usize::MAX as u128 {
        None
    } else {
        Some(places as usize)
    }
}

impl AudioPlaybackBuffer {
    /// The samples that wait in the ring.
    pub open spec fn buffered(self) -> Seq<u64> {
        ring_contents(self.resampled_buffer)
    }

    /// The number of places of the ring.
    pub open spec fn capacity(self) -> nat {
        ring_capacity(self.resampled_buffer)
    }

    /// The ring counts as nearly full when at most two chunks' worth of
    /// places are free.
    pub open spec fn reaching_limit(self) -> bool {
        self.capacity() - self.buffered().len() <= 2 * PROCESSING_SAMPLES_COUNT
            * self.output.channels
    }

    /// What is heard right now: what has been generated, less what still
    /// waits in the ring and less the device's latency; never before zero.
    pub open spec fn audible_at(self, device_sample_rate: u32, device_latency_secs: int) -> int {
        let generated_secs = playhead_at(self.frame_buffer.elapsed_samples as nat);
        let buffered_frames = (self.buffered().len() as int / self.output.channels as int) as nat;
        let buffered_secs = device_time_at(buffered_frames, device_sample_rate);
        max_spec(
            minus_spec(
                minus_spec(generated_secs, buffered_secs),
                max_spec(device_latency_secs, 0),
            ),
            0,
        )
    }

    /// A playback buffer with an empty ring of one place per byte of a second of output.
    pub fn new(data: Vec<AudioSegment>, output_info: AudioInfo, equilibrium: u64) -> (buffer: Self)
        requires
            0 < ring_places(output_info.clamped()) <= usize::MAX,
        ensures
            buffer.output == output_info.clamped(),
            buffer.buffered() == Seq::<u64>::empty(),
            buffer.capacity() == ring_places(output_info.clamped()),
            buffer.equilibrium == equilibrium,
            buffer.frame_buffer.data == data,
            buffer.frame_buffer.elapsed_samples == 0,
            buffer.frame_buffer.cursor == (AudioRendererCursor {
                clip_index: 0,
                timescale: ONE,
                samples: 0,
            }),
    {
        let output_info = output_info.for_ffmpeg_output();
        let rate: u64 = output_info.sample_rate as u64;
        let channels: u64 = output_info.channels as u64;
        let bytes: u64 = output_info.sample_format.bytes() as u64;
        assert(rate * channels <= 0xffff_ffff * 8 && rate * channels * bytes <= 0xffff_ffff * 8 * 8)
            by (nonlinear_arith)
            requires
                rate <= 0xffff_ffff,
                channels <= 8,
                bytes <= 8,
        ;
        let capacity: u64 = rate * channels * bytes;
        let resampled_buffer = SampleRing::new(capacity as usize);
        let frame_buffer = AudioRenderer::new(data);
        AudioPlaybackBuffer { frame_buffer, output: output_info, resampled_buffer, equilibrium }
    }

    /// Moves playback to `playhead` seconds: what waits in the ring is
    /// dropped and the renderer starts anew from there.
    pub fn set_playhead(&mut self, playhead: Fixed, project: &ProjectConfiguration)
        ensures
            final(self).buffered() == Seq::<u64>::empty(),
            final(self).capacity() == old(self).capacity(),
            final(self).output == old(self).output,
            final(self).equilibrium == old(self).equilibrium,
            final(self).frame_buffer.data == old(self).frame_buffer.data,
            final(self).frame_buffer.elapsed_samples == samples_at(playhead as int),
            final(self).frame_buffer.cursor == AudioRenderer::cursor_at(*project, playhead as int),
    {
        self.resampled_buffer.clear();
        self.frame_buffer.set_playhead(playhead, project);
    }

    /// The time in seconds up to which audio has been generated.
    pub fn current_playhead(&self) -> (seconds: Fixed)
        ensures
            seconds == playhead_at(self.frame_buffer.elapsed_samples as nat),
    {
        self.frame_buffer.elapsed_samples_to_playhead()
    }

    /// The time in seconds that is heard right now.
    pub fn current_audible_playhead(&self, device_sample_rate: u32, device_latency_secs: Fixed) -> (seconds: Fixed)
        requires
            self.output.channels > 0,
            device_sample_rate > 0,
        ensures
            seconds == self.audible_at(device_sample_rate, device_latency_secs as int),
    {
        let generated_secs: Fixed = self.frame_buffer.elapsed_samples_to_playhead();
        let channels: usize = self.output.channels;
        let buffered_elements: usize = self.resampled_buffer.occupied_len();
        let buffered_frames: usize = buffered_elements / channels;
        let buffered_secs: Fixed = device_time(buffered_frames, device_sample_rate);
        let audible: Fixed = minus(minus(generated_secs, buffered_secs), max(device_latency_secs, 0));
        max(audible, 0)
    }

    /// Whether the ring is nearly full, so that rendering should pause.
    pub fn buffer_reaching_limit(&self) -> (r: bool)
        ensures
            r == self.reaching_limit(),
            self.buffered().len() <= self.capacity(),
    {
        let vacant: u128 = self.resampled_buffer.vacant_len() as u128;
        let channels: u128 = self.output.channels as u128;
        assert(2 * 1024 * channels <= 2 * 1024 * 0xffff_ffff_ffff_ffff) by (nonlinear_arith)
            requires
                channels <= 0xffff_ffff_ffff_ffff,
        ;
        vacant <= 2 * 1024 * channels
    }

    /// Takes in what the resampler made of one chunk: nothing and an empty
    /// chunk end the filling; anything else goes into the ring as far as
    /// there is room.
    pub fn push_rendered(&mut self, rendered: Option<Vec<u64>>) -> (pushed_any: bool)
        ensures
            final(self).capacity() == old(self).capacity(),
            final(self).output == old(self).output,
            final(self).equilibrium == old(self).equilibrium,
            final(self).frame_buffer == old(self).frame_buffer,
            match rendered {
                Some(data) => if data@.len() == 0 {
                    !pushed_any && final(self).buffered() == old(self).buffered()
                } else {
                    pushed_any && final(self).buffered() == pushed(
                        old(self).buffered(),
                        old(self).capacity(),
                        data@,
                    )
                },
                None => !pushed_any && final(self).buffered() == old(self).buffered(),
            },
    {
        match rendered {
            None => false,
            Some(data) => {
                if data.len() == 0 {
                    false
                } else {
                    self.resampled_buffer.push_slice(data.as_slice());
                    true
                }
            },
        }
    }

    /// Whether one rendered chunk takes the buffer to `after`. A ring that
    /// is nearly full leaves everything as it is. Otherwise the renderer
    /// goes on by one frame of 1024 samples, the resampler answers for that
    /// frame, and the ring takes of the answer what it has room for;
    /// `pushed_any` says whether the answer held anything.
    pub open spec fn renders_chunk<M, R>(
        self,
        after: AudioPlaybackBuffer,
        project: ProjectConfiguration,
        gain_of: &M,
        resample: &R,
        pushed_any: bool,
    ) -> bool where
        M: Fn(Fixed) -> Fixed,
        R: Fn(Option<(usize, Vec<Fixed>)>) -> Option<Vec<u64>>,
     {
        &&& after.capacity() == self.capacity()
        &&& after.output == self.output
        &&& after.equilibrium == self.equilibrium
        &&& if self.reaching_limit() {
            &&& !pushed_any
            &&& after.frame_buffer == self.frame_buffer
            &&& after.buffered() == self.buffered()
        } else {
            exists|frame: Option<(usize, Vec<Fixed>)>, out: Option<Vec<u64>>|
                {
                    &&& #[trigger] resample.ensures((frame,), out)
                    &&& self.frame_buffer.renders(
                        after.frame_buffer,
                        PROCESSING_SAMPLES_COUNT as usize,
                        project,
                        gain_of,
                        frame,
                    )
                    &&& after.buffered() == pushed(self.buffered(), self.capacity(), given(out))
                    &&& pushed_any == (given(out).len() > 0)
                }
        }
    }

    /// Renders one chunk of 1024 frames into the ring, unless the ring is
    /// nearly full: `resample` turns what was rendered, or for a silent
    /// chunk what it still holds, into device samples. Says whether the
    /// ring took anything.
    pub fn render_chunk<M, R>(&mut self, project: &ProjectConfiguration, gain_of: &M, resample: &R) -> (pushed_any: bool)
        where
            M: Fn(Fixed) -> Fixed,
            R: Fn(Option<(usize, Vec<Fixed>)>) -> Option<Vec<u64>>,
        requires
            forall|db: Fixed| gain_of.requires((db,)),
            forall|frame: Option<(usize, Vec<Fixed>)>| resample.requires((frame,)),
        ensures
            old(self).renders_chunk(*final(self), *project, gain_of, resample, pushed_any),
            final(self).frame_buffer.data == old(self).frame_buffer.data,
            extends(old(self).buffered(), final(self).buffered()),
            final(self).buffered().len() <= final(self).capacity(),
            pushed_any ==> final(self).buffered().len() > old(self).buffered().len(),
            !pushed_any ==> final(self).buffered() == old(self).buffered(),
    {
        if self.buffer_reaching_limit() {
            return false;
        }
        let next_frame = self.frame_buffer.render_frame_raw(
            PROCESSING_SAMPLES_COUNT as usize,
            project,
            gain_of,
        );
        let ghost frame = next_frame;
        let maybe_rendered: Option<Vec<u64>> = resample(next_frame);
        let ghost out = maybe_rendered;
        assert(resample.ensures((frame,), out));
        let pushed_any: bool = self.push_rendered(maybe_rendered);
        proof {
            assert(given(out).len() == 0 ==> pushed(
                old(self).buffered(),
                old(self).capacity(),
                given(out),
            ) =~= old(self).buffered());
        }
        pushed_any
    }

    /// Renders chunks until at least `min_samples` samples wait in the
    /// ring, or the ring's capacity if that is less, or until a chunk
    /// brings nothing.
    pub fn prefill<M, R>(
        &mut self,
        project: &ProjectConfiguration,
        min_samples: usize,
        gain_of: &M,
        resample: &R,
    )
        where
            M: Fn(Fixed) -> Fixed,
            R: Fn(Option<(usize, Vec<Fixed>)>) -> Option<Vec<u64>>,
        requires
            forall|db: Fixed| gain_of.requires((db,)),
            forall|frame: Option<(usize, Vec<Fixed>)>| resample.requires((frame,)),
        ensures
            final(self).capacity() == old(self).capacity(),
            final(self).output == old(self).output,
            final(self).equilibrium == old(self).equilibrium,
            final(self).frame_buffer.data == old(self).frame_buffer.data,
            extends(old(self).buffered(), final(self).buffered()),
            min_samples == 0 ==> final(self).buffered() == old(self).buffered() && final(self).frame_buffer == old(self).frame_buffer,
            min_samples > 0 ==> exists|run: Seq<AudioPlaybackBuffer>, took: Seq<bool>|
                {
                    &&& #[trigger] is_filling(
                        run,
                        took,
                        fill_target(min_samples, old(self).capacity()),
                        *project,
                        gain_of,
                        resample,
                    )
                    &&& run[0] == *old(self)
                    &&& run.last() == *final(self)
                },
    {
        if min_samples == 0 {
            return ;
        }
        let capacity: usize = self.resampled_buffer.capacity();
        let target: usize = if min_samples <= capacity {
            min_samples
        } else {
            capacity
        };
        let ghost mut run: Seq<AudioPlaybackBuffer> = seq![*self];
        let ghost mut took: Seq<bool> = Seq::empty();
        let mut more: bool = true;
        while more
            invariant
                self.capacity() == old(self).capacity(),
                capacity == self.capacity(),
                target == fill_target(min_samples, old(self).capacity()),
                self.output == old(self).output,
                self.equilibrium == old(self).equilibrium,
                self.frame_buffer.data == old(self).frame_buffer.data,
                extends(old(self).buffered(), self.buffered()),
                run.len() == took.len() + 1,
                run[0] == *old(self),
                run.last() == *self,
                more == (took.len() == 0 || took.last()),
                forall|k: int|
                    0 <= k < took.len() ==> #[trigger] is_filling_step(
                        run,
                        took,
                        k,
                        target as nat,
                        *project,
                        gain_of,
                        resample,
                    ),
                forall|db: Fixed| gain_of.requires((db,)),
                forall|frame: Option<(usize, Vec<Fixed>)>| resample.requires((frame,)),
            ensures
                is_filling(run, took, target as nat, *project, gain_of, resample),
            decreases self.capacity() - self.buffered().len() + (if more { 1nat } else { 0nat }),
        {
            let occupied: usize = self.resampled_buffer.occupied_len();
            if occupied >= target {
                break ;
            }
            let ghost before = *self;
            let ghost run_before = run;
            let ghost took_before = took;
            more = self.render_chunk(project, gain_of, resample);
            proof {
                run = run.push(*self);
                took = took.push(more);
                assert forall|k: int| 0 <= k < took.len() implies #[trigger] is_filling_step(
                    run,
                    took,
                    k,
                    target as nat,
                    *project,
                    gain_of,
                    resample,
                ) by {
                    if k < took_before.len() {
                        assert(is_filling_step(
                            run_before,
                            took_before,
                            k,
                            target as nat,
                            *project,
                            gain_of,
                            resample,
                        ));
                        assert(took_before.last());
                        assert(took[k] == took_before[k]);
                        assert(run[k] == run_before[k]);
                        assert(run[k + 1] == run_before[k + 1]);
                    } else {
                        assert(run[k] == before);
                        assert(run[k + 1] == *self);
                    }
                }
            }
        }
    }

    /// Hands the device the samples that wait, the oldest first, and
    /// silence where they run out; then refills the ring as `prefill` does.
    pub fn fill<M, R>(
        &mut self,
        playback_buffer: &mut Vec<u64>,
        project: &ProjectConfiguration,
        min_headroom_samples: usize,
        gain_of: &M,
        resample: &R,
    )
        where
            M: Fn(Fixed) -> Fixed,
            R: Fn(Option<(usize, Vec<Fixed>)>) -> Option<Vec<u64>>,
        requires
            forall|db: Fixed| gain_of.requires((db,)),
            forall|frame: Option<(usize, Vec<Fixed>)>| resample.requires((frame,)),
        ensures
            final(self).capacity() == old(self).capacity(),
            final(self).output == old(self).output,
            final(self).equilibrium == old(self).equilibrium,
            final(self).frame_buffer.data == old(self).frame_buffer.data,
            final(playback_buffer)@.len() == old(playback_buffer)@.len(),
            forall|i: int|
                0 <= i < popped(old(self).buffered(), old(playback_buffer)@.len())
                    ==> #[trigger] final(playback_buffer)@[i] == old(self).buffered()[i],
            forall|i: int|
                popped(old(self).buffered(), old(playback_buffer)@.len()) <= i < old(playback_buffer)@.len() ==> #[trigger] final(playback_buffer)@[i] == old(self).equilibrium,
            extends(
                old(self).buffered().subrange(
                    popped(old(self).buffered(), old(playback_buffer)@.len()) as int,
                    old(self).buffered().len() as int,
                ),
                final(self).buffered(),
            ),
            min_headroom_samples == 0 ==> {
                &&& final(self).frame_buffer == old(self).frame_buffer
                &&& final(self).buffered() == old(self).buffered().subrange(
                    popped(old(self).buffered(), old(playback_buffer)@.len()) as int,
                    old(self).buffered().len() as int,
                )
            },
            min_headroom_samples > 0 ==> exists|run: Seq<AudioPlaybackBuffer>, took: Seq<bool>|
                {
                    &&& #[trigger] is_filling(
                        run,
                        took,
                        fill_target(min_headroom_samples, old(self).capacity()),
                        *project,
                        gain_of,
                        resample,
                    )
                    &&& run[0].frame_buffer == old(self).frame_buffer
                    &&& run[0].output == old(self).output
                    &&& run[0].equilibrium == old(self).equilibrium
                    &&& run[0].capacity() == old(self).capacity()
                    &&& run[0].buffered() == old(self).buffered().subrange(
                        popped(old(self).buffered(), old(playback_buffer)@.len()) as int,
                        old(self).buffered().len() as int,
                    )
                    &&& run.last() == *final(self)
                },
    {
        let filled: usize = self.resampled_buffer.pop_slice(playback_buffer);
        let n: usize = playback_buffer.len();
        let mut i: usize = filled;
        while i < n
            invariant
                filled <= i <= n,
                n == playback_buffer@.len(),
                n == old(playback_buffer)@.len(),
                filled == popped(old(self).buffered(), n as nat),
                self.equilibrium == old(self).equilibrium,
                forall|k: int|
                    0 <= k < filled ==> #[trigger] playback_buffer@[k] == old(self).buffered()[k],
                forall|k: int| filled <= k < i ==> #[trigger] playback_buffer@[k] == self.equilibrium,
            decreases n - i,
        {
            playback_buffer[i] = self.equilibrium;
            i = i + 1;
        }
        self.prefill(project, min_headroom_samples, gain_of, resample);
    }
}

/// The hash of no words.
pub const HASH_SEED: u64 = 0xcbf2_9ce4_8422_2325;

/// The factor that a hash is multiplied by after each word.
pub const HASH_PRIME: u64 = 0x0000_0100_0000_01b3;

/// The hash after one more word.
pub open spec fn hash_step(hash: u64, word: u64) -> u64 {
    (hash ^ word).wrapping_mul(HASH_PRIME)
}

/// The hash of the first `upto` words.
pub open spec fn hash_words(words: Seq<u64>, upto: int) -> u64
    decreases upto,
{
    if upto <= 0 || upto > words.len() {
        HASH_SEED
    } else {
        hash_step(hash_words(words, upto - 1), words[upto - 1])
    }
}

/// A scalar as a word: its two's complement.
pub open spec fn word_of(value: Fixed) -> u64 {
    if value >= 0 {
        value as u64
    } else {
        (value + 0x1_0000_0000_0000_0000) as u64
    }
}

/// A stereo mode as a word.
pub open spec fn stereo_word(mode: StereoMode) -> u64 {
    match mode {
        StereoMode::Stereo => 0,
        StereoMode::MonoL => 1,
        StereoMode::MonoR => 2,
        StereoMode::MonoMix => 3,
    }
}

/// The words of the first `upto` segments: clip, start, end and timescale
/// of each.
pub open spec fn segment_words(segments: Seq<TimelineSegment>, upto: int) -> Seq<u64>
    decreases upto,
{
    if upto <= 0 || upto > segments.len() {
        Seq::empty()
    } else {
        segment_words(segments, upto - 1) + seq![
            segments[upto - 1].recording_clip as u64,
            word_of(segments[upto - 1].start),
            word_of(segments[upto - 1].end),
            word_of(segments[upto - 1].timescale),
        ]
    }
}

/// The words of the first `upto` clips: index and the three offsets of
/// each.
pub open spec fn clip_words(clips: Seq<ClipConfiguration>, upto: int) -> Seq<u64>
    decreases upto,
{
    if upto <= 0 || upto > clips.len() {
        Seq::empty()
    } else {
        clip_words(clips, upto - 1) + seq![
            clips[upto - 1].index as u64,
            word_of(clips[upto - 1].offsets.camera),
            word_of(clips[upto - 1].offsets.mic),
            word_of(clips[upto - 1].offsets.system_audio),
        ]
    }
}

/// What of a project decides how its audio sounds, as words: the
/// timeline's segments, the clips' offsets, and mute, volumes and stereo
/// mode; each list behind its length.
pub open spec fn audio_words(project: ProjectConfiguration) -> Seq<u64> {
    let segments = match project.timeline {
        Some(timeline) => timeline.segments@,
        None => Seq::empty(),
    };
    seq![segments.len() as u64] + segment_words(segments, segments.len() as int) + seq![
        project.clips@.len() as u64,
    ] + clip_words(project.clips@, project.clips@.len() as int) + seq![
        if project.audio.mute {
            1u64
        } else {
            0u64
        },
        word_of(project.audio.mic_volume_db),
        stereo_word(project.audio.mic_stereo_mode),
        word_of(project.audio.system_volume_db),
    ]
}

fn to_word(value: Fixed) -> (word: u64)
    ensures
        word == word_of(value),
{
    if value >= 0 {
        value as u64
    } else {
        (value as i128 + 0x1_0000_0000_0000_0000) as u64
    }
}

fn hash_more(hash: u64, word: u64) -> (next: u64)
    ensures
        next == hash_step(hash, word),
{
    (hash ^ word).wrapping_mul(HASH_PRIME)
}

impl<T> PredecodedAudio<T> {
    /// Whether the audio was rendered for the project as it is now.
    pub fn is_current(&self, project: &ProjectConfiguration) -> (current: bool)
        ensures
            current == (self.timeline_hash == hash_words(
                audio_words(*project),
                audio_words(*project).len() as int,
            )),
    {
        self.timeline_hash == compute_timeline_hash(project)
    }
}

/// A digest of what decides how a project's audio sounds. Audio that was
/// rendered for one digest is stale once the project has another.
pub fn compute_timeline_hash(project: &ProjectConfiguration) -> (hash: u64)
    ensures
        hash == hash_words(audio_words(*project), audio_words(*project).len() as int),
{
    let mut words: Vec<u64> = Vec::new();
    match &project.timeline {
        Some(timeline) => {
            let n: usize = timeline.segments.len();
            words.push(n as u64);
            let mut i: usize = 0;
            while i < n
                invariant
                    n == timeline.segments@.len(),
                    i <= n,
                    words@ == seq![n as u64] + segment_words(timeline.segments@, i as int),
                decreases n - i,
            {
                let segment: &TimelineSegment = &timeline.segments[i];
                words.push(segment.recording_clip as u64);
                words.push(to_word(segment.start));
                words.push(to_word(segment.end));
                words.push(to_word(segment.timescale));
                i = i + 1;
                assert(words@ =~= seq![n as u64] + segment_words(timeline.segments@, i as int));
            }
        },
        None => {
            words.push(0);
            assert(words@ =~= seq![0u64] + segment_words(Seq::empty(), 0));
        },
    }
    let ghost head = words@;
    let m: usize = project.clips.len();
    words.push(m as u64);
    let mut j: usize = 0;
    while j < m
        invariant
            m == project.clips@.len(),
            j <= m,
            words@ == head + seq![m as u64] + clip_words(project.clips@, j as int),
        decreases m - j,
    {
        let clip: &ClipConfiguration = &project.clips[j];
        words.push(clip.index as u64);
        words.push(to_word(clip.offsets.camera));
        words.push(to_word(clip.offsets.mic));
        words.push(to_word(clip.offsets.system_audio));
        j = j + 1;
        assert(words@ =~= head + seq![m as u64] + clip_words(project.clips@, j as int));
    }
    words.push(
        if project.audio.mute {
            1
        } else {
            0
        },
    );
    words.push(to_word(project.audio.mic_volume_db));
    words.push(
        match project.audio.mic_stereo_mode {
            StereoMode::Stereo => 0,
            StereoMode::MonoL => 1,
            StereoMode::MonoR => 2,
            StereoMode::MonoMix => 3,
        },
    );
    words.push(to_word(project.audio.system_volume_db));
    assert(words@ =~= audio_words(*project));
    let count: usize = words.len();
    let mut hash: u64 = HASH_SEED;
    let mut k: usize = 0;
    while k < count
        invariant
            count == words@.len(),
            k <= count,
            hash == hash_words(words@, k as int),
        decreases count - k,
    {
        hash = hash_more(hash, words[k]);
        k = k + 1;
    }
    hash
}

} // verus!
