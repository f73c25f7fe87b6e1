//! The audio mixer: the sum of offset-aligned stereo tracks, each with its
//! gain and routing, at the mix rate.

use vstd::prelude::*;
use crate::fixed::{plus, plus_spec, quot, times, times_spec, Fixed};
use crate::project::StereoMode;

verus! {

/// Decoded audio of one recording: stereo, interleaved, at the mix rate,
/// each sample a fixed-point scalar in `[-1, 1]`.
#[derive(Debug)]
pub struct AudioData {
    pub samples: Vec<Fixed>,
}

impl AudioData {
    /// The length in frames.
    pub open spec fn frames(self) -> nat {
        self.samples@.len() / 2
    }

    pub fn sample_count(&self) -> (n: usize)
        ensures
            n == self.frames(),
    {
        self.samples.len() / 2
    }
}

/// One track as the mixer takes it.
pub struct AudioRendererTrack<'a> {
    pub data: &'a AudioData,
    /// The factor that the samples are multiplied by; `None` stands for a
    /// track that is not heard.
    pub gain: Option<Fixed>,
    pub stereo_mode: StereoMode,
    /// The frame of the mix at which the track begins.
    pub offset: i64,
}

/// A track for specifications.
pub struct TrackView {
    pub samples: Seq<Fixed>,
    pub gain: Option<Fixed>,
    pub stereo_mode: StereoMode,
    pub offset: int,
}

impl<'a> View for AudioRendererTrack<'a> {
    type V = TrackView;

    open spec fn view(&self) -> TrackView {
        TrackView {
            samples: self.data.samples@,
            gain: self.gain,
            stereo_mode: self.stereo_mode,
            offset: self.offset as int,
        }
    }
}

/// The views of a list of tracks.
pub open spec fn track_views(tracks: Seq<AudioRendererTrack>) -> Seq<TrackView> {
    Seq::new(tracks.len(), |i: int| tracks[i]@)
}

/// The mean of two samples, rounded toward zero.
pub open spec fn mean(l: int, r: int) -> int {
    quot(l + r, 2)
}

/// What frame `frame` of a track gives to channel `channel` of the mix,
/// before gain: 0 is the left channel, 1 the right.
pub open spec fn routed(track: TrackView, frame: int, channel: int) -> int {
    let l = track.samples[2 * frame] as int;
    let r = track.samples[2 * frame + 1] as int;
    match track.stereo_mode {
        StereoMode::Stereo => if channel == 0 {
            l
        } else {
            r
        },
        StereoMode::MonoL => l,
        StereoMode::MonoR => r,
        StereoMode::MonoMix => mean(l, r),
    }
}

/// What a track adds to channel `channel` of frame `position` of the mix:
/// its sample at that frame less its offset, times its gain; nothing
/// outside the track and nothing from a track that is not heard.
pub open spec fn contribution(track: TrackView, position: int, channel: int) -> int {
    let frame = position - track.offset;
    match track.gain {
        Some(gain) => if 0 <= frame < track.samples.len() / 2 {
            times_spec(routed(track, frame, channel), gain as int)
        } else {
            0
        },
        None => 0,
    }
}

/// Channel `channel` of frame `position` of the mix of the first `upto`
/// tracks: the saturating sum of what they add, in their order.
pub open spec fn mixed_sample(tracks: Seq<TrackView>, upto: int, position: int, channel: int) -> int
    decreases upto,
{
    if upto <= 0 || upto > tracks.len() {
        0
    } else {
        plus_spec(
            mixed_sample(tracks, upto - 1, position, channel),
            contribution(tracks[upto - 1], position, channel),
        )
    }
}

/// The frame of the mix behind the last frame of a track.
pub open spec fn track_end(track: TrackView) -> int {
    track.samples.len() / 2 + track.offset
}

/// The frame of the mix behind the last frame of the first `upto` tracks;
/// zero without tracks.
pub open spec fn latest_end(tracks: Seq<TrackView>, upto: int) -> int
    decreases upto,
{
    if upto <= 0 || upto > tracks.len() {
        0
    } else {
        let rest = latest_end(tracks, upto - 1);
        let here = track_end(tracks[upto - 1]);
        if upto == 1 || here > rest {
            here
        } else {
            rest
        }
    }
}

/// The frames that the mixer makes of `samples` asked for from frame
/// `start` on: all of them while any track goes on, none behind the end
/// of the last track.
pub open spec fn produced_frames(tracks: Seq<TrackView>, start: int, samples: int) -> int {
    let left = latest_end(tracks, tracks.len() as int) - start;
    if tracks.len() == 0 || left <= 0 {
        0
    } else if left < samples {
        left
    } else {
        samples
    }
}

/// The mix of `frames` frames from frame `start` on, interleaved.
pub open spec fn mixed(tracks: Seq<TrackView>, start: int, frames: int) -> Seq<Fixed> {
    Seq::new(
        (2 * frames) as nat,
        |i: int| mixed_sample(tracks, tracks.len() as int, start + i / 2, i % 2) as Fixed,
    )
}

fn routed_sample(track: &AudioRendererTrack, frame: usize, channel: usize) -> (sample: Fixed)
    requires
        frame < track.data.frames(),
        channel < 2,
    ensures
        sample as int == routed(track@, frame as int, channel as int),
{
    let len: usize = track.data.samples.len();
    assert(2 * frame + 1 < len);
    let l: Fixed = track.data.samples[2 * frame];
    let r: Fixed = track.data.samples[2 * frame + 1];
    match track.stereo_mode {
        StereoMode::Stereo => if channel == 0 {
            l
        } else {
            r
        },
        StereoMode::MonoL => l,
        StereoMode::MonoR => r,
        StereoMode::MonoMix => {
            let sum: i128 = l as i128 + r as i128;
            if sum >= 0 {
                (sum / 2) as i64
            } else {
                (-((-sum) / 2)) as i64
            }
        },
    }
}

fn contribution_of(track: &AudioRendererTrack, position: u128, channel: usize) -> (sample: Fixed)
    requires
        channel < 2,
        position <= 0x2_0000_0000_0000_0000,
    ensures
        sample as int == contribution(track@, position as int, channel as int),
{
    match track.gain {
        None => 0,
        Some(gain) => {
            let frame: i128 = position as i128 - track.offset as i128;
            let frames: usize = track.data.sample_count();
            if 0 <= frame && frame < frames as i128 {
                times(routed_sample(track, frame as usize, channel), gain)
            } else {
                0
            }
        },
    }
}

fn mix_sample(tracks: &[AudioRendererTrack], position: u128, channel: usize) -> (sample: Fixed)
    requires
        channel < 2,
        position <= 0x2_0000_0000_0000_0000,
    ensures
        sample as int == mixed_sample(
            track_views(tracks@),
            tracks@.len() as int,
            position as int,
            channel as int,
        ),
{
    let n: usize = tracks.len();
    let mut sum: Fixed = 0;
    let mut i: usize = 0;
    while i < n
        invariant
            n == tracks@.len(),
            i <= n,
            channel < 2,
            position <= 0x2_0000_0000_0000_0000,
            sum as int == mixed_sample(
                track_views(tracks@),
                i as int,
                position as int,
                channel as int,
            ),
        decreases n - i,
    {
        assert(track_views(tracks@)[i as int] == tracks@[i as int]@);
        sum = plus(sum, contribution_of(&tracks[i], position, channel));
        i = i + 1;
    }
    sum
}

fn frames_to_produce(tracks: &[AudioRendererTrack], start: usize, samples: usize) -> (frames: usize)
    ensures
        frames as int == produced_frames(track_views(tracks@), start as int, samples as int),
        frames <= samples,
{
    let n: usize = tracks.len();
    if n == 0 {
        return 0;
    }
    let mut latest: i128 = 0;
    let mut i: usize = 0;
    while i < n
        invariant
            n == tracks@.len(),
            i <= n,
            latest as int == latest_end(track_views(tracks@), i as int),
            -0x8000_0000_0000_0000 <= latest <= 0x1_8000_0000_0000_0000,
        decreases n - i,
    {
        assert(track_views(tracks@)[i as int] == tracks@[i as int]@);
        let here: i128 = tracks[i].data.sample_count() as i128 + tracks[i].offset as i128;
        if i == 0 || here > latest {
            latest = here;
        }
        i = i + 1;
    }
    let left: i128 = latest - start as i128;
    if left <= 0 {
        0
    } else if left < samples as i128 {
        left as usize
    } else {
        samples
    }
}

/// Mixes `samples` frames of `tracks` from frame `start` on. Returns the
/// number of frames made, which is less once every track has ended, and
/// the interleaved stereo samples of those frames.
pub fn render_audio(tracks: &[AudioRendererTrack], start: usize, samples: usize) -> (r: (
    usize,
    Vec<Fixed>,
))
    ensures
        r.0 as int == produced_frames(track_views(tracks@), start as int, samples as int),
        r.1@ == mixed(track_views(tracks@), start as int, r.0 as int),
{
    let frames: usize = frames_to_produce(tracks, start, samples);
    let ghost views = track_views(tracks@);
    let ghost want = mixed(views, start as int, frames as int);
    let mut out: Vec<Fixed> = Vec::new();
    let mut k: usize = 0;
    while k < frames
        invariant
            k <= frames,
            views == track_views(tracks@),
            want == mixed(views, start as int, frames as int),
            out@.len() == 2 * k,
            forall|i: int| 0 <= i < out@.len() ==> out@[i] == #[trigger] want[i],
        decreases frames - k,
    {
        let position: u128 = start as u128 + k as u128;
        let left: Fixed = mix_sample(tracks, position, 0);
        let right: Fixed = mix_sample(tracks, position, 1);
        out.push(left);
        out.push(right);
        k = k + 1;
    }
    assert(out@ =~= want);
    (frames, out)
}

} // verus!
