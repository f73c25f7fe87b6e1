//! MP4 export: compression presets, the per-frame audio sample accounting,
//! the decisions of the frame loop, and the repacking of rendered frames.

use vstd::prelude::*;
use crate::fixed::Fixed;
use crate::project::XY;
use vstd::arithmetic::div_mod::lemma_fundamental_div_mod_converse;
use vstd::slice::slice_subrange;

verus! {

/// Seconds to wait for the first rendered frame.
pub const FIRST_FRAME_TIMEOUT_SECS: u64 = 120;

/// Seconds to wait for every later frame.
pub const FRAME_TIMEOUT_SECS: u64 = 90;

/// Consecutive receive timeouts after which the export gives up.
pub const MAX_CONSECUTIVE_TIMEOUTS: u32 = 3;

/// How hard the video is compressed.
#[derive(Clone, Copy, Debug, PartialEq, Eq, Structural)]
pub enum ExportCompression {
    Maximum,
    Social,
    Web,
    Potato,
}

impl ExportCompression {
    /// Bits spent per pixel and frame: 0.3, 0.15, 0.08 or 0.04.
    pub open spec fn bits_per_pixel_spec(self) -> int {
        match self {
            ExportCompression::Maximum => 300_000_000,
            ExportCompression::Social => 150_000_000,
            ExportCompression::Web => 80_000_000,
            ExportCompression::Potato => 40_000_000,
        }
    }

    /// Bits spent per pixel and frame: 0.3, 0.15, 0.08 or 0.04.
    pub fn bits_per_pixel(&self) -> (r: Fixed)
        ensures
            r as int == self.bits_per_pixel_spec(),
    {
        match self {
            ExportCompression::Maximum => 300_000_000,
            ExportCompression::Social => 150_000_000,
            ExportCompression::Web => 80_000_000,
            ExportCompression::Potato => 40_000_000,
        }
    }
}

/// What an export to MP4 is asked for.
#[derive(Clone, Copy, Debug)]
pub struct Mp4ExportSettings {
    pub fps: u32,
    pub resolution_base: XY<u32>,
    pub compression: ExportCompression,
    pub custom_bpp: Option<Fixed>,
    pub force_ffmpeg_decoder: bool,
}

impl Mp4ExportSettings {
    /// The custom bits per pixel where one is set, else the preset's.
    pub open spec fn effective_bpp_spec(self) -> int {
        match self.custom_bpp {
            Some(bpp) => bpp as int,
            None => self.compression.bits_per_pixel_spec(),
        }
    }

    /// The custom bits per pixel where one is set, else the preset's.
    pub fn effective_bpp(&self) -> (r: Fixed)
        ensures
            r as int == self.effective_bpp_spec(),
    {
        match self.custom_bpp {
            Some(bpp) => bpp,
            None => self.compression.bits_per_pixel(),
        }
    }

    /// The bits per second of video of `width` by `height` pixels: bits per
    /// pixel times pixels times frames per second, none for bits per pixel
    /// below zero, and held at the largest number.
    pub open spec fn video_bitrate_spec(self, width: u32, height: u32) -> u64 {
        let bits = self.effective_bpp_spec() * (width as int * height as int * self.fps as int)
            / crate::fixed::ONE as int;
        if self.effective_bpp_spec() <= 0 {
            0
        } else if bits > u64::MAX {
            u64::MAX
        } else {
            bits as u64
        }
    }

    /// The bits per second of video of `width` by `height` pixels.
    pub fn video_bitrate(&self, width: u32, height: u32) -> (bits_per_second: u64)
        ensures
            bits_per_second == self.video_bitrate_spec(width, height),
    {
        let bpp: Fixed = self.effective_bpp();
        if bpp <= 0 {
            return 0;
        }
        let w: u128 = width as u128;
        let h: u128 = height as u128;
        let f: u128 = self.fps as u128;
        let b: u128 = bpp as u128;
        assert(w * h <= 0xffff_ffff * 0xffff_ffff && w * h * f <= 0xffff_ffff * 0xffff_ffff
            * 0xffff_ffff) by (nonlinear_arith)
            requires
                w <= 0xffff_ffff,
                h <= 0xffff_ffff,
                f <= 0xffff_ffff,
        ;
        let rate: u128 = w * h * f;
        let whole: u128 = rate / 1_000_000_000;
        let rest: u128 = rate % 1_000_000_000;
        proof {
            let one = 1_000_000_000int;
            let product = b as int * rate as int;
            let tail = b as int * rest as int;
            assert(product == one * (b as int * whole as int) + tail) by (nonlinear_arith)
                requires
                    product == b as int * rate as int,
                    tail == b as int * rest as int,
                    rate as int == one * whole as int + rest as int,
            ;
            assert(tail >= 0) by (nonlinear_arith)
                requires
                    tail == b as int * rest as int,
                    b >= 0,
                    rest >= 0,
            ;
            vstd::arithmetic::div_mod::lemma_fundamental_div_mod(tail, one);
            vstd::arithmetic::div_mod::lemma_mod_bound(tail, one);
            vstd::arithmetic::div_mod::lemma_fundamental_div_mod_converse(
                product,
                one,
                b as int * whole as int + tail / one,
                tail % one,
            );
            assert(b as int * whole as int >= whole as int) by (nonlinear_arith)
                requires
                    b >= 1,
                    whole >= 0,
            ;
            assert(tail / one >= 0);
        }
        if whole > u64::MAX as u128 {
            return u64::MAX;
        }
        assert(b * whole <= 0x7fff_ffff_ffff_ffff * 0xffff_ffff_ffff_ffff && b * rest
            <= 0x7fff_ffff_ffff_ffff * 1_000_000_000) by (nonlinear_arith)
            requires
                b <= 0x7fff_ffff_ffff_ffff,
                whole <= 0xffff_ffff_ffff_ffff,
                rest <= 1_000_000_000,
        ;
        let bits: u128 = b * whole + b * rest / 1_000_000_000;
        if bits > u64::MAX as u128 {
            u64::MAX
        } else {
            bits as u64
        }
    }
}

/// Whether `c` is `lower` or its upper-case form; `lower` is a lower-case
/// ASCII letter.
pub open spec fn is_letter(c: char, lower: char) -> bool {
    c == lower || c as int == lower as int - 32
}

/// Whether a value of the GPU conversion switch turns it on: `1`, or `true`
/// in any mix of upper and lower case.
pub open spec fn gpu_flag_enables(value: Seq<char>) -> bool {
    ||| (value.len() == 1 && value[0] == '1')
    ||| (value.len() == 4 && is_letter(value[0], 't') && is_letter(value[1], 'r') && is_letter(
        value[2],
        'u',
    ) && is_letter(value[3], 'e'))
}

fn letter_matches(c: char, lower: char) -> (r: bool)
    requires
        'a' <= lower <= 'z',
    ensures
        r == is_letter(c, lower),
{
    c == lower || c as u32 + 32 == lower as u32
}

/// Reads the value of the GPU conversion switch.
pub fn gpu_conversion_enabled(value: &str) -> (r: bool)
    ensures
        r == gpu_flag_enables(value@),
{
    let n: usize = value.unicode_len();
    if n == 1 {
        value.get_char(0) == '1'
    } else if n == 4 {
        letter_matches(value.get_char(0), 't') && letter_matches(value.get_char(1), 'r')
            && letter_matches(value.get_char(2), 'u') && letter_matches(value.get_char(3), 'e')
    } else {
        false
    }
}

/// The first audio sample that belongs to video frame `frame`.
pub open spec fn frame_start(frame: nat, sample_rate: nat, fps: nat) -> nat
    recommends
        fps > 0,
{
    (frame * sample_rate) / fps
}

/// The number of audio samples that accompany video frame `frame`.
pub open spec fn frame_samples(frame: nat, sample_rate: nat, fps: nat) -> nat
    recommends
        fps > 0,
{
    (frame_start(frame + 1, sample_rate, fps) - frame_start(frame, sample_rate, fps)) as nat
}

/// The audio samples that accompany the first `frames` video frames.
pub open spec fn total_samples(frames: nat, sample_rate: nat, fps: nat) -> nat
    recommends
        fps > 0,
    decreases frames,
{
    if frames == 0 {
        0
    } else {
        total_samples((frames - 1) as nat, sample_rate, fps) + frame_samples(
            (frames - 1) as nat,
            sample_rate,
            fps,
        )
    }
}

/// Frame starts never go backwards.
pub proof fn lemma_frame_start_monotonic(a: nat, b: nat, sample_rate: nat, fps: nat)
    requires
        fps > 0,
        a <= b,
    ensures
        frame_start(a, sample_rate, fps) <= frame_start(b, sample_rate, fps),
{
    assert(a * sample_rate <= b * sample_rate) by (nonlinear_arith)
        requires
            a <= b,
    ;
    vstd::arithmetic::div_mod::lemma_div_is_ordered(
        (a * sample_rate) as int,
        (b * sample_rate) as int,
        fps as int,
    );
}

/// The samples of the first `frames` frames add up to the start of the next.
pub proof fn lemma_total_samples_telescopes(frames: nat, sample_rate: nat, fps: nat)
    requires
        fps > 0,
    ensures
        total_samples(frames, sample_rate, fps) == frame_start(frames, sample_rate, fps),
    decreases frames,
{
    if frames == 0 {
        assert(0 * sample_rate == 0) by (nonlinear_arith);
    } else {
        let prev = (frames - 1) as nat;
        lemma_total_samples_telescopes(prev, sample_rate, fps);
        lemma_frame_start_monotonic(prev, frames, sample_rate, fps);
    }
}

/// Over any whole number of seconds the per-frame sample counts add up to
/// exactly that many seconds of audio, whether or not the frame rate divides
/// the sample rate.
pub proof fn lemma_whole_seconds_have_exact_samples(sample_rate: nat, fps: nat, seconds: nat)
    requires
        fps > 0,
    ensures
        total_samples(seconds * fps, sample_rate, fps) == seconds * sample_rate,
{
    lemma_total_samples_telescopes(seconds * fps, sample_rate, fps);
    let whole = (seconds * sample_rate) as int;
    assert((seconds * fps) * sample_rate == fps as int * whole) by (nonlinear_arith)
        requires
            whole == seconds * sample_rate,
    ;
    vstd::arithmetic::div_mod::lemma_div_multiples_vanish(whole, fps as int);
}

/// The number of audio samples for video frame `frame`.
pub fn samples_for_frame(frame: u32, sample_rate: u32, fps: u32) -> (r: u64)
    requires
        fps > 0,
    ensures
        r as nat == frame_samples(frame as nat, sample_rate as nat, fps as nat),
{
    let n: u64 = frame as u64;
    let sr: u64 = sample_rate as u64;
    assert(n * sr <= 0xffff_ffff * 0xffff_ffff && (n + 1) * sr <= 0x1_0000_0000 * 0xffff_ffff)
        by (nonlinear_arith)
        requires
            n <= 0xffff_ffff,
            sr <= 0xffff_ffff,
    ;
    proof {
        lemma_frame_start_monotonic(frame as nat, frame as nat + 1, sample_rate as nat, fps as nat);
    }
    let start: u64 = (n * sr) / (fps as u64);
    let end: u64 = ((n + 1) * sr) / (fps as u64);
    end - start
}

/// The audio that accompanies one video frame: its presentation time stamp
/// in samples, and its length in samples.
#[derive(Clone, Copy, Debug, PartialEq, Eq, Structural)]
pub struct AudioSlice {
    pub pts: u64,
    pub samples: u64,
}

/// What the wait for the next rendered frame brought.
#[derive(Clone, Copy, Debug, PartialEq, Eq, Structural)]
pub enum FrameReceipt {
    TimedOut,
    Closed,
    Frame { frame_number: u32 },
}

/// What the frame loop does after a wait.
#[derive(Clone, Copy, Debug, PartialEq, Eq, Structural)]
pub enum ReceiptOutcome {
    /// The wait timed out, but not often enough in a row to give up.
    KeepWaiting,
    /// The wait timed out for the last time: the export fails.
    Stalled { frame_count: u32, timeout_secs: u64 },
    /// The renderer is done. A screenshot is due if a frame was encoded.
    Complete { save_screenshot: bool },
    /// A frame arrived: report `progress` and ask whether to go on.
    Arrived { frame_number: u32, progress: u32 },
}

/// What becomes of a frame once the progress callback has answered.
#[derive(Clone, Copy, Debug, PartialEq, Eq, Structural)]
pub enum Admission {
    /// The callback asked to stop: the export fails as cancelled.
    Cancelled,
    /// Encode the frame. The first frame is also kept for the screenshot and
    /// rewinds the audio to the start; `audio` is the slice to render for it.
    Process { first_frame: bool, audio: Option<AudioSlice> },
}

/// How the handling of one frame ended.
#[derive(Clone, Copy, Debug, PartialEq, Eq, Structural)]
pub enum FrameStep {
    /// The GPU colour conversion failed.
    ConversionFailed,
    /// The encoder's channel was closed.
    EncoderClosed,
    /// The frame was handed to the encoder.
    Sent,
}

/// Whether the frame loop goes on after a frame.
#[derive(Clone, Copy, Debug, PartialEq, Eq, Structural)]
pub enum LoopVerdict {
    /// Fatal: no fallback to another conversion in the middle of a stream.
    Fail,
    /// Leave the loop without error and without a screenshot.
    StopCleanly,
    Continue,
}

/// The state of the export's frame loop between two waits.
#[derive(Clone, Copy, Debug)]
pub struct RenderTask {
    pub frame_count: u32,
    pub consecutive_timeouts: u32,
    pub audio_sample_cursor: u64,
    pub sample_rate: u32,
    pub fps: u32,
    pub has_audio: bool,
    pub holds_first_frame: bool,
}

impl RenderTask {
    /// The frame rate is positive, and the timeouts in a row are below the limit.
    pub open spec fn wf(self) -> bool {
        &&& self.fps > 0
        &&& self.consecutive_timeouts < MAX_CONSECUTIVE_TIMEOUTS
    }

    /// The seconds to wait for the next frame.
    pub open spec fn timeout_secs_spec(self) -> u64 {
        if self.frame_count == 0 {
            FIRST_FRAME_TIMEOUT_SECS
        } else {
            FRAME_TIMEOUT_SECS
        }
    }

    /// The end of the audio that belongs to frame `frame_number`.
    pub open spec fn audio_end(self, frame_number: u32) -> nat {
        frame_start(frame_number as nat + 1, self.sample_rate as nat, self.fps as nat)
    }

    /// The slice of audio to render for frame `frame_number`: from the cursor
    /// to the frame's end, if that is not empty.
    pub open spec fn audio_slice(self, frame_number: u32) -> Option<AudioSlice> {
        if self.has_audio && self.audio_end(frame_number) > self.audio_sample_cursor {
            Some(
                (AudioSlice {
                    pts: self.audio_sample_cursor,
                    samples: (self.audio_end(frame_number) - self.audio_sample_cursor) as u64,
                }),
            )
        } else {
            None
        }
    }

    /// Where the audio cursor stands once frame `frame_number` has its slice.
    pub open spec fn cursor_after(self, frame_number: u32) -> nat {
        if self.has_audio && self.audio_end(frame_number) > self.audio_sample_cursor {
            self.audio_end(frame_number)
        } else {
            self.audio_sample_cursor as nat
        }
    }

    /// The task before the first frame.
    pub fn new(sample_rate: u32, fps: u32, has_audio: bool) -> (task: Self)
        requires
            fps > 0,
        ensures
            task.wf(),
            task == (RenderTask {
                frame_count: 0,
                consecutive_timeouts: 0,
                audio_sample_cursor: 0,
                sample_rate,
                fps,
                has_audio,
                holds_first_frame: false,
            }),
    {
        RenderTask {
            frame_count: 0,
            consecutive_timeouts: 0,
            audio_sample_cursor: 0,
            sample_rate,
            fps,
            has_audio,
            holds_first_frame: false,
        }
    }

    /// The seconds to wait for the next frame: 120 for the first, 90 after.
    pub fn timeout_secs(&self) -> (secs: u64)
        ensures
            secs == self.timeout_secs_spec(),
    {
        if self.frame_count == 0 {
            FIRST_FRAME_TIMEOUT_SECS
        } else {
            FRAME_TIMEOUT_SECS
        }
    }

    /// Takes in the result of one wait for a frame.
    pub fn on_receipt(&mut self, receipt: FrameReceipt) -> (outcome: ReceiptOutcome)
        requires
            old(self).wf(),
        ensures
            final(self).wf(),
            final(self).frame_count == old(self).frame_count,
            final(self).audio_sample_cursor == old(self).audio_sample_cursor,
            final(self).sample_rate == old(self).sample_rate,
            final(self).fps == old(self).fps,
            final(self).has_audio == old(self).has_audio,
            final(self).holds_first_frame == old(self).holds_first_frame,
            match receipt {
                FrameReceipt::TimedOut => if old(self).consecutive_timeouts + 1
                    >= MAX_CONSECUTIVE_TIMEOUTS {
                    &&& outcome == (ReceiptOutcome::Stalled {
                        frame_count: old(self).frame_count,
                        timeout_secs: old(self).timeout_secs_spec(),
                    })
                    &&& final(self).consecutive_timeouts == old(self).consecutive_timeouts
                } else {
                    &&& outcome == ReceiptOutcome::KeepWaiting
                    &&& final(self).consecutive_timeouts == old(self).consecutive_timeouts + 1
                },
                FrameReceipt::Closed => {
                    &&& outcome == (ReceiptOutcome::Complete {
                        save_screenshot: old(self).holds_first_frame,
                    })
                    &&& final(self).consecutive_timeouts == old(self).consecutive_timeouts
                },
                FrameReceipt::Frame { frame_number } => {
                    &&& outcome == (ReceiptOutcome::Arrived {
                        frame_number,
                        progress: old(self).frame_count,
                    })
                    &&& final(self).consecutive_timeouts == 0
                },
            },
    {
        match receipt {
            FrameReceipt::TimedOut => {
                if self.consecutive_timeouts + 1 >= MAX_CONSECUTIVE_TIMEOUTS {
                    ReceiptOutcome::Stalled {
                        frame_count: self.frame_count,
                        timeout_secs: self.timeout_secs(),
                    }
                } else {
                    self.consecutive_timeouts = self.consecutive_timeouts + 1;
                    ReceiptOutcome::KeepWaiting
                }
            },
            FrameReceipt::Closed => ReceiptOutcome::Complete {
                save_screenshot: self.holds_first_frame,
            },
            FrameReceipt::Frame { frame_number } => {
                self.consecutive_timeouts = 0;
                ReceiptOutcome::Arrived { frame_number, progress: self.frame_count }
            },
        }
    }

    /// Decides what to do with frame `frame_number` once the progress
    /// callback has answered `keep_going`.
    pub fn accept_frame(&mut self, frame_number: u32, keep_going: bool) -> (admission: Admission)
        requires
            old(self).wf(),
        ensures
            final(self).wf(),
            final(self).frame_count == old(self).frame_count,
            final(self).consecutive_timeouts == old(self).consecutive_timeouts,
            final(self).sample_rate == old(self).sample_rate,
            final(self).fps == old(self).fps,
            final(self).has_audio == old(self).has_audio,
            final(self).audio_sample_cursor >= old(self).audio_sample_cursor,
            !keep_going ==> admission == Admission::Cancelled && *final(self) == *old(self),
            keep_going ==> {
                &&& admission == (Admission::Process {
                    first_frame: old(self).frame_count == 0,
                    audio: old(self).audio_slice(frame_number),
                })
                &&& final(self).audio_sample_cursor == old(self).cursor_after(frame_number)
                &&& final(self).holds_first_frame == (old(self).holds_first_frame || old(self).frame_count == 0)
            },
    {
        if !keep_going {
            return Admission::Cancelled;
        }
        let first_frame: bool = self.frame_count == 0;
        if first_frame {
            self.holds_first_frame = true;
        }
        let mut audio: Option<AudioSlice> = None;
        if self.has_audio {
            let n: u64 = frame_number as u64;
            let sr: u64 = self.sample_rate as u64;
            assert((n + 1) * sr <= 0x1_0000_0000 * 0xffff_ffff) by (nonlinear_arith)
                requires
                    n <= 0xffff_ffff,
                    sr <= 0xffff_ffff,
            ;
            let end: u64 = ((n + 1) * sr) / (self.fps as u64);
            if end > self.audio_sample_cursor {
                audio = Some(
                    AudioSlice { pts: self.audio_sample_cursor, samples: end - self.audio_sample_cursor },
                );
                self.audio_sample_cursor = end;
            }
        }
        Admission::Process { first_frame, audio }
    }

    /// Takes in how the handling of the admitted frame ended.
    pub fn finish_frame(&mut self, step: FrameStep) -> (verdict: LoopVerdict)
        requires
            old(self).wf(),
        ensures
            final(self).wf(),
            final(self).consecutive_timeouts == old(self).consecutive_timeouts,
            final(self).audio_sample_cursor == old(self).audio_sample_cursor,
            final(self).sample_rate == old(self).sample_rate,
            final(self).fps == old(self).fps,
            final(self).has_audio == old(self).has_audio,
            final(self).holds_first_frame == old(self).holds_first_frame,
            match step {
                FrameStep::ConversionFailed => verdict == LoopVerdict::Fail && final(self).frame_count == old(self).frame_count,
                FrameStep::EncoderClosed => verdict == LoopVerdict::StopCleanly && final(self).frame_count == old(self).frame_count,
                FrameStep::Sent => verdict == LoopVerdict::Continue && final(self).frame_count == (
                if old(self).frame_count == u32::MAX {
                    u32::MAX
                } else {
                    (old(self).frame_count + 1) as u32
                }),
            },
    {
        match step {
            FrameStep::ConversionFailed => LoopVerdict::Fail,
            FrameStep::EncoderClosed => LoopVerdict::StopCleanly,
            FrameStep::Sent => {
                if self.frame_count < u32::MAX {
                    self.frame_count = self.frame_count + 1;
                }
                LoopVerdict::Continue
            },
        }
    }
}

/// While the frames arrive in order, each is given exactly its own samples:
/// with the cursor at the start of frame `frame_number`, the slice for that
/// frame begins there and has the frame's length.
pub proof fn lemma_in_order_frames_get_their_samples(task: RenderTask, frame_number: u32)
    requires
        task.wf(),
        task.has_audio,
        task.audio_sample_cursor == frame_start(
            frame_number as nat,
            task.sample_rate as nat,
            task.fps as nat,
        ),
    ensures
        task.cursor_after(frame_number) == task.audio_end(frame_number),
        frame_samples(frame_number as nat, task.sample_rate as nat, task.fps as nat) > 0
            ==> task.audio_slice(frame_number) == Some(
            (AudioSlice {
                pts: task.audio_sample_cursor,
                samples: frame_samples(
                    frame_number as nat,
                    task.sample_rate as nat,
                    task.fps as nat,
                ) as u64,
            }),
        ),
        frame_samples(frame_number as nat, task.sample_rate as nat, task.fps as nat) == 0
            ==> task.audio_slice(frame_number) is None,
{
    lemma_frame_start_monotonic(
        frame_number as nat,
        frame_number as nat + 1,
        task.sample_rate as nat,
        task.fps as nat,
    );
}

/// The number of rows in a frame buffer of `len` bytes whose rows are
/// `stride` bytes apart; a shorter last row counts.
pub open spec fn row_count(len: nat, stride: nat) -> nat
    recommends
        stride > 0,
{
    ((len + stride - 1) / stride as int) as nat
}

/// Whether every row of the buffer holds at least `row_bytes` bytes.
pub open spec fn rows_hold(len: nat, stride: nat, row_bytes: nat) -> bool {
    &&& stride > 0
    &&& row_bytes <= stride
    &&& (len % stride == 0 || len % stride >= row_bytes)
}

/// The first `row_bytes` bytes of each row, laid end to end.
pub open spec fn packed_rows(data: Seq<u8>, stride: nat, row_bytes: nat) -> Seq<u8> {
    Seq::new(
        row_count(data.len(), stride) * row_bytes,
        |i: int| data[(i / row_bytes as int) * stride + i % row_bytes as int],
    )
}

/// The pixels of each row as red, green, blue, read from rows of four-byte
/// pixels whose first three bytes are blue, green, red.
pub open spec fn rgb_rows(data: Seq<u8>, stride: nat, width: nat) -> Seq<u8> {
    Seq::new(
        row_count(data.len(), stride) * width * 3,
        |i: int|
            data[((i / 3) / width as int) * stride + ((i / 3) % width as int) * 4 + (2 - i % 3)],
    )
}

proof fn lemma_row_count_step(len: nat, stride: nat, done: nat)
    requires
        stride > 0,
        done * stride < len,
    ensures
        done < row_count(len, stride),
        len - done * stride <= stride ==> row_count(len, stride) == done + 1,
{
    let total = (len + stride - 1) as int;
    let s = stride as int;
    vstd::arithmetic::div_mod::lemma_fundamental_div_mod(total, s);
    vstd::arithmetic::div_mod::lemma_mod_bound(total, s);
    let q = total / s;
    assert(s * q + total % s == total);
    assert(done < q) by (nonlinear_arith)
        requires
            s * q + total % s == total,
            0 <= total % s < s,
            total == len + s - 1,
            done * s < len,
            s > 0,
    ;
    if len - done * stride <= stride {
        assert(q < done + 2) by (nonlinear_arith)
            requires
                s * q + total % s == total,
                0 <= total % s < s,
                total == len + s - 1,
                len - done * s <= s,
                s > 0,
        ;
    }
}

proof fn lemma_row_count_exact(len: nat, stride: nat, done: nat)
    requires
        stride > 0,
        done * stride >= len,
        done == 0 || (done - 1) * stride < len,
    ensures
        row_count(len, stride) == done,
{
    let total = (len + stride - 1) as int;
    let s = stride as int;
    vstd::arithmetic::div_mod::lemma_fundamental_div_mod(total, s);
    vstd::arithmetic::div_mod::lemma_mod_bound(total, s);
    let q = total / s;
    assert(q == done) by (nonlinear_arith)
        requires
            s * q + total % s == total,
            0 <= total % s < s,
            total == len + s - 1,
            done * s >= len,
            done == 0 || (done - 1) * s < len,
            s > 0,
            len >= 0,
            done >= 0,
    ;
}

proof fn lemma_last_row_holds(len: nat, stride: nat, row_bytes: nat, done: nat)
    requires
        rows_hold(len, stride, row_bytes),
        done * stride < len,
    ensures
        done * stride + row_bytes <= len,
{
    let s = stride as int;
    let l = len as int;
    vstd::arithmetic::div_mod::lemma_fundamental_div_mod(l, s);
    vstd::arithmetic::div_mod::lemma_mod_bound(l, s);
    let q = l / s;
    assert(done * s + row_bytes <= l) by (nonlinear_arith)
        requires
            s * q + l % s == l,
            0 <= l % s < s,
            l % s == 0 || l % s >= row_bytes,
            row_bytes <= s,
            done * s < l,
            s > 0,
            done >= 0,
    ;
}

/// Whether every row of a frame buffer of `len` bytes holds `width` pixels
/// of four bytes.
pub fn rows_are_whole(len: usize, padded_bytes_per_row: u32, width: u32) -> (r: bool)
    ensures
        r == rows_hold(len as nat, padded_bytes_per_row as nat, width as nat * 4),
{
    let stride: u64 = padded_bytes_per_row as u64;
    let row: u64 = (width as u64) * 4;
    if stride == 0 || row > stride {
        return false;
    }
    let rest: u64 = ((len as u128) % (stride as u128)) as u64;
    rest == 0 || rest >= row
}

/// Strips the padding at the end of each row of a rendered frame: keeps the
/// first `width * 4` bytes of every `padded_bytes_per_row`.
pub fn pack_rgba_rows(data: &[u8], padded_bytes_per_row: u32, width: u32) -> (out: Vec<u8>)
    requires
        rows_hold(data@.len(), padded_bytes_per_row as nat, width as nat * 4),
    ensures
        out@ == packed_rows(data@, padded_bytes_per_row as nat, width as nat * 4),
{
    let stride: usize = padded_bytes_per_row as usize;
    let row_bytes: usize = (width as usize) * 4;
    let len: usize = data.len();
    let mut out: Vec<u8> = Vec::new();
    let mut pos: usize = 0;
    let mut done: usize = 0;
    let ghost want = packed_rows(data@, stride as nat, row_bytes as nat);
    while pos < len
        invariant
            len == data@.len(),
            stride == padded_bytes_per_row,
            row_bytes == width as nat * 4,
            rows_hold(len as nat, stride as nat, row_bytes as nat),
            want == packed_rows(data@, stride as nat, row_bytes as nat),
            pos == done * stride || (pos == len && done * stride >= len),
            done == 0 || (done - 1) * stride < len,
            pos <= len,
            out@.len() == done * row_bytes,
            forall|i: int| 0 <= i < out@.len() ==> out@[i] == #[trigger] want[i],
            out@.len() <= want.len(),
        decreases len - pos,
    {
        proof {
            assert(done < len) by (nonlinear_arith)
                requires
                    done * stride < len,
                    stride >= 1,
            ;
            lemma_row_count_step(len as nat, stride as nat, done as nat);
            lemma_last_row_holds(len as nat, stride as nat, row_bytes as nat, done as nat);
            assert((done + 1) * row_bytes == done * row_bytes + row_bytes) by (nonlinear_arith);
            assert((done + 1) * row_bytes <= row_count(len as nat, stride as nat) * row_bytes)
                by (nonlinear_arith)
                requires
                    done + 1 <= row_count(len as nat, stride as nat),
            ;
        }
        let ghost before = out@;
        let row: &[u8] = slice_subrange(data, pos, pos + row_bytes);
        out.extend_from_slice(row);
        proof {
            assert forall|i: int| 0 <= i < out@.len() implies out@[i] == #[trigger] want[i] by {
                if i >= before.len() {
                    let j = i - before.len();
                    if row_bytes > 0 {
                        lemma_fundamental_div_mod_converse(i, row_bytes as int, done as int, j);
                    }
                    assert(out@[i] == row@[j]);
                    assert(row@[j] == data@[pos + j]);
                }
            }
        }
        if len - pos <= stride {
            proof {
                assert((done + 1) * stride == done * stride + stride) by (nonlinear_arith);
            }
            pos = len;
        } else {
            proof {
                assert((done + 1) * stride == done * stride + stride) by (nonlinear_arith);
            }
            pos = pos + stride;
        }
        done = done + 1;
    }
    proof {
        lemma_row_count_exact(len as nat, stride as nat, done as nat);
        assert(out@ =~= want);
    }
    out
}

/// Turns the rows of a rendered frame into tightly packed red, green, blue
/// triples, as the screenshot encoder expects them.
pub fn bgra_rows_to_rgb(data: &[u8], padded_bytes_per_row: u32, width: u32) -> (out: Vec<u8>)
    requires
        rows_hold(data@.len(), padded_bytes_per_row as nat, width as nat * 4),
    ensures
        out@ == rgb_rows(data@, padded_bytes_per_row as nat, width as nat),
{
    let stride: usize = padded_bytes_per_row as usize;
    let row_bytes: usize = (width as usize) * 4;
    let w: usize = width as usize;
    let len: usize = data.len();
    let mut out: Vec<u8> = Vec::new();
    let mut pos: usize = 0;
    let mut done: usize = 0;
    let ghost want = rgb_rows(data@, stride as nat, w as nat);
    while pos < len
        invariant
            len == data@.len(),
            stride == padded_bytes_per_row,
            w == width,
            row_bytes == w * 4,
            rows_hold(len as nat, stride as nat, row_bytes as nat),
            want == rgb_rows(data@, stride as nat, w as nat),
            pos == done * stride || (pos == len && done * stride >= len),
            done == 0 || (done - 1) * stride < len,
            pos <= len,
            out@.len() == done * w * 3,
            forall|i: int| 0 <= i < out@.len() ==> out@[i] == #[trigger] want[i],
            out@.len() <= want.len(),
        decreases len - pos,
    {
        proof {
            assert(done < len) by (nonlinear_arith)
                requires
                    done * stride < len,
                    stride >= 1,
            ;
            lemma_row_count_step(len as nat, stride as nat, done as nat);
            lemma_last_row_holds(len as nat, stride as nat, row_bytes as nat, done as nat);
            assert((done + 1) * w * 3 == done * w * 3 + w * 3) by (nonlinear_arith);
            assert((done + 1) * w * 3 <= row_count(len as nat, stride as nat) * w * 3)
                by (nonlinear_arith)
                requires
                    done + 1 <= row_count(len as nat, stride as nat),
            ;
        }
        let ghost row_base = out@.len();
        let mut col: usize = 0;
        while col < w
            invariant
                len == data@.len(),
                w == width,
                row_bytes == w * 4,
                pos == done * stride,
                pos + row_bytes <= len,
                col <= w,
                row_base == done * w * 3,
                want == rgb_rows(data@, stride as nat, w as nat),
                row_base + w * 3 <= want.len(),
                out@.len() == row_base + col * 3,
                forall|i: int| 0 <= i < out@.len() ==> out@[i] == #[trigger] want[i],
            decreases w - col,
        {
            let at: usize = pos + col * 4;
            let ghost before = out@;
            out.push(data[at + 2]);
            out.push(data[at + 1]);
            out.push(data[at]);
            proof {
                assert forall|i: int| 0 <= i < out@.len() implies out@[i] == #[trigger] want[i] by {
                    if i >= before.len() {
                        let c = i - before.len();
                        let px = done * w + col;
                        assert(i == 3 * px + c) by (nonlinear_arith)
                            requires
                                i == done * w * 3 + col * 3 + c,
                                px == done * w + col,
                        ;
                        lemma_fundamental_div_mod_converse(i, 3, px as int, c);
                        lemma_fundamental_div_mod_converse(px as int, w as int, done as int, col as int);
                    }
                }
            }
            col = col + 1;
        }
        if len - pos <= stride {
            proof {
                assert((done + 1) * stride == done * stride + stride) by (nonlinear_arith);
            }
            pos = len;
        } else {
            proof {
                assert((done + 1) * stride == done * stride + stride) by (nonlinear_arith);
            }
            pos = pos + stride;
        }
        done = done + 1;
    }
    proof {
        lemma_row_count_exact(len as nat, stride as nat, done as nat);
        assert(out@ =~= want);
    }
    out
}

/// Lays the chroma plane behind the luma plane, as one NV12 buffer, and
/// says where the chroma begins.
pub fn join_planes(y_plane: Vec<u8>, uv_plane: Vec<u8>) -> (r: (Vec<u8>, usize))
    ensures
        r.0@ == y_plane@ + uv_plane@,
        r.1 == y_plane@.len(),
{
    let y_plane_size: usize = y_plane.len();
    let mut nv12_data: Vec<u8> = y_plane;
    let mut rest: Vec<u8> = uv_plane;
    nv12_data.append(&mut rest);
    (nv12_data, y_plane_size)
}

} // verus!
