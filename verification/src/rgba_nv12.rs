//! RGBA to NV12 conversion: the checks on a frame before it goes to the
//! GPU, the sizes of the planes and buffers, and the trimming of what comes
//! back.

use vstd::prelude::*;

verus! {

/// The side of the square of pixels that one GPU workgroup converts.
pub const WORKGROUP_SIDE: u32 = 8;

/// Why a frame is not taken for conversion.
#[derive(Clone, Copy, Debug, PartialEq, Eq, Structural)]
pub enum ConvertError {
    OddWidth { width: u32 },
    OddHeight { height: u32 },
    BufferSizeMismatch { expected: u128, actual: usize },
}

/// The sizes that one conversion works with.
#[derive(Clone, Copy, Debug, PartialEq, Eq, Structural)]
pub struct ConversionPlan {
    /// Bytes of luma: one per pixel.
    pub y_plane_size: u64,
    /// Bytes of interleaved chroma: one pair per square of four pixels.
    pub uv_plane_size: u64,
    /// The plane sizes rounded up to whole words of four bytes.
    pub y_buffer_size: u64,
    pub uv_buffer_size: u64,
    /// Workgroups to dispatch along each axis.
    pub workgroups_x: u32,
    pub workgroups_y: u32,
}

/// `n` rounded up to a multiple of four.
pub open spec fn word_aligned(n: int) -> int {
    (n + 3) / 4 * 4
}

/// `n / d` rounded up.
pub open spec fn div_ceil(n: int, d: int) -> int
    recommends
        d > 0,
{
    (n + d - 1) / d
}

/// The plan for a frame of `width` by `height` pixels.
pub open spec fn plan_for(width: u32, height: u32) -> ConversionPlan {
    let pixels = width as int * height as int;
    ConversionPlan {
        y_plane_size: pixels as u64,
        uv_plane_size: (pixels / 2) as u64,
        y_buffer_size: word_aligned(pixels) as u64,
        uv_buffer_size: word_aligned(pixels / 2) as u64,
        workgroups_x: div_ceil(width as int, WORKGROUP_SIDE as int) as u32,
        workgroups_y: div_ceil(height as int, WORKGROUP_SIDE as int) as u32,
    }
}

/// What the checks on a frame of `rgba_len` bytes give: the width must be
/// even, then the height, then the buffer must hold four bytes per pixel.
pub open spec fn checked_plan(rgba_len: usize, width: u32, height: u32) -> Result<
    ConversionPlan,
    ConvertError,
> {
    if width % 2 != 0 {
        Err(ConvertError::OddWidth { width })
    } else if height % 2 != 0 {
        Err(ConvertError::OddHeight { height })
    } else if rgba_len != width as int * height as int * 4 {
        Err(
            ConvertError::BufferSizeMismatch {
                expected: (width as int * height as int * 4) as u128,
                actual: rgba_len,
            },
        )
    } else {
        Ok(plan_for(width, height))
    }
}

/// Checks a frame and lays out its conversion.
pub fn plan_conversion(rgba_len: usize, width: u32, height: u32) -> (r: Result<
    ConversionPlan,
    ConvertError,
>)
    ensures
        r == checked_plan(rgba_len, width, height),
{
    if width % 2 != 0 {
        return Err(ConvertError::OddWidth { width });
    }
    if height % 2 != 0 {
        return Err(ConvertError::OddHeight { height });
    }
    let w: u64 = width as u64;
    let h: u64 = height as u64;
    assert(w * h <= 0xffff_ffff * 0xffff_ffff) by (nonlinear_arith)
        requires
            w <= 0xffff_ffff,
            h <= 0xffff_ffff,
    ;
    let pixels: u64 = w * h;
    let expected: u128 = (pixels as u128) * 4;
    if rgba_len as u128 != expected {
        return Err(ConvertError::BufferSizeMismatch { expected, actual: rgba_len });
    }
    let half: u64 = pixels / 2;
    assert((width as int + 7) / 8 <= u32::MAX && (height as int + 7) / 8 <= u32::MAX);
    Ok(
        ConversionPlan {
            y_plane_size: pixels,
            uv_plane_size: half,
            y_buffer_size: (pixels + 3) / 4 * 4,
            uv_buffer_size: (half + 3) / 4 * 4,
            workgroups_x: ((w + 7) / 8) as u32,
            workgroups_y: ((h + 7) / 8) as u32,
        },
    )
}

/// Cuts the buffers read back from the GPU down to the planes: the padding
/// up to a whole word goes.
pub fn trim_planes(y_data: Vec<u8>, uv_data: Vec<u8>, plan: &ConversionPlan) -> (planes: (
    Vec<u8>,
    Vec<u8>,
))
    ensures
        planes.0@ == (if y_data@.len() > plan.y_plane_size {
            y_data@.subrange(0, plan.y_plane_size as int)
        } else {
            y_data@
        }),
        planes.1@ == (if uv_data@.len() > plan.uv_plane_size {
            uv_data@.subrange(0, plan.uv_plane_size as int)
        } else {
            uv_data@
        }),
{
    let mut y_plane: Vec<u8> = y_data;
    let mut uv_plane: Vec<u8> = uv_data;
    if (y_plane.len() as u64) > plan.y_plane_size {
        y_plane.truncate(plan.y_plane_size as usize);
    }
    if (uv_plane.len() as u64) > plan.uv_plane_size {
        uv_plane.truncate(plan.uv_plane_size as usize);
    }
    (y_plane, uv_plane)
}

/// Why a conversion failed: the frame was rejected, or the GPU pass failed.
#[derive(Debug)]
pub enum ConversionFailure<E> {
    Rejected(ConvertError),
    Poll(E),
}

/// A plane cut down to at most `size` bytes.
pub open spec fn trimmed(data: Seq<u8>, size: u64) -> Seq<u8> {
    if data.len() > size {
        data.subrange(0, size as int)
    } else {
        data
    }
}

/// A converter from RGBA frames to NV12 planes. `pass` is the compute pass
/// of the GPU: it takes a frame and its plan and gives the two buffers
/// that it read back.
pub struct RGBAToNV12<P> {
    pub pass: P,
}

impl<P> RGBAToNV12<P> {
    /// A converter over the compute pass `pass`.
    pub fn new(pass: P) -> (converter: Self)
        ensures
            converter.pass == pass,
    {
        RGBAToNV12 { pass }
    }

    /// Converts one frame to its luma and chroma planes. A frame that the
    /// checks reject does not reach the GPU. What the pass reads back is
    /// cut down to the planes.
    pub fn convert<E>(&self, rgba_data: &[u8], width: u32, height: u32) -> (r: Result<
        (Vec<u8>, Vec<u8>),
        ConversionFailure<E>,
    >) where P: Fn(&[u8], u32, u32, ConversionPlan) -> Result<(Vec<u8>, Vec<u8>), E>
        requires
            forall|data: &[u8], w: u32, h: u32, plan: ConversionPlan|
                self.pass.requires((data, w, h, plan)),
        ensures
            match checked_plan(rgba_data@.len() as usize, width, height) {
                Err(rejected) => r matches Err(ConversionFailure::Rejected(e)) && e == rejected,
                Ok(plan) => exists|out: Result<(Vec<u8>, Vec<u8>), E>|
                    #[trigger] self.pass.ensures((rgba_data, width, height, plan), out) && (
                    match out {
                        Ok((y_data, uv_data)) => r matches Ok((y_plane, uv_plane)) && y_plane@
                            == trimmed(y_data@, plan.y_plane_size) && uv_plane@ == trimmed(
                            uv_data@,
                            plan.uv_plane_size,
                        ),
                        Err(failure) => r matches Err(ConversionFailure::Poll(e)) && e == failure,
                    }),
            },
    {
        let plan = match plan_conversion(rgba_data.len(), width, height) {
            Ok(plan) => plan,
            Err(rejected) => {
                return Err(ConversionFailure::Rejected(rejected));
            },
        };
        let out = (self.pass)(rgba_data, width, height, plan);
        let ghost made = out;
        assert(self.pass.ensures((rgba_data, width, height, plan), made));
        match out {
            Ok((y_data, uv_data)) => Ok(trim_planes(y_data, uv_data, &plan)),
            Err(failure) => Err(ConversionFailure::Poll(failure)),
        }
    }
}

} // verus!
