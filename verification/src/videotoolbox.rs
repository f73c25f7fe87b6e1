//! Hardware pixel conversion: the pixel formats that the platform's
//! converter takes, and the copying of planes between buffers whose rows
//! are padded differently.

use vstd::prelude::*;
use vstd::arithmetic::div_mod::lemma_fundamental_div_mod_converse;
use vstd::slice::slice_subrange;

verus! {

pub const K_CV_PIXEL_FORMAT_TYPE_422_YP_CB_YP_CR8: u32 = 0x79757679;

pub const K_CV_PIXEL_FORMAT_TYPE_420_YP_CB_CR8_BI_PLANAR_VIDEO_RANGE: u32 = 0x34323076;

pub const K_CV_PIXEL_FORMAT_TYPE_2VUY: u32 = 0x32767579;

pub const K_CV_PIXEL_FORMAT_TYPE_32_BGRA: u32 = 0x42475241;

pub const K_CV_PIXEL_FORMAT_TYPE_32_ARGB: u32 = 0x00000020;

pub const K_CV_PIXEL_FORMAT_TYPE_32_RGBA: u32 = 0x52474241;

/// A pixel format of a video frame.
#[derive(Clone, Copy, Debug, PartialEq, Eq, Structural)]
pub enum Pixel {
    YUYV422,
    UYVY422,
    NV12,
    BGRA,
    ARGB,
    RGBA,
    /// Any format that the converter does not take as input or output.
    Other,
}

/// The platform's code for a pixel format that the converter takes.
pub open spec fn cv_format_of(pixel: Pixel) -> Option<u32> {
    match pixel {
        Pixel::YUYV422 => Some(K_CV_PIXEL_FORMAT_TYPE_422_YP_CB_YP_CR8),
        Pixel::UYVY422 => Some(K_CV_PIXEL_FORMAT_TYPE_2VUY),
        Pixel::NV12 => Some(K_CV_PIXEL_FORMAT_TYPE_420_YP_CB_CR8_BI_PLANAR_VIDEO_RANGE),
        Pixel::BGRA => Some(K_CV_PIXEL_FORMAT_TYPE_32_BGRA),
        Pixel::ARGB => Some(K_CV_PIXEL_FORMAT_TYPE_32_ARGB),
        _ => None,
    }
}

/// The platform's code for `pixel`, if the converter takes the format.
pub fn pixel_to_cv_format(pixel: Pixel) -> (code: Option<u32>)
    ensures
        code == cv_format_of(pixel),
{
    match pixel {
        Pixel::YUYV422 => Some(K_CV_PIXEL_FORMAT_TYPE_422_YP_CB_YP_CR8),
        Pixel::UYVY422 => Some(K_CV_PIXEL_FORMAT_TYPE_2VUY),
        Pixel::NV12 => Some(K_CV_PIXEL_FORMAT_TYPE_420_YP_CB_CR8_BI_PLANAR_VIDEO_RANGE),
        Pixel::BGRA => Some(K_CV_PIXEL_FORMAT_TYPE_32_BGRA),
        Pixel::ARGB => Some(K_CV_PIXEL_FORMAT_TYPE_32_ARGB),
        _ => None,
    }
}

/// The formats of a conversion and their codes.
#[derive(Clone, Copy, Debug, PartialEq, Eq, Structural)]
pub struct ConversionFormats {
    pub input_cv_format: u32,
    pub output_cv_format: u32,
}

/// Looks up the codes of a conversion; `None` unless both formats are
/// taken.
pub fn conversion_formats(input: Pixel, output: Pixel) -> (formats: Option<ConversionFormats>)
    ensures
        formats == (match (cv_format_of(input), cv_format_of(output)) {
            (Some(input_cv_format), Some(output_cv_format)) => Some(
                (ConversionFormats { input_cv_format, output_cv_format }),
            ),
            _ => None,
        }),
{
    match (pixel_to_cv_format(input), pixel_to_cv_format(output)) {
        (Some(input_cv_format), Some(output_cv_format)) => Some(
            ConversionFormats { input_cv_format, output_cv_format },
        ),
        _ => None,
    }
}

/// Whether a buffer of `len` bytes holds `height` rows that begin `stride`
/// bytes apart and are `width` bytes long.
pub open spec fn holds_rows(len: nat, stride: nat, width: nat, height: nat) -> bool {
    height == 0 || (height - 1) * stride + width <= len
}

/// Whether a buffer of `len` bytes holds `height` rows of `width` bytes
/// that begin `stride` bytes apart.
pub fn plane_fits(len: usize, stride: usize, width: usize, height: usize) -> (r: bool)
    ensures
        r == holds_rows(len as nat, stride as nat, width as nat, height as nat),
{
    if height == 0 {
        return true;
    }
    let rows: u128 = (height - 1) as u128;
    assert(rows * stride <= 0xffff_ffff_ffff_ffff * 0xffff_ffff_ffff_ffff) by (nonlinear_arith)
        requires
            rows <= 0xffff_ffff_ffff_ffff,
            stride <= 0xffff_ffff_ffff_ffff,
    ;
    rows * (stride as u128) + (width as u128) <= len as u128
}

/// The first `width` bytes of each of `height` rows, laid end to end.
pub open spec fn plane_rows(src: Seq<u8>, stride: nat, width: nat, height: nat) -> Seq<u8> {
    Seq::new(height * width, |i: int| src[(i / width as int) * stride + i % width as int])
}

/// Reads a plane out of a buffer with padded rows.
pub fn extract_plane(src: &[u8], stride: usize, width: usize, height: usize) -> (plane: Vec<u8>)
    requires
        holds_rows(src@.len(), stride as nat, width as nat, height as nat),
    ensures
        plane@ == plane_rows(src@, stride as nat, width as nat, height as nat),
{
    let mut plane: Vec<u8> = Vec::new();
    let ghost want = plane_rows(src@, stride as nat, width as nat, height as nat);
    let len: usize = src.len();
    let mut row: usize = 0;
    while row < height
        invariant
            row <= height,
            len == src@.len(),
            holds_rows(src@.len(), stride as nat, width as nat, height as nat),
            want == plane_rows(src@, stride as nat, width as nat, height as nat),
            plane@.len() == row * width,
            forall|i: int| 0 <= i < plane@.len() ==> plane@[i] == #[trigger] want[i],
        decreases height - row,
    {
        proof {
            assert(0 <= row * stride && row * stride + width <= (height - 1) * stride + width)
                by (nonlinear_arith)
                requires
                    0 <= row <= height - 1,
                    stride >= 0,
            ;
            assert((row + 1) * width == row * width + width) by (nonlinear_arith);
            assert((row + 1) * width <= height * width) by (nonlinear_arith)
                requires
                    row + 1 <= height,
                    width >= 0,
            ;
        }
        let start: usize = row * stride;
        let ghost before = plane@;
        let bytes: &[u8] = slice_subrange(src, start, start + width);
        plane.extend_from_slice(bytes);
        proof {
            assert forall|i: int| 0 <= i < plane@.len() implies plane@[i] == #[trigger] want[i] by {
                if i >= before.len() {
                    let j = i - before.len();
                    if width > 0 {
                        lemma_fundamental_div_mod_converse(i, width as int, row as int, j);
                    }
                    assert(plane@[i] == bytes@[j]);
                    assert(bytes@[j] == src@[start + j]);
                }
            }
        }
        row = row + 1;
    }
    assert(plane@ =~= want);
    plane
}

/// The bytes of each row that go over when a plane is copied between
/// buffers with the strides `src_stride` and `dst_stride`.
pub open spec fn copied_per_row(src_stride: nat, dst_stride: nat) -> nat {
    if src_stride <= dst_stride {
        src_stride
    } else {
        dst_stride
    }
}

/// Whether byte `i` of the target lies in the part of a row that a copy of
/// `height` rows writes.
pub open spec fn is_copied(i: int, src_stride: nat, dst_stride: nat, height: nat) -> bool {
    &&& dst_stride > 0
    &&& 0 <= i
    &&& (i / (dst_stride as int)) < height
    &&& (i % (dst_stride as int)) < copied_per_row(src_stride, dst_stride)
}

/// Copies `height` rows of a plane into a buffer whose rows are padded
/// differently: of each row as many bytes as both strides hold.
pub fn copy_plane(src: &[u8], src_stride: usize, dst: &mut Vec<u8>, dst_stride: usize, height: usize)
    requires
        holds_rows(
            src@.len(),
            src_stride as nat,
            copied_per_row(src_stride as nat, dst_stride as nat),
            height as nat,
        ),
        holds_rows(
            old(dst)@.len(),
            dst_stride as nat,
            copied_per_row(src_stride as nat, dst_stride as nat),
            height as nat,
        ),
    ensures
        final(dst)@.len() == old(dst)@.len(),
        forall|i: int|
            0 <= i < final(dst)@.len() ==> #[trigger] final(dst)@[i] == (if is_copied(
                i,
                src_stride as nat,
                dst_stride as nat,
                height as nat,
            ) {
                src@[(i / dst_stride as int) * src_stride + i % dst_stride as int]
            } else {
                old(dst)@[i]
            }),
{
    let copy_len: usize = if src_stride <= dst_stride {
        src_stride
    } else {
        dst_stride
    };
    let src_len: usize = src.len();
    let dst_len: usize = dst.len();
    let mut row: usize = 0;
    while row < height
        invariant
            row <= height,
            src_len == src@.len(),
            dst_len == dst@.len(),
            copy_len == copied_per_row(src_stride as nat, dst_stride as nat),
            holds_rows(src@.len(), src_stride as nat, copy_len as nat, height as nat),
            holds_rows(dst@.len(), dst_stride as nat, copy_len as nat, height as nat),
            dst@.len() == old(dst)@.len(),
            forall|i: int|
                0 <= i < dst@.len() ==> #[trigger] dst@[i] == (if is_copied(
                    i,
                    src_stride as nat,
                    dst_stride as nat,
                    row as nat,
                ) {
                    src@[(i / dst_stride as int) * src_stride + i % dst_stride as int]
                } else {
                    old(dst)@[i]
                }),
        decreases height - row,
    {
        proof {
            assert(0 <= row * src_stride && row * src_stride + copy_len <= (height - 1)
                * src_stride + copy_len) by (nonlinear_arith)
                requires
                    0 <= row <= height - 1,
                    src_stride >= 0,
            ;
            assert(0 <= row * dst_stride && row * dst_stride + copy_len <= (height - 1)
                * dst_stride + copy_len) by (nonlinear_arith)
                requires
                    0 <= row <= height - 1,
                    dst_stride >= 0,
            ;
        }
        let from: usize = row * src_stride;
        let to: usize = row * dst_stride;
        let mut j: usize = 0;
        while j < copy_len
            invariant
                j <= copy_len,
                row < height,
                src_len == src@.len(),
                dst_len == dst@.len(),
                copy_len == copied_per_row(src_stride as nat, dst_stride as nat),
                from == row * src_stride,
                to == row * dst_stride,
                from + copy_len <= src@.len(),
                to + copy_len <= dst@.len(),
                dst@.len() == old(dst)@.len(),
                forall|i: int|
                    0 <= i < dst@.len() ==> #[trigger] dst@[i] == (if is_copied(
                        i,
                        src_stride as nat,
                        dst_stride as nat,
                        row as nat,
                    ) || (to <= i < to + j) {
                        src@[(i / dst_stride as int) * src_stride + i % dst_stride as int]
                    } else {
                        old(dst)@[i]
                    }),
            decreases copy_len - j,
        {
            let byte: u8 = src[from + j];
            dst[to + j] = byte;
            proof {
                lemma_fundamental_div_mod_converse(
                    (to + j) as int,
                    dst_stride as int,
                    row as int,
                    j as int,
                );
            }
            j = j + 1;
        }
        proof {
            assert forall|i: int| 0 <= i < dst@.len() implies #[trigger] dst@[i] == (if is_copied(
                i,
                src_stride as nat,
                dst_stride as nat,
                (row + 1) as nat,
            ) {
                src@[(i / dst_stride as int) * src_stride + i % dst_stride as int]
            } else {
                old(dst)@[i]
            }) by {
                if dst_stride > 0 {
                    vstd::arithmetic::div_mod::lemma_fundamental_div_mod(i, dst_stride as int);
                    vstd::arithmetic::div_mod::lemma_mod_bound(i, dst_stride as int);
                    let q = i / dst_stride as int;
                    let r = i % dst_stride as int;
                    if to <= i < to + copy_len {
                        lemma_fundamental_div_mod_converse(
                            i,
                            dst_stride as int,
                            row as int,
                            i - to,
                        );
                    }
                    if q == row && r < copy_len {
                        assert(i == dst_stride * row + r);
                        assert(dst_stride * row == row * dst_stride) by (nonlinear_arith);
                    }
                }
            }
        }
        row = row + 1;
    }
}

} // verus!
