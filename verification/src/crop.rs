//! Crop alignment for the recording pipeline.
//!
//! Encoders want even frame dimensions; a selected region is clamped to the
//! captured frame and widened (or shifted inward at the far edge) to an even
//! size.
use vstd::prelude::*;

verus! {

/// Region to crop from a captured frame.
#[derive(Clone, Copy, Debug, PartialEq, Eq, Structural)]
pub struct CropRegion {
    /// Left offset in pixels
    pub left: u32,
    /// Top offset in pixels
    pub top: u32,
    /// Width of region
    pub width: u32,
    /// Height of region
    pub height: u32,
}

/// One axis of an aligned crop: `(start, length)` for a requested offset
/// and length inside a captured length `cap`. The offset is clamped into
/// the frame, the length to at least one pixel and to the frame's end; an
/// odd length grows by one pixel, or shifts one pixel inward at the far
/// edge, or shrinks by one pixel when it spans the whole frame.
pub open spec fn aligned_axis(offset: int, length: int, cap: int) -> (int, int) {
    if cap == 0 {
        (0, 0)
    } else {
        let start = if offset <= cap - 1 { offset } else { cap - 1 };
        let len1 = if length >= 1 { length } else { 1 };
        let end = if start + len1 <= cap { start + len1 } else { cap };
        if cap > 1 && (end - start) % 2 == 1 {
            if end < cap {
                (start, end + 1 - start)
            } else if start > 0 {
                (start - 1, end - start + 1)
            } else {
                (start, end - 1 - start)
            }
        } else {
            (start, end - start)
        }
    }
}

/// Align one crop axis (see [`aligned_axis`]).
fn align_crop_axis(offset: u32, length: u32, capture_length: u32) -> (r: (u32, u32))
    ensures
        r == (aligned_axis(offset as int, length as int, capture_length as int).0 as u32,
            aligned_axis(offset as int, length as int, capture_length as int).1 as u32),
        r.0 + r.1 <= capture_length,
        capture_length > 0 ==> r.1 >= 1,
        capture_length > 1 ==> r.1 % 2 == 0,
{
    if capture_length == 0 {
        return (0, 0);
    }
    let mut start = if offset <= capture_length - 1 { offset } else { capture_length - 1 };
    let len1 = if length >= 1 { length } else { 1 };
    let sum = if start as u64 + len1 as u64 > u32::MAX as u64 { u32::MAX } else { start + len1 };
    let mut end = if sum <= capture_length { sum } else { capture_length };
    if end <= start {
        end = if start + 1 <= capture_length { start + 1 } else { capture_length };
    }
    if capture_length > 1 && (end - start) % 2 == 1 {
        if end < capture_length {
            end = end + 1;
        } else if start > 0 {
            start = start - 1;
        } else if end - start > 1 {
            end = end - 1;
        }
    }
    (start, end - start)
}

/// The aligned crop of a frame: `(left, top, width, height, right, bottom)`.
pub open spec fn aligned_crop(region: CropRegion, capture_width: int, capture_height: int) -> (
    int,
    int,
    int,
    int,
    int,
    int,
) {
    let (l, w) = aligned_axis(region.left as int, region.width as int, capture_width);
    let (t, h) = aligned_axis(region.top as int, region.height as int, capture_height);
    (l, t, w, h, capture_width - l - w, capture_height - t - h)
}

/// Calculate clamped and aligned crop parameters for video encoding.
/// Returns `(left, top, width, height, right, bottom)` where right/bottom are
/// the amounts to crop from those edges.
pub fn calculate_aligned_crop(region: &CropRegion, capture_width: u32, capture_height: u32) -> (r: (
    u32,
    u32,
    u32,
    u32,
    u32,
    u32,
))
    ensures
        r.0 == aligned_crop(*region, capture_width as int, capture_height as int).0,
        r.1 == aligned_crop(*region, capture_width as int, capture_height as int).1,
        r.2 == aligned_crop(*region, capture_width as int, capture_height as int).2,
        r.3 == aligned_crop(*region, capture_width as int, capture_height as int).3,
        r.4 == aligned_crop(*region, capture_width as int, capture_height as int).4,
        r.5 == aligned_crop(*region, capture_width as int, capture_height as int).5,
        r.0 + r.2 + r.4 == capture_width,
        r.1 + r.3 + r.5 == capture_height,
        capture_width > 1 ==> r.2 % 2 == 0 && r.2 >= 2,
        capture_height > 1 ==> r.3 % 2 == 0 && r.3 >= 2,
{
    let (aligned_left, aligned_width) = align_crop_axis(region.left, region.width, capture_width);
    let (aligned_top, aligned_height) = align_crop_axis(region.top, region.height, capture_height);
    let right = capture_width - aligned_left - aligned_width;
    let bottom = capture_height - aligned_top - aligned_height;
    (aligned_left, aligned_top, aligned_width, aligned_height, right, bottom)
}

/// The output size of an aligned crop.
pub fn aligned_crop_output_size(region: &CropRegion, capture_width: u32, capture_height: u32) -> (r: (
    u32,
    u32,
))
    ensures
        r.0 == aligned_crop(*region, capture_width as int, capture_height as int).2,
        r.1 == aligned_crop(*region, capture_width as int, capture_height as int).3,
{
    let (_, _, width, height, _, _) = calculate_aligned_crop(region, capture_width, capture_height);
    (width, height)
}

/// The size of the frames the pipeline encodes: the aligned crop when there
/// is one, the captured size otherwise.
pub fn pipeline_output_size(crop: Option<CropRegion>, capture_width: u32, capture_height: u32) -> (r: (
    u32,
    u32,
))
    ensures
        crop is None ==> r == (capture_width, capture_height),
        crop matches Some(region) ==> r.0 == aligned_crop(
            region,
            capture_width as int,
            capture_height as int,
        ).2 && r.1 == aligned_crop(region, capture_width as int, capture_height as int).3,
{
    match crop {
        Some(region) => aligned_crop_output_size(&region, capture_width, capture_height),
        None => (capture_width, capture_height),
    }
}

/// Law: an aligned crop never leaves the captured frame, covers at least
/// one pixel per axis of a non-empty frame, and has even sides whenever
/// the frame is wider (taller) than one pixel.
pub proof fn law_aligned_crop_fits(region: CropRegion, capture_width: int, capture_height: int)
    requires
        0 <= capture_width <= u32::MAX,
        0 <= capture_height <= u32::MAX,
    ensures
        ({
            let (l, t, w, h, r, b) = aligned_crop(region, capture_width, capture_height);
            &&& 0 <= l && 0 <= t && 0 <= r && 0 <= b
            &&& l + w + r == capture_width
            &&& t + h + b == capture_height
            &&& capture_width > 0 ==> w >= 1
            &&& capture_height > 0 ==> h >= 1
            &&& capture_width > 1 ==> w % 2 == 0
            &&& capture_height > 1 ==> h % 2 == 0
        }),
{
}

/// Law: a region that already lies inside the frame with even sides is
/// kept exactly.
pub proof fn law_aligned_crop_keeps_even_region(region: CropRegion, capture_width: int, capture_height: int)
    requires
        region.width >= 2 && region.width % 2 == 0,
        region.height >= 2 && region.height % 2 == 0,
        region.left + region.width <= capture_width,
        region.top + region.height <= capture_height,
    ensures
        ({
            let (l, t, w, h, r, b) = aligned_crop(region, capture_width, capture_height);
            l == region.left && t == region.top && w == region.width && h == region.height
        }),
{
}

/// Law: in a non-empty frame, a requested span that lies inside the frame
/// without reaching its far edge keeps its start, and its length is rounded
/// up to even (an odd length grows by one pixel). A span that reaches the
/// far edge with an odd length, and does not start at the frame's start,
/// moves one pixel inward and grows by one pixel, keeping its far end.
pub proof fn law_aligned_axis_grows_odd_spans(offset: int, length: int, cap: int)
    requires
        0 <= offset,
        1 <= length,
        cap > 0,
    ensures
        offset + length < cap ==> aligned_axis(offset, length, cap) == (offset, length + length % 2),
        (offset + length == cap && offset > 0 && length % 2 == 1) ==> aligned_axis(offset, length, cap)
            == (offset - 1, length + 1),
{
}

/// Law: the aligned crop of a region that lies inside the frame without
/// reaching its right (bottom) edge keeps its left (top) offset, and its
/// width (height) is the requested one rounded up to even.
pub proof fn law_aligned_crop_keeps_inner_region(region: CropRegion, capture_width: int, capture_height: int)
    requires
        region.width >= 1,
        region.height >= 1,
        region.left + region.width < capture_width,
        region.top + region.height < capture_height,
    ensures
        ({
            let (l, t, w, h, r, b) = aligned_crop(region, capture_width, capture_height);
            &&& l == region.left && w == region.width + region.width % 2
            &&& t == region.top && h == region.height + region.height % 2
        }),
{
    law_aligned_axis_grows_odd_spans(region.left as int, region.width as int, capture_width);
    law_aligned_axis_grows_odd_spans(region.top as int, region.height as int, capture_height);
}

} // verus!
