//! Output sizing for rasterization: the shorter side of the document is
//! scaled to the requested size, the longer one in proportion.
use crate::error::ImageError;
use vstd::prelude::*;

verus! {

/// Pixel size of a rasterized image and the zoom that produces it, the zoom
/// being `zoom_num / zoom_den`.
#[derive(Debug, Clone, Copy, PartialEq, Eq)]
pub struct RasterSize {
    pub width: u32,
    pub height: u32,
    pub zoom_num: u32,
    pub zoom_den: u32,
}

/// `a / b` rounded up.
pub open spec fn ceil_div(a: int, b: int) -> int {
    (a + b - 1) / b
}

/// The longer output side: `long * target / short`, rounded up.
pub open spec fn scaled_side(long: u32, short: u32, target: u32) -> int {
    ceil_div(long * target, short as int)
}

pub open spec fn short_side(width: u32, height: u32) -> u32 {
    if width <= height {
        width
    } else {
        height
    }
}

pub open spec fn long_side(width: u32, height: u32) -> u32 {
    if width <= height {
        height
    } else {
        width
    }
}

/// Sizing can go ahead: both intrinsic sides and the target are positive and
/// the scaled longer side fits in a `u32`.
pub open spec fn raster_size_ok(width: u32, height: u32, target: u32) -> bool {
    width > 0 && height > 0 && target > 0 && scaled_side(
        long_side(width, height),
        short_side(width, height),
        target,
    ) <= u32::MAX
}

/// Sizes the raster output of a document of intrinsic size `width` by
/// `height` so that its shorter side is `target` pixels. The zoom is
/// `target / min(width, height)`; the longer side is rounded up.
pub fn raster_size(width: u32, height: u32, target: u32) -> (r: Result<RasterSize, ImageError>)
    ensures
        r is Ok <==> raster_size_ok(width, height, target),
        r is Err ==> r == Err::<RasterSize, ImageError>(ImageError::Render),
        r matches Ok(z) ==> z.zoom_num == target && z.zoom_den == short_side(width, height) && (
        width <= height ==> z.width == target && z.height == scaled_side(height, width, target))
            && (width > height ==> z.height == target && z.width == scaled_side(
            width,
            height,
            target,
        )),
{
    if width == 0 || height == 0 || target == 0 {
        return Err(ImageError::Render);
    }
    let (short, long) = if width <= height {
        (width, height)
    } else {
        (height, width)
    };
    assert((long as int) * (target as int) <= 0xffff_ffff * 0xffff_ffff) by (nonlinear_arith)
        requires
            long <= 0xffff_ffff,
            target <= 0xffff_ffff,
    ;
    let product: u64 = (long as u64) * (target as u64);
    let scaled: u64 = (product + (short as u64) - 1) / (short as u64);
    if scaled > u32::MAX as u64 {
        return Err(ImageError::Render);
    }
    let other: u32 = scaled as u32;
    if width <= height {
        Ok(RasterSize { width: target, height: other, zoom_num: target, zoom_den: short })
    } else {
        Ok(RasterSize { width: other, height: target, zoom_num: target, zoom_den: short })
    }
}

} // verus!
