//! Integer rectangles, transforms held as raw bit patterns, and the render
//! envelope.

use crate::buffer::PixelBuffer;
use vstd::prelude::*;

verus! {

/// An affine transform `[sx kx tx; ky sy ty]`, each component held as the
/// raw bit pattern of its 32-bit float. Two transforms are the same exactly
/// when their bit patterns are; `-0.0` and `+0.0` differ.
#[derive(Debug, Clone, Copy, PartialEq, Eq, Structural)]
pub struct Transform {
    pub sx: u32,
    pub ky: u32,
    pub kx: u32,
    pub sy: u32,
    pub tx: u32,
    pub ty: u32,
}

/// Bit pattern of the float `1.0`.
pub const ONE_BITS: u32 = 0x3f80_0000;

impl Transform {
    /// The identity transform.
    pub fn identity() -> (r: Transform)
        ensures
            r == (Transform { sx: ONE_BITS, ky: 0, kx: 0, sy: ONE_BITS, tx: 0, ty: 0 }),
    {
        Transform { sx: ONE_BITS, ky: 0, kx: 0, sy: ONE_BITS, tx: 0, ty: 0 }
    }
}

/// A rectangle on the pixel grid with positive size whose right and bottom
/// edges fit an `i32`.
#[derive(Debug, Clone, Copy, PartialEq, Eq, Structural)]
pub struct IntRect {
    pub x: i32,
    pub y: i32,
    pub width: u32,
    pub height: u32,
}

/// Whether `x, y, w, h` make a valid `IntRect`.
pub open spec fn valid_rect(x: int, y: int, w: int, h: int) -> bool {
    &&& i32::MIN <= x
    &&& i32::MIN <= y
    &&& 1 <= w <= i32::MAX
    &&& 1 <= h <= i32::MAX
    &&& x + w <= i32::MAX
    &&& y + h <= i32::MAX
}

pub open spec fn max_int(a: int, b: int) -> int {
    if a >= b {
        a
    } else {
        b
    }
}

pub open spec fn min_int(a: int, b: int) -> int {
    if a <= b {
        a
    } else {
        b
    }
}

impl IntRect {
    pub open spec fn wf(&self) -> bool {
        valid_rect(self.x as int, self.y as int, self.width as int, self.height as int)
    }

    pub open spec fn right(&self) -> int {
        self.x + self.width
    }

    pub open spec fn bottom(&self) -> int {
        self.y + self.height
    }

    /// The rectangle at `(x, y)` of size `w` by `h`, when it is valid.
    pub fn from_xywh(x: i32, y: i32, w: u32, h: u32) -> (r: Option<IntRect>)
        ensures
            r is Some <==> valid_rect(x as int, y as int, w as int, h as int),
            r matches Some(rect) ==> rect == (IntRect { x, y, width: w, height: h }),
    {
        if w == 0 || h == 0 || w > i32::MAX as u32 || h > i32::MAX as u32 {
            return None;
        }
        if (x as i64) + (w as i64) > i32::MAX as i64 || (y as i64) + (h as i64) > i32::MAX as i64 {
            return None;
        }
        Some(IntRect { x, y, width: w, height: h })
    }

    /// The part of `self` inside `bounds`, or `None` when they do not overlap.
    pub fn fit_to_rect(&self, bounds: &IntRect) -> (r: Option<IntRect>)
        requires
            self.wf(),
            bounds.wf(),
        ensures
            r is Some <==> max_int(self.x as int, bounds.x as int) < min_int(
                self.right(),
                bounds.right(),
            ) && max_int(self.y as int, bounds.y as int) < min_int(self.bottom(), bounds.bottom()),
            r matches Some(i) ==> {
                &&& i.wf()
                &&& i.x == max_int(self.x as int, bounds.x as int)
                &&& i.y == max_int(self.y as int, bounds.y as int)
                &&& i.right() == min_int(self.right(), bounds.right())
                &&& i.bottom() == min_int(self.bottom(), bounds.bottom())
            },
    {
        let left: i64 = if self.x >= bounds.x {
            self.x as i64
        } else {
            bounds.x as i64
        };
        let top: i64 = if self.y >= bounds.y {
            self.y as i64
        } else {
            bounds.y as i64
        };
        let r1 = self.x as i64 + self.width as i64;
        let r2 = bounds.x as i64 + bounds.width as i64;
        let right: i64 = if r1 <= r2 {
            r1
        } else {
            r2
        };
        let b1 = self.y as i64 + self.height as i64;
        let b2 = bounds.y as i64 + bounds.height as i64;
        let bottom: i64 = if b1 <= b2 {
            b1
        } else {
            b2
        };
        if left >= right || top >= bottom {
            return None;
        }
        IntRect::from_xywh(left as i32, top as i32, (right - left) as u32, (bottom - top) as u32)
    }
}

/// The render envelope: layers are clamped into `max_bbox`.
#[derive(Debug, Clone, Copy, PartialEq, Eq, Structural)]
pub struct Context {
    pub max_bbox: IntRect,
}

impl Context {
    /// An envelope four times the size of the target, centred on it.
    pub fn new_from_pixmap(pixmap: &PixelBuffer) -> (r: Context)
        requires
            pixmap.wf(),
        ensures
            r.max_bbox.wf(),
            r.max_bbox.x == -2 * pixmap.width(),
            r.max_bbox.y == -2 * pixmap.height(),
            r.max_bbox.width == 4 * pixmap.width(),
            r.max_bbox.height == 4 * pixmap.height(),
    {
        let w = pixmap.width();
        let h = pixmap.height();
        let max_bbox = IntRect {
            x: -2 * (w as i32),
            y: -2 * (h as i32),
            width: 4 * w,
            height: 4 * h,
        };
        Context { max_bbox }
    }

    /// An envelope of exactly the target's size: faster, but may cut
    /// filters and masks that reach outside the target.
    pub fn new_from_pixmap_unsafe(pixmap: &PixelBuffer) -> (r: Context)
        requires
            pixmap.wf(),
        ensures
            r.max_bbox.wf(),
            r.max_bbox == (IntRect { x: 0, y: 0, width: pixmap.width(), height: pixmap.height() }),
    {
        Context { max_bbox: IntRect { x: 0, y: 0, width: pixmap.width(), height: pixmap.height() } }
    }
}

} // verus!
