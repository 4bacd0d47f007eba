//! Trimming the transparent border of a layer.

use crate::buffer::{lemma_pixel_index_in_range, pixel_index, PixelBuffer};
use vstd::prelude::*;

verus! {

/// Whether pixel `(x, y)` of `b` exists and has a non-zero alpha.
pub open spec fn inked(b: PixelBuffer, x: int, y: int) -> bool {
    &&& 0 <= x < b.width()
    &&& 0 <= y < b.height()
    &&& b@[pixel_index(b.width() as int, x, y) + 3] != 0
}

pub open spec fn has_ink(b: PixelBuffer) -> bool {
    exists|x: int, y: int| inked(b, x, y)
}

/// `l` and `r` are the least and greatest columns, `t` and `btm` the least
/// and greatest rows, that hold an inked pixel.
pub open spec fn is_ink_bounds(b: PixelBuffer, l: int, t: int, r: int, btm: int) -> bool {
    &&& forall|x: int, y: int| #[trigger] inked(b, x, y) ==> l <= x <= r && t <= y <= btm
    &&& exists|x: int| inked(b, x, t)
    &&& exists|x: int| inked(b, x, btm)
    &&& exists|y: int| inked(b, l, y)
    &&& exists|y: int| inked(b, r, y)
}

/// Whether `out` is a copy of the region of `b` at `(x0, y0)` of its size.
pub open spec fn is_region_copy(out: PixelBuffer, b: PixelBuffer, x0: int, y0: int) -> bool {
    forall|px: int, py: int, c: int|
        0 <= px < out.width() && 0 <= py < out.height() && 0 <= c < 4 ==> #[trigger] out@[pixel_index(
            out.width() as int,
            px,
            py,
        ) + c] == b@[pixel_index(b.width() as int, x0 + px, y0 + py) + c]
}

/// Pixel `(xx, yy)` comes before `(x, y)` in row-major order.
pub open spec fn scanned(xx: int, yy: int, x: int, y: int) -> bool {
    yy < y || (yy == y && xx < x)
}

/// The least and greatest inked columns and rows of `b`, as
/// `(left, top, right, bottom)`; `None` when no pixel is inked.
pub fn content_bounds(b: &PixelBuffer) -> (r: Option<(u32, u32, u32, u32)>)
    requires
        b.wf(),
    ensures
        r is None <==> !has_ink(*b),
        r matches Some((l, t, rr, bb)) ==> is_ink_bounds(*b, l as int, t as int, rr as int, bb as int)
            && rr < b.width() && bb < b.height(),
{
    let w = b.width();
    let h = b.height();
    let bytes = b.bytes();
    let n = bytes.len();
    let mut found = false;
    let mut l: u32 = 0;
    let mut t: u32 = 0;
    let mut r: u32 = 0;
    let mut bt: u32 = 0;
    let ghost mut l_y: int = 0;
    let ghost mut r_y: int = 0;
    let ghost mut t_x: int = 0;
    let ghost mut b_x: int = 0;
    let mut y: u32 = 0;
    while y < h
        invariant
            b.wf(),
            bytes@ == b@,
            w == b.width(),
            h == b.height(),
            y <= h,
            !found ==> forall|xx: int, yy: int| #[trigger]
                inked(*b, xx, yy) ==> !scanned(xx, yy, 0, y as int),
            found ==> forall|xx: int, yy: int| #[trigger]
                inked(*b, xx, yy) && scanned(xx, yy, 0, y as int) ==> l <= xx <= r && t <= yy <= bt,
            found ==> inked(*b, t_x, t as int) && inked(*b, b_x, bt as int) && inked(*b, l as int, l_y)
                && inked(*b, r as int, r_y),
            found ==> r < w && bt < y && t <= bt,
            bytes@.len() <= usize::MAX,
        decreases h - y,
    {
        let mut x: u32 = 0;
        while x < w
            invariant
                b.wf(),
                bytes@ == b@,
                w == b.width(),
                h == b.height(),
                y < h,
                x <= w,
                !found ==> forall|xx: int, yy: int| #[trigger]
                    inked(*b, xx, yy) ==> !scanned(xx, yy, x as int, y as int),
                found ==> forall|xx: int, yy: int| #[trigger]
                    inked(*b, xx, yy) && scanned(xx, yy, x as int, y as int) ==> l <= xx <= r && t
                        <= yy <= bt,
                found ==> inked(*b, t_x, t as int) && inked(*b, b_x, bt as int) && inked(
                    *b,
                    l as int,
                    l_y,
                ) && inked(*b, r as int, r_y),
                found ==> r < w && bt <= y && t <= bt,
                bytes@.len() <= usize::MAX,
            decreases w - x,
        {
            proof {
                lemma_pixel_index_in_range(w as int, h as int, x as int, y as int);
                assert((y as int) * (w as int) + (x as int) <= usize::MAX / 4);
            }
            let idx = ((y as usize) * (w as usize) + (x as usize)) * 4 + 3;
            let ghost was_found = found;
            let ghost (l0, r0, t0, b0) = (l, r, t, bt);
            if bytes[idx] != 0 {
                assert(inked(*b, x as int, y as int));
                if !found {
                    found = true;
                    l = x;
                    r = x;
                    t = y;
                    bt = y;
                    proof {
                        l_y = y as int;
                        r_y = y as int;
                        t_x = x as int;
                        b_x = x as int;
                    }
                } else {
                    if x < l {
                        l = x;
                        proof {
                            l_y = y as int;
                        }
                    }
                    if x > r {
                        r = x;
                        proof {
                            r_y = y as int;
                        }
                    }
                    bt = y;
                    proof {
                        b_x = x as int;
                    }
                }
            }
            proof {
                assert forall|xx: int, yy: int|
                    #[trigger] inked(*b, xx, yy) && scanned(xx, yy, x + 1, y as int) && found implies l
                        <= xx <= r && t <= yy <= bt by {
                    if scanned(xx, yy, x as int, y as int) {
                        if was_found {
                            assert(l0 <= xx <= r0 && t0 <= yy <= b0);
                        }
                    }
                }
            }
            x = x + 1;
        }
        y = y + 1;
    }
    if found {
        Some((l, t, r, bt))
    } else {
        assert forall|xx: int, yy: int| !inked(*b, xx, yy) by {
            if inked(*b, xx, yy) {
                assert(!scanned(xx, yy, 0, y as int));
            }
        }
        None
    }
}

/// The border-trimmed form of `b`: a copy of the region at `(x0, y0)`
/// spanning the inked pixels plus one pixel of margin, clamped to `b`; all
/// of `b` when no pixel is inked.
pub open spec fn is_trimmed(b: PixelBuffer, x0: int, y0: int, out: PixelBuffer) -> bool {
    &&& out.wf()
    &&& is_region_copy(out, b, x0, y0)
    &&& 0 <= x0 && 0 <= y0
    &&& x0 + out.width() <= b.width() && y0 + out.height() <= b.height()
    &&& !has_ink(b) ==> x0 == 0 && y0 == 0 && out.width() == b.width() && out.height()
        == b.height()
    &&& has_ink(b) ==> exists|l: int, t: int, rr: int, bb: int|
        #![trigger is_ink_bounds(b, l, t, rr, bb)]
        {
            &&& is_ink_bounds(b, l, t, rr, bb)
            &&& x0 == if l >= 1 { l - 1 } else { 0 }
            &&& y0 == if t >= 1 { t - 1 } else { 0 }
            &&& x0 + out.width() == if rr + 2 <= b.width() { rr + 2 } else { b.width() as int }
            &&& y0 + out.height() == if bb + 2 <= b.height() { bb + 2 } else { b.height() as int }
        }
}

/// Cuts the transparent border off a layer, keeping one pixel of margin on
/// every side within the layer: the offset of the kept region and a copy of
/// it. A layer with no ink is kept whole.
pub fn trim_transparency(b: &PixelBuffer) -> (r: Option<(i32, i32, PixelBuffer)>)
    requires
        b.wf(),
    ensures
        r matches Some((x0, y0, out)) && is_trimmed(*b, x0 as int, y0 as int, out),
{
    match content_bounds(b) {
        Some((l, t, rr, bb)) => {
            let x0 = if l >= 1 {
                l - 1
            } else {
                0
            };
            let y0 = if t >= 1 {
                t - 1
            } else {
                0
            };
            let x1 = if rr + 2 <= b.width() {
                rr + 2
            } else {
                b.width()
            };
            let y1 = if bb + 2 <= b.height() {
                bb + 2
            } else {
                b.height()
            };
            let out = b.clone_rect(x0, y0, x1 - x0, y1 - y0);
            proof {
                assert(is_ink_bounds(*b, l as int, t as int, rr as int, bb as int));
            }
            Some((x0 as i32, y0 as i32, out))
        },
        None => {
            let out = b.clone_rect(0, 0, b.width(), b.height());
            Some((0, 0, out))
        },
    }
}

} // verus!
