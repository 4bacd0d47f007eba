//! Decoded raster image data, with its colors premultiplied by alpha.

use vstd::prelude::*;

verus! {

/// `c * a / 255` rounded to the nearest integer: channel `c` premultiplied
/// by alpha `a`.
pub open spec fn premultiply(c: u8, a: u8) -> u8 {
    ((c as int * a as int * 2 + 255) / 510) as u8
}

/// The blended form of RGBA8 bytes `s`: each color byte premultiplied by
/// the alpha of its pixel, each alpha kept.
pub open spec fn blended(s: Seq<u8>) -> Seq<u8> {
    Seq::new(
        s.len(),
        |i: int|
            if i % 4 == 3 {
                s[i]
            } else {
                premultiply(s[i], s[i - i % 4 + 3])
            },
    )
}

fn premultiply_channel(c: u8, a: u8) -> (r: u8)
    ensures
        r == premultiply(c, a),
{
    let c32 = c as u32;
    let a32 = a as u32;
    assert(c32 * a32 <= 255 * 255) by (nonlinear_arith)
        requires
            c32 <= 255,
            a32 <= 255,
    ;
    let v = (c32 * a32 * 2 + 255) / 510;
    assert(v <= 255);
    v as u8
}

/// Preloaded, decoded raster image data.
#[derive(Debug)]
pub struct PreloadedImageData {
    /// RGBA8 pixels with colors premultiplied by alpha.
    pub data: Vec<u8>,
    /// Width in pixels.
    pub width: u32,
    /// Height in pixels.
    pub height: u32,
    /// The id the image was resolved by.
    pub id: String,
}

impl PreloadedImageData {
    /// Premultiplies the colors of raw RGBA8 pixels by their alpha.
    pub fn blend_rgba_slice(rgba_slice: &[u8]) -> (r: Vec<u8>)
        requires
            rgba_slice@.len() % 4 == 0,
        ensures
            r@ == blended(rgba_slice@),
    {
        let n = rgba_slice.len();
        let mut data: Vec<u8> = Vec::new();
        let mut i: usize = 0;
        while i < n
            invariant
                i <= n,
                i % 4 == 0,
                n == rgba_slice@.len(),
                n % 4 == 0,
                data@ == blended(rgba_slice@).subrange(0, i as int),
            decreases n - i,
        {
            let a = rgba_slice[i + 3];
            data.push(premultiply_channel(rgba_slice[i], a));
            data.push(premultiply_channel(rgba_slice[i + 1], a));
            data.push(premultiply_channel(rgba_slice[i + 2], a));
            data.push(a);
            i = i + 4;
            assert(data@ =~= blended(rgba_slice@).subrange(0, i as int));
        }
        assert(data@ =~= blended(rgba_slice@));
        data
    }

    /// Image data from raw RGBA8 pixels, colors premultiplied on the way in.
    pub fn new(id: String, width: u32, height: u32, rgba_data: &[u8]) -> (r: PreloadedImageData)
        requires
            rgba_data@.len() % 4 == 0,
        ensures
            r.data@ == blended(rgba_data@),
            r.width == width,
            r.height == height,
            r.id@ == id@,
    {
        PreloadedImageData { id, data: PreloadedImageData::blend_rgba_slice(rgba_data), width, height }
    }

    /// Image data from RGBA8 pixels whose colors are already premultiplied.
    pub fn new_blended(id: String, width: u32, height: u32, rgba_data: &[u8]) -> (r:
        PreloadedImageData)
        ensures
            r.data@ == rgba_data@,
            r.width == width,
            r.height == height,
            r.id@ == id@,
    {
        let n = rgba_data.len();
        let mut data: Vec<u8> = Vec::new();
        let mut i: usize = 0;
        while i < n
            invariant
                i <= n,
                n == rgba_data@.len(),
                data@ == rgba_data@.subrange(0, i as int),
            decreases n - i,
        {
            data.push(rgba_data[i]);
            i = i + 1;
            assert(data@ =~= rgba_data@.subrange(0, i as int));
        }
        assert(data@ =~= rgba_data@);
        PreloadedImageData { id, data, width, height }
    }
}

} // verus!
