//! Premultiplied RGBA8 pixel buffers.

use vstd::prelude::*;

verus! {

/// Largest width or height of a buffer: 2^16.
pub const MAX_DIMENSION: u32 = 65536;

/// Bytes of one RGBA8 pixel.
pub const BYTES_PER_PIXEL: usize = 4;

/// The errors that reach a caller of the renderer.
#[derive(Debug, Clone, Copy, PartialEq, Eq, Structural)]
pub enum RenderError {
    /// A buffer could not be allocated.
    AllocationFailed,
    /// A computed rectangle has non-positive dimensions.
    GeometryInvalid,
    /// A requested dimension exceeds 2^16.
    OversizedPixmap,
    /// A linked paint server or image is missing.
    MissingResource,
}

/// A premultiplied RGBA8 color.
#[derive(Debug, Clone, Copy, PartialEq, Eq, Structural)]
pub struct Rgba8 {
    pub r: u8,
    pub g: u8,
    pub b: u8,
    pub a: u8,
}

impl Rgba8 {
    /// The byte of channel `k` (0 red, 1 green, 2 blue, 3 alpha).
    pub open spec fn channel(self, k: int) -> u8 {
        if k == 0 {
            self.r
        } else if k == 1 {
            self.g
        } else if k == 2 {
            self.b
        } else {
            self.a
        }
    }

    pub fn transparent() -> (r: Rgba8)
        ensures
            r == (Rgba8 { r: 0, g: 0, b: 0, a: 0 }),
    {
        Rgba8 { r: 0, g: 0, b: 0, a: 0 }
    }

    pub fn black() -> (r: Rgba8)
        ensures
            r == (Rgba8 { r: 0, g: 0, b: 0, a: 255 }),
    {
        Rgba8 { r: 0, g: 0, b: 0, a: 255 }
    }
}

/// Whether `w` and `h` are dimensions a buffer may have.
pub open spec fn valid_dims(w: int, h: int) -> bool {
    1 <= w <= MAX_DIMENSION && 1 <= h <= MAX_DIMENSION
}

/// Number of bytes of a `w` by `h` buffer.
pub open spec fn byte_len(w: int, h: int) -> int {
    w * h * 4
}

/// A sequence of `n` zero bytes.
pub open spec fn zeros(n: int) -> Seq<u8> {
    Seq::new(n as nat, |i: int| 0u8)
}

/// A width by height region of premultiplied RGBA8 pixels, row-major, with
/// no padding. Its view is the byte sequence.
pub struct PixelBuffer {
    width: u32,
    height: u32,
    data: Vec<u8>,
}

impl View for PixelBuffer {
    type V = Seq<u8>;

    closed spec fn view(&self) -> Seq<u8> {
        self.data@
    }
}

impl PixelBuffer {
    pub closed spec fn spec_width(&self) -> u32 {
        self.width
    }

    pub closed spec fn spec_height(&self) -> u32 {
        self.height
    }

    /// The buffer invariant: dimensions within limits and four bytes per pixel.
    pub open spec fn wf(&self) -> bool {
        &&& valid_dims(self.width() as int, self.height() as int)
        &&& self@.len() == byte_len(self.width() as int, self.height() as int)
    }

    #[verifier::when_used_as_spec(spec_width)]
    pub fn width(&self) -> (r: u32)
        ensures
            r == self.spec_width(),
    {
        self.width
    }

    #[verifier::when_used_as_spec(spec_height)]
    pub fn height(&self) -> (r: u32)
        ensures
            r == self.spec_height(),
    {
        self.height
    }

    /// Read access to the pixel bytes.
    pub fn bytes(&self) -> (r: &[u8])
        ensures
            r@ == self@,
    {
        self.data.as_slice()
    }

    /// Write access to the pixel bytes; the length cannot change.
    pub fn bytes_mut(&mut self) -> (r: &mut [u8])
        ensures
            r@ == old(self)@,
            final(r)@ == final(self)@,
            final(self).width() == old(self).width(),
            final(self).height() == old(self).height(),
    {
        self.data.as_mut_slice()
    }

    /// Wraps `bytes` as a `w` by `h` buffer; `None` when the dimensions are
    /// out of range or the length is not `w * h * 4`.
    pub fn from_storage(bytes: Vec<u8>, w: u32, h: u32) -> (r: Option<PixelBuffer>)
        ensures
            r.is_some() <==> valid_dims(w as int, h as int) && bytes@.len() == byte_len(
                w as int,
                h as int,
            ),
            r matches Some(b) ==> b.wf() && b.width() == w && b.height() == h && b@ == bytes@,
    {
        if w == 0 || h == 0 || w > MAX_DIMENSION || h > MAX_DIMENSION {
            return None;
        }
        let len = bytes.len();
        let n = checked_byte_len(w, h);
        match n {
            Some(n) => {
                if len == n {
                    Some(PixelBuffer { width: w, height: h, data: bytes })
                } else {
                    None
                }
            },
            None => None,
        }
    }

    /// Gives the storage back.
    pub fn into_storage(self) -> (r: Vec<u8>)
        ensures
            r@ == self@,
    {
        self.data
    }

    /// A zeroed `w` by `h` buffer: `OversizedPixmap` when a side exceeds
    /// 2^16, `GeometryInvalid` when a side is zero, `AllocationFailed` when
    /// the byte count does not fit the address space. Nothing is allocated
    /// on an error.
    pub fn new(w: u32, h: u32) -> (r: Result<PixelBuffer, RenderError>)
        ensures
            (w > MAX_DIMENSION || h > MAX_DIMENSION) <==> r == Err::<PixelBuffer, RenderError>(
                RenderError::OversizedPixmap,
            ),
            (w <= MAX_DIMENSION && h <= MAX_DIMENSION && (w == 0 || h == 0)) <==> r == Err::<
                PixelBuffer,
                RenderError,
            >(RenderError::GeometryInvalid),
            valid_dims(w as int, h as int) && byte_len(w as int, h as int) > usize::MAX <==> r
                == Err::<PixelBuffer, RenderError>(RenderError::AllocationFailed),
            r is Ok <==> valid_dims(w as int, h as int) && byte_len(w as int, h as int)
                <= usize::MAX,
            r matches Ok(b) ==> b.wf() && b.width() == w && b.height() == h && b@ == zeros(
                byte_len(w as int, h as int),
            ),
    {
        if w > MAX_DIMENSION || h > MAX_DIMENSION {
            return Err(RenderError::OversizedPixmap);
        }
        if w == 0 || h == 0 {
            return Err(RenderError::GeometryInvalid);
        }
        match checked_byte_len(w, h) {
            Some(n) => {
                let data = zeroed_vec(n);
                Ok(PixelBuffer { width: w, height: h, data })
            },
            None => Err(RenderError::AllocationFailed),
        }
    }

    /// A zeroed `w` by `h` buffer, or `None` where `new` reports an error.
    pub fn new_zeroed(w: u32, h: u32) -> (r: Option<PixelBuffer>)
        ensures
            r is Some <==> valid_dims(w as int, h as int) && byte_len(w as int, h as int)
                <= usize::MAX,
            r matches Some(b) ==> b.wf() && b.width() == w && b.height() == h && b@ == zeros(
                byte_len(w as int, h as int),
            ),
    {
        match PixelBuffer::new(w, h) {
            Ok(b) => Some(b),
            Err(_) => None,
        }
    }

    /// Sets every pixel to `c`.
    pub fn fill(&mut self, c: Rgba8)
        ensures
            final(self).width() == old(self).width(),
            final(self).height() == old(self).height(),
            final(self)@.len() == old(self)@.len(),
            forall|i: int| 0 <= i < final(self)@.len() ==> #[trigger] final(self)@[i] == c.channel(i % 4),
    {
        let n = self.data.len();
        let mut i: usize = 0;
        while i < n
            invariant
                0 <= i <= n,
                n == self.data@.len(),
                self.width == old(self).width,
                self.height == old(self).height,
                forall|j: int| 0 <= j < i ==> #[trigger] self.data@[j] == c.channel(j % 4),
            decreases n - i,
        {
            let k = i % 4;
            let v = if k == 0 {
                c.r
            } else if k == 1 {
                c.g
            } else if k == 2 {
                c.b
            } else {
                c.a
            };
            self.data.set(i, v);
            i = i + 1;
        }
    }
}

/// `dst` with every pixel of `src` that is not all zero copied over it.
pub open spec fn merged(dst: Seq<u8>, src: Seq<u8>) -> Seq<u8> {
    Seq::new(
        dst.len(),
        |i: int|
            {
                let p = i - i % 4;
                if src[p] != 0 || src[p + 1] != 0 || src[p + 2] != 0 || src[p + 3] != 0 {
                    src[i]
                } else {
                    dst[i]
                }
            },
    )
}

/// Channel `c` scaled by mask byte `m`, rounded as tiny-skia rounds it.
pub open spec fn scale_by_mask(c: u8, m: u8) -> u8 {
    ((c as int * m as int + 255) / 256) as u8
}

/// Pixels `px` with every channel scaled by its pixel's byte of `mask`.
pub open spec fn masked(px: Seq<u8>, mask: Seq<u8>) -> Seq<u8> {
    Seq::new(px.len(), |i: int| scale_by_mask(px[i], mask[i / 4]))
}

/// A mask byte of 0 clears a channel and one of 255 keeps it.
pub proof fn lemma_scale_by_mask_edges(c: u8)
    ensures
        scale_by_mask(c, 0) == 0,
        scale_by_mask(c, 255) == c,
{
    assert((c as int * 255 + 255) / 256 == c as int) by (nonlinear_arith)
        requires
            0 <= c <= 255,
    ;
}

/// The mask bytes tiny-skia derives from premultiplied RGBA8 pixels by
/// luminance, one per pixel.
pub uninterp spec fn luminance_of(pixels: Seq<u8>) -> Seq<u8>;

impl PixelBuffer {
    /// Copies onto `self` every pixel of `other` that is not all zero.
    pub fn merge_canvas(&mut self, other: &PixelBuffer)
        requires
            old(self).wf(),
            other.wf(),
            other.width() == old(self).width(),
            other.height() == old(self).height(),
        ensures
            final(self).wf(),
            final(self).width() == old(self).width(),
            final(self).height() == old(self).height(),
            final(self)@ == merged(old(self)@, other@),
    {
        let n = self.data.len();
        let src = other.bytes();
        let mut i: usize = 0;
        while i < n
            invariant
                n == self.data@.len(),
                n == old(self)@.len(),
                n == src@.len(),
                n % 4 == 0,
                i % 4 == 0,
                i <= n,
                self.width == old(self).width,
                self.height == old(self).height,
                forall|j: int| 0 <= j < i ==> #[trigger] self.data@[j] == merged(old(self)@, src@)[j],
                forall|j: int| i <= j < n ==> #[trigger] self.data@[j] == old(self)@[j],
            decreases n - i,
        {
            if src[i] != 0 || src[i + 1] != 0 || src[i + 2] != 0 || src[i + 3] != 0 {
                self.data.set(i, src[i]);
                self.data.set(i + 1, src[i + 1]);
                self.data.set(i + 2, src[i + 2]);
                self.data.set(i + 3, src[i + 3]);
            }
            i = i + 4;
        }
        assert(self.data@ =~= merged(old(self)@, other@));
    }

    /// Relies on tiny_skia::PixmapMut::apply_mask, the buffer and the mask
    /// bytes converted by PixmapMut::from_bytes and Mask::from_vec: every
    /// channel is scaled by its pixel's mask byte, `(c * m + 255) >> 8`.
    #[verifier::external_body]
    pub(crate) fn apply_mask_bytes(&mut self, mask: &Vec<u8>)
        requires
            old(self).wf(),
            mask@.len() == old(self).width() * old(self).height(),
        ensures
            final(self).width() == old(self).width(),
            final(self).height() == old(self).height(),
            final(self)@ == masked(old(self)@, mask@),
    {
        let size = tiny_skia::IntSize::from_wh(self.width, self.height).unwrap();
        let m = tiny_skia::Mask::from_vec(mask.clone(), size).unwrap();
        let mut target = tiny_skia::PixmapMut::from_bytes(&mut self.data, self.width, self.height)
            .unwrap();
        target.apply_mask(&m);
    }

    /// Relies on tiny_skia::PixmapRef::clone_rect, the buffer converted by
    /// PixmapRef::from_bytes and the copy taken back by Pixmap::take: a copy
    /// of the `w` by `h` region at `(x, y)`, which lies inside the buffer.
    #[verifier::external_body]
    pub(crate) fn clone_rect(&self, x: u32, y: u32, w: u32, h: u32) -> (r: PixelBuffer)
        requires
            self.wf(),
            1 <= w,
            1 <= h,
            x + w <= self.width(),
            y + h <= self.height(),
        ensures
            r.wf(),
            r.width() == w,
            r.height() == h,
            forall|px: int, py: int, c: int|
                0 <= px < w && 0 <= py < h && 0 <= c < 4 ==> #[trigger] r@[pixel_index(
                    w as int,
                    px,
                    py,
                ) + c] == self@[pixel_index(self.width() as int, x + px, y + py) + c],
    {
        let rect = tiny_skia::IntRect::from_xywh(x as i32, y as i32, w, h).unwrap();
        let source = tiny_skia::PixmapRef::from_bytes(&self.data, self.width, self.height).unwrap();
        let copy = source.clone_rect(rect).unwrap();
        PixelBuffer { width: w, height: h, data: copy.take() }
    }

    /// Relies on tiny_skia::Mask::from_pixmap with MaskType::Luminance, the
    /// buffer converted by PixmapRef::from_bytes: one mask byte per pixel.
    #[verifier::external_body]
    pub(crate) fn luminance_mask(&self) -> (r: Vec<u8>)
        requires
            self.wf(),
        ensures
            r@ == luminance_of(self@),
            r@.len() == self@.len() / 4,
    {
        let pixmap = tiny_skia::PixmapRef::from_bytes(&self.data, self.width, self.height).unwrap();
        tiny_skia::Mask::from_pixmap(pixmap, tiny_skia::MaskType::Luminance).data().to_vec()
    }
}

/// The index of the first byte of pixel `(x, y)` in a buffer `w` wide.
pub open spec fn pixel_index(w: int, x: int, y: int) -> int {
    (y * w + x) * 4
}

/// Pixel `(x, y)` of a `w` by `h` buffer lies inside its bytes.
pub proof fn lemma_pixel_index_in_range(w: int, h: int, x: int, y: int)
    requires
        0 <= x < w,
        0 <= y < h,
    ensures
        0 <= pixel_index(w, x, y),
        pixel_index(w, x, y) + 4 <= byte_len(w, h),
{
    assert(0 <= y * w + x && y * w + x + 1 <= h * w) by (nonlinear_arith)
        requires
            0 <= x < w,
            0 <= y < h,
    ;
    assert(h * w == w * h) by (nonlinear_arith);
}

/// `w * h * 4` when it fits a `usize`.
pub fn checked_byte_len(w: u32, h: u32) -> (r: Option<usize>)
    ensures
        r is Some <==> byte_len(w as int, h as int) <= usize::MAX,
        r matches Some(n) ==> n == byte_len(w as int, h as int),
{
    assert((w as int) * (h as int) <= u64::MAX) by (nonlinear_arith)
        requires
            0 <= w <= u32::MAX,
            0 <= h <= u32::MAX,
    ;
    let pixels = (w as u64) * (h as u64);
    if pixels > (usize::MAX / 4) as u64 {
        assert(byte_len(w as int, h as int) > usize::MAX) by (nonlinear_arith)
            requires
                pixels == w * h,
                pixels > usize::MAX / 4,
        ;
        None
    } else {
        Some((pixels as usize) * 4)
    }
}

/// A vector of `n` zero bytes.
pub fn zeroed_vec(n: usize) -> (r: Vec<u8>)
    ensures
        r@ == zeros(n as int),
{
    let mut v: Vec<u8> = Vec::new();
    let mut i: usize = 0;
    while i < n
        invariant
            i <= n,
            v@ == zeros(i as int),
        decreases n - i,
    {
        v.push(0u8);
        i = i + 1;
        assert(v@ =~= zeros(i as int));
    }
    v
}

} // verus!
