use svgr::buffer::PixelBuffer;
use svgr::cache::SvgrCache;
use svgr::trim::{content_bounds, trim_transparency};

fn with_ink(w: u32, h: u32, inked: &[(u32, u32)]) -> PixelBuffer {
    let mut b = PixelBuffer::new(w, h).unwrap();
    {
        let bytes = b.bytes_mut();
        for &(x, y) in inked {
            let i = ((y * w + x) * 4) as usize;
            bytes[i] = (x + 1) as u8;
            bytes[i + 3] = 255;
        }
    }
    b
}

#[test]
fn content_bounds_span_the_inked_pixels() {
    let b = with_ink(6, 5, &[(2, 1), (4, 3), (1, 2)]);
    assert_eq!(content_bounds(&b), Some((1, 1, 4, 3)));
    assert_eq!(content_bounds(&PixelBuffer::new(3, 3).unwrap()), None);
}

#[test]
fn trim_keeps_one_pixel_of_margin() {
    let b = with_ink(8, 8, &[(3, 2), (4, 5)]);
    let (x, y, out) = trim_transparency(&b).unwrap();
    assert_eq!((x, y), (2, 1));
    assert_eq!((out.width(), out.height()), (4, 6));
    // Pixel (3, 2) of the source is pixel (1, 1) of the copy.
    let i = ((1 * out.width() + 1) * 4) as usize;
    assert_eq!(&out.bytes()[i..i + 4], &[4, 0, 0, 255]);
}

#[test]
fn trim_clamps_at_the_edges() {
    let b = with_ink(4, 3, &[(0, 0), (3, 2)]);
    let (x, y, out) = trim_transparency(&b).unwrap();
    assert_eq!((x, y, out.width(), out.height()), (0, 0, 4, 3));
    assert_eq!(out.bytes(), b.bytes());
}

#[test]
fn transparent_layer_is_kept_whole() {
    let b = PixelBuffer::new(5, 2).unwrap();
    let (x, y, out) = trim_transparency(&b).unwrap();
    assert_eq!((x, y, out.width(), out.height()), (0, 0, 5, 2));
}

#[test]
fn text_content_hash_is_stable_within_a_cache() {
    let cache = SvgrCache::new(1);
    let a = cache.text_content_hash("nested.svg").unwrap();
    assert_eq!(Some(a), cache.text_content_hash("nested.svg"));
    assert_ne!(Some(a), cache.text_content_hash("other.svg"));
    assert!(SvgrCache::none().text_content_hash("nested.svg").is_none());
}
