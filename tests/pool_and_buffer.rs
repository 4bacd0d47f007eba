use svgr::buffer::{PixelBuffer, RenderError, Rgba8};
use svgr::pool::{size_class_of, PixmapPool};

#[test]
fn acquired_buffer_is_zeroed_and_sized() {
    let mut pool = PixmapPool::new();
    let mut buf = pool.take_or_allocate(3, 5).unwrap();
    assert_eq!(buf.width(), 3);
    assert_eq!(buf.height(), 5);
    assert_eq!(buf.bytes().len(), 3 * 5 * 4);
    assert!(buf.bytes().iter().all(|&b| b == 0));
    buf.fill(Rgba8 { r: 1, g: 2, b: 3, a: 4 });
    pool.release(buf);
    let again = pool.take_or_allocate(4, 4).unwrap();
    assert_eq!(again.bytes().len(), 64);
    assert!(again.bytes().iter().all(|&b| b == 0));
}

#[test]
fn fresh_and_shared_pools_hand_out_the_same_pixels() {
    let mut shared = PixmapPool::new_with_capacity(4);
    for _ in 0..3 {
        let mut b = shared.take_or_allocate(7, 2).unwrap();
        b.fill(Rgba8 { r: 9, g: 9, b: 9, a: 9 });
        shared.release(b);
    }
    let from_shared = shared.take_or_allocate(6, 3).unwrap();
    let from_fresh = PixmapPool::new().take_or_allocate(6, 3).unwrap();
    assert_eq!(from_shared.bytes(), from_fresh.bytes());
    assert_eq!(from_shared.width(), from_fresh.width());
    assert_eq!(from_shared.height(), from_fresh.height());
}

#[test]
fn zero_sized_request_is_refused() {
    let mut pool = PixmapPool::new();
    assert!(pool.take_or_allocate(0, 10).is_none());
    assert!(pool.take_or_allocate(10, 0).is_none());
}

#[test]
fn size_classes_follow_the_longer_side() {
    assert_eq!(size_class_of(1, 1), 0);
    assert_eq!(size_class_of(2, 1), 1);
    assert_eq!(size_class_of(3, 2), 2);
    assert_eq!(size_class_of(1024, 1000), 10);
    assert_eq!(size_class_of(1025, 1), 11);
    assert_eq!(size_class_of(65535, 65535), 16);
    assert_eq!(size_class_of(65536, 1), 16);
    assert_eq!(size_class_of(65537, 1), 17);
}

#[test]
fn oversize_rejection() {
    assert_eq!(PixelBuffer::new(70000, 70000).err(), Some(RenderError::OversizedPixmap));
    let mut pool = PixmapPool::new();
    assert!(pool.take_or_allocate(70000, 70000).is_none());
}

#[test]
fn size_bounds_at_two_to_the_sixteen() {
    let ok = PixelBuffer::new(65536, 1).unwrap();
    assert_eq!(ok.bytes().len(), 65536 * 4);
    assert_eq!(PixelBuffer::new(65537, 1).err(), Some(RenderError::OversizedPixmap));
    assert_eq!(PixelBuffer::new(1, 65537).err(), Some(RenderError::OversizedPixmap));
    assert_eq!(PixelBuffer::new(65537, 65537).err(), Some(RenderError::OversizedPixmap));
    let mut pool = PixmapPool::new();
    assert!(pool.take_or_allocate(65535, 1).is_some());
    assert!(pool.take_or_allocate(65537, 1).is_none());
}

#[test]
fn zero_dimension_is_invalid_geometry() {
    assert_eq!(PixelBuffer::new(0, 4).err(), Some(RenderError::GeometryInvalid));
    assert!(PixelBuffer::new_zeroed(0, 4).is_none());
    let z = PixelBuffer::new_zeroed(2, 2).unwrap();
    assert_eq!(z.bytes(), &[0u8; 16][..]);
}

#[test]
fn from_storage_checks_length() {
    assert!(PixelBuffer::from_storage(vec![0; 15], 2, 2).is_none());
    assert!(PixelBuffer::from_storage(vec![0; 16], 0, 2).is_none());
    let b = PixelBuffer::from_storage(vec![7; 16], 2, 2).unwrap();
    assert_eq!(b.into_storage(), vec![7; 16]);
}

#[test]
fn fill_writes_every_pixel() {
    let mut b = PixelBuffer::new(2, 1).unwrap();
    b.fill(Rgba8::black());
    assert_eq!(b.bytes(), &[0, 0, 0, 255, 0, 0, 0, 255][..]);
    b.fill(Rgba8::transparent());
    assert_eq!(b.bytes(), &[0u8; 8][..]);
}

#[test]
fn merge_canvas_copies_non_empty_pixels() {
    let mut dst = PixelBuffer::from_storage(vec![1, 1, 1, 1, 2, 2, 2, 2], 2, 1).unwrap();
    let src = PixelBuffer::from_storage(vec![0, 0, 0, 0, 0, 9, 0, 0], 2, 1).unwrap();
    dst.merge_canvas(&src);
    assert_eq!(dst.bytes(), &[1, 1, 1, 1, 0, 9, 0, 0][..]);
}
