use svgr::buffer::{PixelBuffer, Rgba8};
use svgr::cache::{LayerKey, LayerSlot, SvgrCache};
use svgr::geom::Transform;
use svgr::pool::PixmapPool;

fn key(content: u64, w: u32, h: u32, transform: Transform) -> LayerKey {
    LayerKey { content, width: w, height: h, transform }
}

fn translate(tx: u32) -> Transform {
    let mut t = Transform::identity();
    t.tx = tx;
    t
}

/// Renders a layer through the cache the way the group renderer does and
/// reports whether it was served from the cache.
fn render_layer(cache: &mut SvgrCache, pool: &mut PixmapPool, k: &LayerKey, shade: u8) -> (bool, Vec<u8>) {
    match cache.begin_layer(k, pool) {
        LayerSlot::Cached(fp) => (true, cache.peek(fp).unwrap().bytes().to_vec()),
        LayerSlot::Render { key: Some(fp), mut buffer } => {
            buffer.fill(Rgba8 { r: 0, g: shade, b: 0, a: 255 });
            cache.insert_or_evict(fp, buffer, pool);
            (false, cache.peek(fp).unwrap().bytes().to_vec())
        }
        LayerSlot::Render { key: None, mut buffer } => {
            buffer.fill(Rgba8 { r: 0, g: shade, b: 0, a: 255 });
            let out = buffer.bytes().to_vec();
            pool.release(buffer);
            (false, out)
        }
        LayerSlot::Unavailable => panic!("no buffer"),
    }
}

#[test]
fn disabled_cache_passes_through() {
    let mut cache = SvgrCache::none();
    let mut pool = PixmapPool::new();
    let k = key(1, 4, 4, Transform::identity());
    assert!(cache.fingerprint(&k).is_none());
    match cache.begin_layer(&k, &mut pool) {
        LayerSlot::Render { key, buffer } => {
            assert!(key.is_none());
            assert!(buffer.bytes().iter().all(|&b| b == 0));
        }
        _ => panic!("expected a buffer"),
    }
    assert!(SvgrCache::new(0).fingerprint(&k).is_none());
    assert!(SvgrCache::new(3).fingerprint(&k).is_some());
}

#[test]
fn second_identical_layer_is_a_hit_with_the_same_pixels() {
    let mut cache = SvgrCache::new(8);
    let mut pool = PixmapPool::new();
    let k = key(42, 5, 5, Transform::identity());
    let (hit1, px1) = render_layer(&mut cache, &mut pool, &k, 10);
    let (hit2, px2) = render_layer(&mut cache, &mut pool, &k, 99);
    assert!(!hit1);
    assert!(hit2);
    assert_eq!(px1, px2);
}

#[test]
fn disabled_and_enabled_cache_give_the_same_pixels() {
    let mut none = SvgrCache::none();
    let mut some = SvgrCache::new(4);
    let mut pool = PixmapPool::new();
    let k = key(7, 3, 2, translate(0x4120_0000));
    let (_, a) = render_layer(&mut none, &mut pool, &k, 50);
    let (_, b) = render_layer(&mut some, &mut pool, &k, 50);
    let (_, c) = render_layer(&mut some, &mut pool, &k, 50);
    assert_eq!(a, b);
    assert_eq!(b, c);
}

#[test]
fn cache_hits_on_repeated_layer() {
    let mut cache = SvgrCache::new(16);
    let mut pool = PixmapPool::new();
    let k = key(1000, 20, 20, Transform::identity());
    let mut hits = 0;
    for _ in 0..10 {
        let (hit, _) = render_layer(&mut cache, &mut pool, &k, 1);
        if hit {
            hits += 1;
        }
    }
    assert!(hits >= 9);
}

#[test]
fn different_content_is_stored_twice() {
    let mut cache = SvgrCache::new(4);
    let mut pool = PixmapPool::new();
    let a = key(0xa, 4, 4, Transform::identity());
    let b = key(0xb, 4, 4, Transform::identity());
    let (_, pa) = render_layer(&mut cache, &mut pool, &a, 10);
    let (_, pb) = render_layer(&mut cache, &mut pool, &b, 20);
    let fa = cache.fingerprint(&a).unwrap();
    let fb = cache.fingerprint(&b).unwrap();
    assert_ne!(fa, fb);
    assert!(cache.contains(fa));
    assert!(cache.contains(fb));
    assert_ne!(pa, pb);
}

#[test]
fn fingerprint_is_stable_within_a_cache() {
    let cache = SvgrCache::new(2);
    let k = key(5, 1, 1, Transform::identity());
    assert_eq!(cache.fingerprint(&k), cache.fingerprint(&k));
    let moved = key(5, 1, 1, translate(0x3f80_0000));
    assert_ne!(cache.fingerprint(&k), cache.fingerprint(&moved));
}

#[test]
fn least_recently_used_layer_is_evicted() {
    let mut cache = SvgrCache::new(2);
    let mut pool = PixmapPool::new();
    let keys: Vec<LayerKey> = (0..3).map(|i| key(i, 2, 2, Transform::identity())).collect();
    let fps: Vec<u64> = keys.iter().map(|k| cache.fingerprint(k).unwrap()).collect();
    render_layer(&mut cache, &mut pool, &keys[0], 1);
    render_layer(&mut cache, &mut pool, &keys[1], 2);
    // A hit makes the first layer the most recently used one.
    let (hit, _) = render_layer(&mut cache, &mut pool, &keys[0], 1);
    assert!(hit);
    render_layer(&mut cache, &mut pool, &keys[2], 3);
    assert!(cache.contains(fps[0]));
    assert!(!cache.contains(fps[1]));
    assert!(cache.contains(fps[2]));
}

#[test]
fn touch_and_peek_leave_contents() {
    let mut cache = SvgrCache::new_sized(2);
    let mut pool = PixmapPool::new();
    let b = PixelBuffer::from_storage(vec![3; 4], 1, 1).unwrap();
    cache.insert_or_evict(77, b, &mut pool);
    cache.touch(77);
    assert_eq!(cache.peek(77).unwrap().bytes(), &[3, 3, 3, 3][..]);
    assert!(cache.peek(78).is_none());
}

#[test]
fn probe_misses_then_hits() {
    let mut cache = SvgrCache::new(2);
    let mut pool = PixmapPool::new();
    let slot = cache.probe(9, 2, 3, &mut pool);
    let buffer = match slot {
        LayerSlot::Render { key: Some(9), buffer } => buffer,
        _ => panic!("expected a miss"),
    };
    assert_eq!(buffer.bytes().len(), 24);
    cache.insert_or_evict(9, buffer, &mut pool);
    assert!(matches!(cache.probe(9, 2, 3, &mut pool), LayerSlot::Cached(9)));
    assert!(matches!(cache.probe(10, 0, 3, &mut pool), LayerSlot::Unavailable));
}
