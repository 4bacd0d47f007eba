use svgr::buffer::PixelBuffer;
use svgr::cache::{LayerSlot, SvgrCache};
use svgr::geom::{Context, IntRect, Transform};
use svgr::pool::PixmapPool;
use svgr::render::{
    convert_blend_mode, layer_rect, plan_group, BlendMode, CompositeMode, GroupFacts, GroupPlan,
    IsolationTier, LayerBounds,
};

fn plain_facts() -> GroupFacts {
    GroupFacts {
        content_hash: 11,
        opacity_is_one: true,
        blend_mode: BlendMode::Normal,
        has_filters: false,
        has_clip_path: false,
        has_mask: false,
        abs_transform_is_identity: true,
    }
}

fn ctx_100() -> Context {
    Context::new_from_pixmap(&PixelBuffer::new(100, 100).unwrap())
}

fn rot(k: u32) -> Transform {
    // Bit patterns of the rotations by 0, 90, 180 and 270 degrees.
    let one = 0x3f80_0000;
    let minus_one = 0xbf80_0000;
    match k {
        0 => Transform { sx: one, ky: 0, kx: 0, sy: one, tx: 0, ty: 0 },
        1 => Transform { sx: 0, ky: one, kx: minus_one, sy: 0, tx: 0, ty: 0 },
        2 => Transform { sx: minus_one, ky: 0, kx: 0, sy: minus_one, tx: 0, ty: 0 },
        _ => Transform { sx: 0, ky: minus_one, kx: one, sy: 0, tx: 0, ty: 0 },
    }
}

#[test]
fn plain_group_is_drawn_in_place() {
    let g = plain_facts();
    assert!(!g.should_isolate());
    let full = rot(1);
    let plan = plan_group(
        &g,
        Some(LayerBounds { x: 0, y: 0, width: 10, height: 10 }),
        &ctx_100(),
        Transform::identity(),
        rot(1),
        full,
    );
    assert_eq!(plan, GroupPlan::Inline { transform: full });
}

#[test]
fn opacity_isolates_without_effects() {
    let mut g = plain_facts();
    g.opacity_is_one = false;
    let local = rot(2);
    let parent = Transform::identity();
    let plan = plan_group(
        &g,
        Some(LayerBounds { x: 10, y: 20, width: 30, height: 40 }),
        &ctx_100(),
        parent,
        local,
        rot(2),
    );
    match plan {
        GroupPlan::Layer(p) => {
            assert_eq!(p.tier, IsolationTier::CachedNoEffects);
            assert_eq!(p.rect, IntRect { x: 8, y: 18, width: 34, height: 44 });
            assert_eq!(p.key.transform, parent);
            assert_eq!(p.key.width, 34);
            assert_eq!(p.key.height, 44);
            assert_eq!(p.render_base, parent);
            assert_eq!(p.draw, local);
        }
        other => panic!("unexpected {:?}", other),
    }
}

#[test]
fn effects_key_on_the_full_transform() {
    let mut g = plain_facts();
    g.has_clip_path = true;
    let full = rot(3);
    let plan = plan_group(
        &g,
        Some(LayerBounds { x: 0, y: 0, width: 5, height: 5 }),
        &ctx_100(),
        Transform::identity(),
        rot(3),
        full,
    );
    match plan {
        GroupPlan::Layer(p) => {
            assert_eq!(p.tier, IsolationTier::CachedWithEffects);
            assert_eq!(p.key.transform, full);
            assert_eq!(p.render_base, full);
            assert_eq!(p.draw, Transform::identity());
        }
        other => panic!("unexpected {:?}", other),
    }
}

#[test]
fn filters_take_the_bounds_unexpanded() {
    let mut g = plain_facts();
    g.has_filters = true;
    let plan = plan_group(
        &g,
        Some(LayerBounds { x: 3, y: 4, width: 0, height: 6 }),
        &ctx_100(),
        Transform::identity(),
        Transform::identity(),
        Transform::identity(),
    );
    match plan {
        GroupPlan::Layer(p) => assert_eq!(p.rect, IntRect { x: 3, y: 4, width: 1, height: 6 }),
        other => panic!("unexpected {:?}", other),
    }
}

#[test]
fn layer_outside_the_envelope_is_skipped() {
    let mut g = plain_facts();
    g.blend_mode = BlendMode::Multiply;
    let far = Some(LayerBounds { x: 10_000, y: 0, width: 5, height: 5 });
    let id = Transform::identity();
    assert_eq!(plan_group(&g, far, &ctx_100(), id, id, id), GroupPlan::Skip);
    assert_eq!(plan_group(&g, None, &ctx_100(), id, id, id), GroupPlan::Skip);
}

#[test]
fn layer_rect_is_clamped_into_the_envelope() {
    let ctx = Context::new_from_pixmap_unsafe(&PixelBuffer::new(50, 40).unwrap());
    assert_eq!(ctx.max_bbox, IntRect { x: 0, y: 0, width: 50, height: 40 });
    let r = layer_rect(&LayerBounds { x: -10, y: 30, width: 100, height: 100 }, false, &ctx);
    assert_eq!(r, Some(IntRect { x: 0, y: 28, width: 50, height: 12 }));
    let overflow = layer_rect(&LayerBounds { x: i32::MIN, y: 0, width: 1, height: 1 }, false, &ctx);
    assert_eq!(overflow, None);
}

#[test]
fn envelope_is_four_times_the_target() {
    let ctx = Context::new_from_pixmap(&PixelBuffer::new(100, 50).unwrap());
    assert_eq!(ctx.max_bbox, IntRect { x: -200, y: -100, width: 400, height: 200 });
}

#[test]
fn fit_to_rect_intersects() {
    let a = IntRect::from_xywh(0, 0, 10, 10).unwrap();
    let b = IntRect::from_xywh(5, -5, 10, 10).unwrap();
    assert_eq!(a.fit_to_rect(&b), Some(IntRect { x: 5, y: 0, width: 5, height: 5 }));
    let c = IntRect::from_xywh(10, 0, 3, 3).unwrap();
    assert_eq!(a.fit_to_rect(&c), None);
    assert!(IntRect::from_xywh(i32::MAX, 0, 1, 1).is_none());
    assert!(IntRect::from_xywh(0, 0, 0, 1).is_none());
}

#[test]
fn isolated_group_rotation_shares_one_layer() {
    let mut g = plain_facts();
    g.opacity_is_one = false;
    let ctx = ctx_100();
    let parent = Transform::identity();
    let bounds = Some(LayerBounds { x: 20, y: 20, width: 30, height: 30 });
    let mut cache = SvgrCache::new(8);
    let mut pool = PixmapPool::new();
    let mut rendered = 0;
    let mut composited = 0;
    let mut draws = Vec::new();
    for k in 0..4 {
        let plan = plan_group(&g, bounds, &ctx, parent, rot(k), rot(k));
        let p = match plan {
            GroupPlan::Layer(p) => p,
            other => panic!("unexpected {:?}", other),
        };
        assert_eq!(p.tier, IsolationTier::CachedNoEffects);
        match cache.begin_layer(&p.key, &mut pool) {
            LayerSlot::Cached(_) => {}
            LayerSlot::Render { key: Some(fp), buffer } => {
                rendered += 1;
                cache.insert_or_evict(fp, buffer, &mut pool);
            }
            _ => panic!("unexpected slot"),
        }
        composited += 1;
        draws.push(p.draw);
    }
    assert_eq!(rendered, 1);
    assert_eq!(composited, 4);
    for i in 0..4 {
        for j in (i + 1)..4 {
            assert_ne!(draws[i], draws[j]);
        }
    }
}

#[test]
fn tier_one_keys_differ_with_parent_transform() {
    let mut g = plain_facts();
    g.opacity_is_one = false;
    let ctx = ctx_100();
    let bounds = Some(LayerBounds { x: 0, y: 0, width: 8, height: 8 });
    let p1 = plan_group(&g, bounds, &ctx, rot(0), rot(0), rot(0));
    let p2 = plan_group(&g, bounds, &ctx, rot(1), rot(0), rot(1));
    match (p1, p2) {
        (GroupPlan::Layer(a), GroupPlan::Layer(b)) => assert_ne!(a.key, b.key),
        _ => panic!("expected layers"),
    }
}

#[test]
fn blend_modes_convert() {
    assert_eq!(convert_blend_mode(BlendMode::Normal), CompositeMode::SourceOver);
    assert_eq!(convert_blend_mode(BlendMode::Multiply), CompositeMode::Multiply);
    assert_eq!(convert_blend_mode(BlendMode::Luminosity), CompositeMode::Luminosity);
}

#[test]
fn inline_plan_repeats_whatever_the_layer_state() {
    let g = plain_facts();
    let id = Transform::identity();
    let a = plan_group(&g, None, &ctx_100(), id, rot(1), rot(1));
    let small = Context::new_from_pixmap_unsafe(&PixelBuffer::new(1, 1).unwrap());
    let b = plan_group(
        &g,
        Some(LayerBounds { x: 5, y: 5, width: 1, height: 1 }),
        &small,
        id,
        rot(1),
        rot(1),
    );
    assert_eq!(a, b);
    assert_eq!(a, GroupPlan::Inline { transform: rot(1) });
}
