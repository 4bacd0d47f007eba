//! The decisions of the recursive group renderer: whether a group is drawn
//! in place or into a layer, the layer's pixel rectangle, and which
//! transforms key, render and draw the layer.

use crate::cache::LayerKey;
use crate::geom::{max_int, min_int, valid_rect, Context, IntRect, Transform, ONE_BITS};
use vstd::prelude::*;

verus! {

/// The blend modes of SVG's `mix-blend-mode`.
#[derive(Debug, Clone, Copy, PartialEq, Eq, Structural)]
pub enum BlendMode {
    Normal,
    Multiply,
    Screen,
    Overlay,
    Darken,
    Lighten,
    ColorDodge,
    ColorBurn,
    HardLight,
    SoftLight,
    Difference,
    Exclusion,
    Hue,
    Saturation,
    Color,
    Luminosity,
}

/// The modes the compositor draws with: the SVG blend modes, with `Normal`
/// drawn as `SourceOver`, and the modes the clip engine uses.
#[derive(Debug, Clone, Copy, PartialEq, Eq, Structural)]
pub enum CompositeMode {
    Clear,
    SourceOver,
    DestinationOut,
    Xor,
    Multiply,
    Screen,
    Overlay,
    Darken,
    Lighten,
    ColorDodge,
    ColorBurn,
    HardLight,
    SoftLight,
    Difference,
    Exclusion,
    Hue,
    Saturation,
    Color,
    Luminosity,
}

/// The compositor mode of an SVG blend mode.
pub open spec fn composite_mode_of(mode: BlendMode) -> CompositeMode {
    match mode {
        BlendMode::Normal => CompositeMode::SourceOver,
        BlendMode::Multiply => CompositeMode::Multiply,
        BlendMode::Screen => CompositeMode::Screen,
        BlendMode::Overlay => CompositeMode::Overlay,
        BlendMode::Darken => CompositeMode::Darken,
        BlendMode::Lighten => CompositeMode::Lighten,
        BlendMode::ColorDodge => CompositeMode::ColorDodge,
        BlendMode::ColorBurn => CompositeMode::ColorBurn,
        BlendMode::HardLight => CompositeMode::HardLight,
        BlendMode::SoftLight => CompositeMode::SoftLight,
        BlendMode::Difference => CompositeMode::Difference,
        BlendMode::Exclusion => CompositeMode::Exclusion,
        BlendMode::Hue => CompositeMode::Hue,
        BlendMode::Saturation => CompositeMode::Saturation,
        BlendMode::Color => CompositeMode::Color,
        BlendMode::Luminosity => CompositeMode::Luminosity,
    }
}

/// The mode a layer with blend mode `mode` is composited with.
pub fn convert_blend_mode(mode: BlendMode) -> (r: CompositeMode)
    ensures
        r == composite_mode_of(mode),
{
    match mode {
        BlendMode::Normal => CompositeMode::SourceOver,
        BlendMode::Multiply => CompositeMode::Multiply,
        BlendMode::Screen => CompositeMode::Screen,
        BlendMode::Overlay => CompositeMode::Overlay,
        BlendMode::Darken => CompositeMode::Darken,
        BlendMode::Lighten => CompositeMode::Lighten,
        BlendMode::ColorDodge => CompositeMode::ColorDodge,
        BlendMode::ColorBurn => CompositeMode::ColorBurn,
        BlendMode::HardLight => CompositeMode::HardLight,
        BlendMode::SoftLight => CompositeMode::SoftLight,
        BlendMode::Difference => CompositeMode::Difference,
        BlendMode::Exclusion => CompositeMode::Exclusion,
        BlendMode::Hue => CompositeMode::Hue,
        BlendMode::Saturation => CompositeMode::Saturation,
        BlendMode::Color => CompositeMode::Color,
        BlendMode::Luminosity => CompositeMode::Luminosity,
    }
}

/// What the renderer needs to know of a group to place it.
#[derive(Debug, Clone, Copy, PartialEq, Eq, Structural)]
pub struct GroupFacts {
    /// The group's deterministic content hash.
    pub content_hash: u64,
    /// Whether the group's opacity is exactly 1.
    pub opacity_is_one: bool,
    pub blend_mode: BlendMode,
    pub has_filters: bool,
    pub has_clip_path: bool,
    pub has_mask: bool,
    /// Whether the group's absolute transform is the identity.
    pub abs_transform_is_identity: bool,
}

impl GroupFacts {
    /// A group is isolated when its opacity is not 1, its blend mode is not
    /// normal, or it has filters, a clip path or a mask.
    pub open spec fn isolates(&self) -> bool {
        ||| !self.opacity_is_one
        ||| self.blend_mode != BlendMode::Normal
        ||| self.has_filters
        ||| self.has_clip_path
        ||| self.has_mask
    }

    /// An isolated group has effects when it has filters, a clip path or a
    /// mask, or a non-identity absolute transform.
    pub open spec fn has_effects(&self) -> bool {
        ||| self.has_filters
        ||| self.has_clip_path
        ||| self.has_mask
        ||| !self.abs_transform_is_identity
    }

    pub fn should_isolate(&self) -> (r: bool)
        ensures
            r == self.isolates(),
    {
        !self.opacity_is_one || self.blend_mode != BlendMode::Normal || self.has_filters
            || self.has_clip_path || self.has_mask
    }

    pub fn requires_transform_before_subsampling(&self) -> (r: bool)
        ensures
            r == self.has_effects(),
    {
        self.has_filters || self.has_clip_path || self.has_mask || !self.abs_transform_is_identity
    }
}

/// The group's layer bounding box after its final transform, rounded
/// outward: `x` and `y` floored, `width` and `height` ceiled.
#[derive(Debug, Clone, Copy, PartialEq, Eq, Structural)]
pub struct LayerBounds {
    pub x: i32,
    pub y: i32,
    pub width: u32,
    pub height: u32,
}

/// The integer rectangle of a layer before clamping, as `(x, y, w, h)`:
/// without filters the bounds grow by 2 pixels on every side; with filters
/// they are taken as they are, at least one pixel wide and high.
pub open spec fn raw_layer_rect(b: LayerBounds, has_filters: bool) -> (int, int, int, int) {
    if has_filters {
        (
            b.x as int,
            b.y as int,
            if b.width == 0 { 1 } else { b.width as int },
            if b.height == 0 { 1 } else { b.height as int },
        )
    } else {
        (b.x - 2, b.y - 2, b.width + 4, b.height + 4)
    }
}

/// The layer rectangle: the raw rectangle clamped into the envelope; `None`
/// when the raw rectangle is not a valid `IntRect` or misses the envelope.
pub open spec fn layer_rect_of(b: LayerBounds, has_filters: bool, env: IntRect) -> Option<IntRect> {
    let (x, y, w, h) = raw_layer_rect(b, has_filters);
    let left = max_int(x, env.x as int);
    let top = max_int(y, env.y as int);
    let right = min_int(x + w, env.right());
    let bottom = min_int(y + h, env.bottom());
    if valid_rect(x, y, w, h) && left < right && top < bottom {
        Some(
            IntRect {
                x: left as i32,
                y: top as i32,
                width: (right - left) as u32,
                height: (bottom - top) as u32,
            },
        )
    } else {
        None
    }
}

/// The pixel rectangle of an isolated group's layer.
pub fn layer_rect(b: &LayerBounds, has_filters: bool, ctx: &Context) -> (r: Option<IntRect>)
    requires
        ctx.max_bbox.wf(),
    ensures
        r == layer_rect_of(*b, has_filters, ctx.max_bbox),
        r matches Some(i) ==> i.wf(),
{
    let raw = if has_filters {
        let w = if b.width == 0 {
            1
        } else {
            b.width
        };
        let h = if b.height == 0 {
            1
        } else {
            b.height
        };
        IntRect::from_xywh(b.x, b.y, w, h)
    } else {
        if b.x < i32::MIN + 2 || b.y < i32::MIN + 2 || b.width > u32::MAX - 4 || b.height > u32::MAX
            - 4 {
            None
        } else {
            IntRect::from_xywh(b.x - 2, b.y - 2, b.width + 4, b.height + 4)
        }
    };
    match raw {
        Some(rect) => rect.fit_to_rect(&ctx.max_bbox),
        None => None,
    }
}

/// How an isolated group is cached.
#[derive(Debug, Clone, Copy, PartialEq, Eq, Structural)]
pub enum IsolationTier {
    /// Drawn in place; no layer.
    NotIsolated,
    /// A layer keyed without the group's own transform, which is applied
    /// when the layer is drawn.
    CachedNoEffects,
    /// A layer keyed with the full transform, effects applied inside it.
    CachedWithEffects,
}

/// How an isolated group's layer is made and drawn.
#[derive(Debug, Clone, Copy, PartialEq, Eq, Structural)]
pub struct LayerPlan {
    pub tier: IsolationTier,
    /// Where the layer lies on the target.
    pub rect: IntRect,
    /// What the layer's fingerprint is derived from.
    pub key: LayerKey,
    /// The children's transform, before the shift by `(-rect.x, -rect.y)`.
    pub render_base: Transform,
    /// The transform the layer is drawn with at `(rect.x, rect.y)`.
    pub draw: Transform,
}

/// Where a group goes.
#[derive(Debug, Clone, Copy, PartialEq, Eq, Structural)]
pub enum GroupPlan {
    /// Render the children in place under `transform`.
    Inline { transform: Transform },
    /// An isolated group with no pixels inside the envelope: nothing is drawn.
    Skip,
    /// Render the children into a layer, then draw it.
    Layer(LayerPlan),
}

pub open spec fn identity_bits() -> Transform {
    Transform { sx: ONE_BITS, ky: 0, kx: 0, sy: ONE_BITS, tx: 0, ty: 0 }
}

/// The plan for group `g` under parent transform `parent`, with its own
/// transform `local` and their composition `full`; `bounds` is the rounded
/// transformed layer bounding box, `None` when it could not be computed.
pub open spec fn plan_of(
    g: GroupFacts,
    bounds: Option<LayerBounds>,
    env: IntRect,
    parent: Transform,
    local: Transform,
    full: Transform,
) -> GroupPlan {
    if !g.isolates() {
        GroupPlan::Inline { transform: full }
    } else {
        match bounds {
            None => GroupPlan::Skip,
            Some(b) => match layer_rect_of(b, g.has_filters, env) {
                None => GroupPlan::Skip,
                Some(rect) => {
                    let effects = g.has_effects();
                    GroupPlan::Layer(
                        LayerPlan {
                            tier: if effects {
                                IsolationTier::CachedWithEffects
                            } else {
                                IsolationTier::CachedNoEffects
                            },
                            rect,
                            key: LayerKey {
                                content: g.content_hash,
                                width: rect.width,
                                height: rect.height,
                                transform: if effects {
                                    full
                                } else {
                                    parent
                                },
                            },
                            render_base: if effects {
                                full
                            } else {
                                parent
                            },
                            draw: if effects {
                                identity_bits()
                            } else {
                                local
                            },
                        },
                    )
                },
            },
        }
    }
}

/// Decides where group `g` goes: in place (tier 0), skipped, or into a
/// layer of tier 1 (no effects: keyed and rendered under the parent
/// transform, drawn with the group's own) or tier 2 (keyed and rendered
/// under the full transform, drawn with the identity).
pub fn plan_group(
    g: &GroupFacts,
    bounds: Option<LayerBounds>,
    ctx: &Context,
    parent: Transform,
    local: Transform,
    full: Transform,
) -> (r: GroupPlan)
    requires
        ctx.max_bbox.wf(),
    ensures
        r == plan_of(*g, bounds, ctx.max_bbox, parent, local, full),
        r matches GroupPlan::Layer(p) ==> p.rect.wf(),
{
    if !g.should_isolate() {
        return GroupPlan::Inline { transform: full };
    }
    let b = match bounds {
        Some(b) => b,
        None => {
            return GroupPlan::Skip;
        },
    };
    let rect = match layer_rect(&b, g.has_filters, ctx) {
        Some(rect) => rect,
        None => {
            return GroupPlan::Skip;
        },
    };
    if g.requires_transform_before_subsampling() {
        GroupPlan::Layer(
            LayerPlan {
                tier: IsolationTier::CachedWithEffects,
                rect,
                key: LayerKey {
                    content: g.content_hash,
                    width: rect.width,
                    height: rect.height,
                    transform: full,
                },
                render_base: full,
                draw: Transform::identity(),
            },
        )
    } else {
        GroupPlan::Layer(
            LayerPlan {
                tier: IsolationTier::CachedNoEffects,
                rect,
                key: LayerKey {
                    content: g.content_hash,
                    width: rect.width,
                    height: rect.height,
                    transform: parent,
                },
                render_base: parent,
                draw: local,
            },
        )
    }
}

/// A group with opacity 1, normal blending and no filter, clip path or mask
/// is drawn in place under its full transform, exactly as its children
/// would be drawn into the parent.
pub proof fn lemma_plain_group_inlined(
    g: GroupFacts,
    bounds: Option<LayerBounds>,
    env: IntRect,
    parent: Transform,
    local: Transform,
    full: Transform,
)
    requires
        g.opacity_is_one,
        g.blend_mode == BlendMode::Normal,
        !g.has_filters,
        !g.has_clip_path,
        !g.has_mask,
    ensures
        plan_of(g, bounds, env, parent, local, full) == (GroupPlan::Inline { transform: full }),
{
}

/// A non-isolating group is planned the same whatever the layer bounds and
/// the envelope: no layer, pool buffer or cache entry takes part in drawing
/// it, so drawing it again into a zeroed buffer repeats the same steps.
pub proof fn lemma_inline_plan_ignores_layer_state(
    g: GroupFacts,
    b1: Option<LayerBounds>,
    b2: Option<LayerBounds>,
    env1: IntRect,
    env2: IntRect,
    parent: Transform,
    local: Transform,
    full: Transform,
)
    requires
        !g.isolates(),
    ensures
        plan_of(g, b1, env1, parent, local, full) == plan_of(g, b2, env2, parent, local, full),
        plan_of(g, b1, env1, parent, local, full) is Inline,
{
}

/// Two tier-1 layers of a group share a cache key only if their parent
/// transforms are bitwise equal; two tier-2 layers only if their full
/// transforms are.
pub proof fn lemma_layer_key_separates_transforms(
    g: GroupFacts,
    b1: Option<LayerBounds>,
    b2: Option<LayerBounds>,
    env: IntRect,
    parent1: Transform,
    parent2: Transform,
    local1: Transform,
    local2: Transform,
    full1: Transform,
    full2: Transform,
)
    requires
        plan_of(g, b1, env, parent1, local1, full1) is Layer,
        plan_of(g, b2, env, parent2, local2, full2) is Layer,
        plan_of(g, b1, env, parent1, local1, full1)->Layer_0.key == plan_of(
            g,
            b2,
            env,
            parent2,
            local2,
            full2,
        )->Layer_0.key,
    ensures
        plan_of(g, b1, env, parent1, local1, full1)->Layer_0.tier == IsolationTier::CachedNoEffects
            ==> parent1 == parent2,
        plan_of(g, b1, env, parent1, local1, full1)->Layer_0.tier
            == IsolationTier::CachedWithEffects ==> full1 == full2,
{
}

} // verus!
