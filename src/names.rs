//! Element and attribute names of the SVG tree, and the classes of each.

use vstd::prelude::*;

verus! {

/// An SVG element name.
#[derive(Debug, Clone, Copy, PartialEq, Eq, Hash, Structural)]
pub enum EId {
    A,
    Circle,
    ClipPath,
    Defs,
    Ellipse,
    FeBlend,
    FeFlood,
    FeGaussianBlur,
    FeImage,
    FeMerge,
    FeOffset,
    Filter,
    G,
    Image,
    Line,
    LinearGradient,
    Marker,
    Mask,
    Path,
    Pattern,
    Polygon,
    Polyline,
    RadialGradient,
    Rect,
    Stop,
    Style,
    Svg,
    Switch,
    Symbol,
    Text,
    TextPath,
    Tref,
    Tspan,
    Use,
}

/// An SVG attribute name.
#[derive(Debug, Clone, Copy, PartialEq, Eq, Hash, Structural)]
pub enum AId {
    AlignmentBaseline,
    BaselineShift,
    Class,
    ClipPath,
    ClipPathUnits,
    ClipRule,
    Color,
    ColorInterpolation,
    ColorInterpolationFilters,
    ColorRendering,
    Cx,
    Cy,
    D,
    Direction,
    Display,
    DominantBaseline,
    Dx,
    Dy,
    EnableBackground,
    Fill,
    FillOpacity,
    FillRule,
    Filter,
    FilterUnits,
    FloodColor,
    FloodOpacity,
    FontFamily,
    FontKerning,
    FontSize,
    FontSizeAdjust,
    FontStretch,
    FontStyle,
    FontVariant,
    FontWeight,
    Fx,
    Fy,
    GlyphOrientationHorizontal,
    GlyphOrientationVertical,
    GradientTransform,
    GradientUnits,
    Height,
    Href,
    Id,
    ImageRendering,
    In,
    In2,
    Isolation,
    Kerning,
    LetterSpacing,
    LightingColor,
    MarkerEnd,
    MarkerMid,
    MarkerStart,
    Mask,
    MaskContentUnits,
    MaskUnits,
    MixBlendMode,
    Mode,
    Offset,
    Opacity,
    Overflow,
    PaintOrder,
    PatternContentUnits,
    PatternTransform,
    PatternUnits,
    Points,
    PreserveAspectRatio,
    PrimitiveUnits,
    R,
    Rx,
    Ry,
    ShapeRendering,
    SpreadMethod,
    StdDeviation,
    StopColor,
    StopOpacity,
    Stroke,
    StrokeDasharray,
    StrokeDashoffset,
    StrokeLinecap,
    StrokeLinejoin,
    StrokeMiterlimit,
    StrokeOpacity,
    StrokeWidth,
    Style,
    TextAnchor,
    TextDecoration,
    TextOverflow,
    TextRendering,
    Transform,
    TransformOrigin,
    UnicodeBidi,
    VectorEffect,
    ViewBox,
    Visibility,
    WhiteSpace,
    Width,
    WordSpacing,
    WritingMode,
    X,
    X1,
    X2,
    Y,
    Y1,
    Y2,
}

/// Elements that draw something.
pub open spec fn graphic_elements() -> Set<EId> {
    set![
        EId::Circle,
        EId::Ellipse,
        EId::Image,
        EId::Line,
        EId::Path,
        EId::Polygon,
        EId::Polyline,
        EId::Rect,
        EId::Text,
        EId::Use,
    ]
}

/// Elements that define a paint server.
pub open spec fn paint_server_elements() -> Set<EId> {
    set![EId::LinearGradient, EId::RadialGradient, EId::Pattern]
}

/// Presentation attributes, with `font-kerning`, `isolation` and
/// `mix-blend-mode` counted among them.
pub open spec fn presentation_attributes() -> Set<AId> {
    set![
        AId::AlignmentBaseline,
        AId::BaselineShift,
        AId::ClipPath,
        AId::ClipRule,
        AId::Color,
        AId::ColorInterpolation,
        AId::ColorInterpolationFilters,
        AId::ColorRendering,
        AId::Direction,
        AId::Display,
        AId::DominantBaseline,
        AId::Fill,
        AId::FillOpacity,
        AId::FillRule,
        AId::Filter,
        AId::FloodColor,
        AId::FloodOpacity,
        AId::FontFamily,
        AId::FontKerning,
        AId::FontSize,
        AId::FontSizeAdjust,
        AId::FontStretch,
        AId::FontStyle,
        AId::FontVariant,
        AId::FontWeight,
        AId::GlyphOrientationHorizontal,
        AId::GlyphOrientationVertical,
        AId::ImageRendering,
        AId::Isolation,
        AId::LetterSpacing,
        AId::LightingColor,
        AId::MarkerEnd,
        AId::MarkerMid,
        AId::MarkerStart,
        AId::Mask,
        AId::MixBlendMode,
        AId::Opacity,
        AId::Overflow,
        AId::PaintOrder,
        AId::ShapeRendering,
        AId::StopColor,
        AId::StopOpacity,
        AId::Stroke,
        AId::StrokeDasharray,
        AId::StrokeDashoffset,
        AId::StrokeLinecap,
        AId::StrokeLinejoin,
        AId::StrokeMiterlimit,
        AId::StrokeOpacity,
        AId::StrokeWidth,
        AId::TextAnchor,
        AId::TextDecoration,
        AId::TextOverflow,
        AId::TextRendering,
        AId::Transform,
        AId::UnicodeBidi,
        AId::VectorEffect,
        AId::Visibility,
        AId::WhiteSpace,
        AId::WordSpacing,
        AId::WritingMode,
    ]
}

/// Presentation attributes that a child does not inherit.
pub open spec fn non_inheritable_attributes() -> Set<AId> {
    set![
        AId::AlignmentBaseline,
        AId::BaselineShift,
        AId::ClipPath,
        AId::Display,
        AId::DominantBaseline,
        AId::Filter,
        AId::FloodColor,
        AId::FloodOpacity,
        AId::Mask,
        AId::Opacity,
        AId::Overflow,
        AId::LightingColor,
        AId::StopColor,
        AId::StopOpacity,
        AId::TextDecoration,
        AId::Transform,
    ]
}

/// Attributes that accept the value `inherit`.
pub open spec fn inherit_value_attributes() -> Set<AId> {
    set![
        AId::AlignmentBaseline,
        AId::BaselineShift,
        AId::ClipPath,
        AId::ClipRule,
        AId::Color,
        AId::ColorInterpolationFilters,
        AId::Direction,
        AId::Display,
        AId::DominantBaseline,
        AId::Fill,
        AId::FillOpacity,
        AId::FillRule,
        AId::Filter,
        AId::FloodColor,
        AId::FloodOpacity,
        AId::FontFamily,
        AId::FontKerning,
        AId::FontSize,
        AId::FontStretch,
        AId::FontStyle,
        AId::FontVariant,
        AId::FontWeight,
        AId::ImageRendering,
        AId::Kerning,
        AId::LetterSpacing,
        AId::MarkerEnd,
        AId::MarkerMid,
        AId::MarkerStart,
        AId::Mask,
        AId::Opacity,
        AId::Overflow,
        AId::ShapeRendering,
        AId::StopColor,
        AId::StopOpacity,
        AId::Stroke,
        AId::StrokeDasharray,
        AId::StrokeDashoffset,
        AId::StrokeLinecap,
        AId::StrokeLinejoin,
        AId::StrokeMiterlimit,
        AId::StrokeOpacity,
        AId::StrokeWidth,
        AId::TextAnchor,
        AId::TextDecoration,
        AId::TextRendering,
        AId::Visibility,
        AId::WordSpacing,
        AId::WritingMode,
    ]
}

impl EId {
    pub fn is_graphic(&self) -> (r: bool)
        ensures
            r == graphic_elements().contains(*self),
    {
        matches!(
            self,
            EId::Circle
            | EId::Ellipse
            | EId::Image
            | EId::Line
            | EId::Path
            | EId::Polygon
            | EId::Polyline
            | EId::Rect
            | EId::Text
            | EId::Use,
        )
    }

    pub fn is_gradient(&self) -> (r: bool)
        ensures
            r == (*self == EId::LinearGradient || *self == EId::RadialGradient),
    {
        matches!(self, EId::LinearGradient | EId::RadialGradient)
    }

    pub fn is_paint_server(&self) -> (r: bool)
        ensures
            r == paint_server_elements().contains(*self),
    {
        matches!(self, EId::LinearGradient | EId::RadialGradient | EId::Pattern)
    }
}

impl AId {
    pub fn is_presentation(&self) -> (r: bool)
        ensures
            r == presentation_attributes().contains(*self),
    {
        matches!(
            self,
            AId::AlignmentBaseline
            | AId::BaselineShift
            | AId::ClipPath
            | AId::ClipRule
            | AId::Color
            | AId::ColorInterpolation
            | AId::ColorInterpolationFilters
            | AId::ColorRendering
            | AId::Direction
            | AId::Display
            | AId::DominantBaseline
            | AId::Fill
            | AId::FillOpacity
            | AId::FillRule
            | AId::Filter
            | AId::FloodColor
            | AId::FloodOpacity
            | AId::FontFamily
            | AId::FontKerning
            | AId::FontSize
            | AId::FontSizeAdjust
            | AId::FontStretch
            | AId::FontStyle
            | AId::FontVariant
            | AId::FontWeight
            | AId::GlyphOrientationHorizontal
            | AId::GlyphOrientationVertical
            | AId::ImageRendering
            | AId::Isolation
            | AId::LetterSpacing
            | AId::LightingColor
            | AId::MarkerEnd
            | AId::MarkerMid
            | AId::MarkerStart
            | AId::Mask
            | AId::MixBlendMode
            | AId::Opacity
            | AId::Overflow
            | AId::PaintOrder
            | AId::ShapeRendering
            | AId::StopColor
            | AId::StopOpacity
            | AId::Stroke
            | AId::StrokeDasharray
            | AId::StrokeDashoffset
            | AId::StrokeLinecap
            | AId::StrokeLinejoin
            | AId::StrokeMiterlimit
            | AId::StrokeOpacity
            | AId::StrokeWidth
            | AId::TextAnchor
            | AId::TextDecoration
            | AId::TextOverflow
            | AId::TextRendering
            | AId::Transform
            | AId::UnicodeBidi
            | AId::VectorEffect
            | AId::Visibility
            | AId::WhiteSpace
            | AId::WordSpacing
            | AId::WritingMode,
        )
    }

    /// A presentation attribute that children inherit.
    pub fn is_inheritable(&self) -> (r: bool)
        ensures
            r == (presentation_attributes().contains(*self)
                && !non_inheritable_attributes().contains(*self)),
    {
        if self.is_presentation() {
            !is_non_inheritable(*self)
        } else {
            false
        }
    }

    pub fn allows_inherit_value(&self) -> (r: bool)
        ensures
            r == inherit_value_attributes().contains(*self),
    {
        matches!(
            self,
            AId::AlignmentBaseline
            | AId::BaselineShift
            | AId::ClipPath
            | AId::ClipRule
            | AId::Color
            | AId::ColorInterpolationFilters
            | AId::Direction
            | AId::Display
            | AId::DominantBaseline
            | AId::Fill
            | AId::FillOpacity
            | AId::FillRule
            | AId::Filter
            | AId::FloodColor
            | AId::FloodOpacity
            | AId::FontFamily
            | AId::FontKerning
            | AId::FontSize
            | AId::FontStretch
            | AId::FontStyle
            | AId::FontVariant
            | AId::FontWeight
            | AId::ImageRendering
            | AId::Kerning
            | AId::LetterSpacing
            | AId::MarkerEnd
            | AId::MarkerMid
            | AId::MarkerStart
            | AId::Mask
            | AId::Opacity
            | AId::Overflow
            | AId::ShapeRendering
            | AId::StopColor
            | AId::StopOpacity
            | AId::Stroke
            | AId::StrokeDasharray
            | AId::StrokeDashoffset
            | AId::StrokeLinecap
            | AId::StrokeLinejoin
            | AId::StrokeMiterlimit
            | AId::StrokeOpacity
            | AId::StrokeWidth
            | AId::TextAnchor
            | AId::TextDecoration
            | AId::TextRendering
            | AId::Visibility
            | AId::WordSpacing
            | AId::WritingMode,
        )
    }
}

fn is_non_inheritable(id: AId) -> (r: bool)
    ensures
        r == non_inheritable_attributes().contains(id),
{
    matches!(
        id,
        AId::AlignmentBaseline
        | AId::BaselineShift
        | AId::ClipPath
        | AId::Display
        | AId::DominantBaseline
        | AId::Filter
        | AId::FloodColor
        | AId::FloodOpacity
        | AId::Mask
        | AId::Opacity
        | AId::Overflow
        | AId::LightingColor
        | AId::StopColor
        | AId::StopOpacity
        | AId::TextDecoration
        | AId::Transform,
    )
}

} // verus!
