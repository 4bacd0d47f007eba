//! Rendering core of an SVG rasterizer: pixel buffers, a size-classed buffer
//! pool, a fingerprint-keyed layer cache and the decisions of the recursive
//! group renderer.

pub mod buffer;
pub mod cache;
pub mod clip;
pub mod geom;
pub mod image;
pub mod mask;
pub mod names;
pub mod pool;
pub mod render;
pub mod trim;

pub use buffer::{PixelBuffer, RenderError, Rgba8};
pub use pool::PixmapPool;
pub use cache::{LayerKey, LayerSlot, SvgrCache};
pub use geom::{Context, IntRect, Transform};
pub use image::PreloadedImageData;
pub use names::{AId, EId};
pub use render::{BlendMode, CompositeMode, GroupFacts, GroupPlan, IsolationTier, LayerBounds, LayerPlan};
