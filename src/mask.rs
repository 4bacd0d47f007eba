//! The last step of the mask engine: the rendered mask layer is turned into
//! a luminance or alpha mask and applied to the target.

use crate::buffer::{luminance_of, masked, PixelBuffer};
use crate::clip::{alpha_channel, alpha_mask};
use vstd::prelude::*;

verus! {

/// How a mask layer is read.
#[derive(Debug, Clone, Copy, PartialEq, Eq, Structural)]
pub enum MaskType {
    Luminance,
    Alpha,
}

/// The mask bytes of a mask layer, one per pixel.
pub open spec fn mask_values(kind: MaskType, px: Seq<u8>) -> Seq<u8> {
    match kind {
        MaskType::Luminance => luminance_of(px),
        MaskType::Alpha => alpha_channel(px),
    }
}

/// Masks `target` by the mask layer `mask` read as `kind`: every channel is
/// scaled by its pixel's mask byte, so a mask byte of 0 clears the pixel and
/// one of 255 keeps it.
pub fn apply_layer_mask(target: &mut PixelBuffer, mask: &PixelBuffer, kind: MaskType)
    requires
        old(target).wf(),
        mask.wf(),
        mask.width() == old(target).width(),
        mask.height() == old(target).height(),
    ensures
        final(target).wf(),
        final(target).width() == old(target).width(),
        final(target).height() == old(target).height(),
        final(target)@ == masked(old(target)@, mask_values(kind, mask@)),
{
    let values = match kind {
        MaskType::Luminance => mask.luminance_mask(),
        MaskType::Alpha => alpha_mask(mask),
    };
    assert(mask@.len() / 4 == target.width() * target.height());
    target.apply_mask_bytes(&values);
}

} // verus!
