//! The last step of the clip engine: the rendered clip layer (black where
//! the clip path does not reach, transparent where it does) is turned into
//! an inverted alpha mask and applied to the target.

use crate::buffer::{lemma_scale_by_mask_edges, masked, PixelBuffer};
use vstd::prelude::*;

verus! {

/// The alpha byte of each pixel of `px`.
pub open spec fn alpha_channel(px: Seq<u8>) -> Seq<u8> {
    Seq::new(px.len() / 4, |p: int| px[4 * p + 3])
}

/// The inverted alpha of each pixel of a clip layer: 255 where the clip
/// path reaches, 0 where it does not.
pub open spec fn clip_mask_of(clip: Seq<u8>) -> Seq<u8> {
    Seq::new(clip.len() / 4, |p: int| (255 - clip[4 * p + 3]) as u8)
}

/// Whether every pixel of `px` is fully opaque or fully transparent.
pub open spec fn binary_alpha(px: Seq<u8>) -> bool {
    forall|p: int| 0 <= p < px.len() / 4 ==> #[trigger] px[4 * p + 3] == 0 || px[4 * p + 3] == 255
}

/// `target` clipped by a clip layer whose alphas are 0 or 255: pixels under
/// an opaque clip pixel are cleared, the others kept.
pub open spec fn clipped(target: Seq<u8>, clip: Seq<u8>) -> Seq<u8> {
    Seq::new(
        target.len(),
        |i: int|
            if clip[4 * (i / 4) + 3] == 255 {
                0u8
            } else {
                target[i]
            },
    )
}

/// The alpha byte of each pixel of `buf`.
pub fn alpha_mask(buf: &PixelBuffer) -> (r: Vec<u8>)
    requires
        buf.wf(),
    ensures
        r@ == alpha_channel(buf@),
{
    let bytes = buf.bytes();
    let n = bytes.len() / 4;
    let mut out: Vec<u8> = Vec::new();
    let mut p: usize = 0;
    while p < n
        invariant
            p <= n,
            n == bytes@.len() / 4,
            bytes@.len() <= usize::MAX,
            bytes@ == buf@,
            out@ == alpha_channel(buf@).subrange(0, p as int),
        decreases n - p,
    {
        assert(4 * p + 3 < bytes@.len());
        out.push(bytes[4 * p + 3]);
        p = p + 1;
        assert(out@ =~= alpha_channel(buf@).subrange(0, p as int));
    }
    assert(out@ =~= alpha_channel(buf@));
    out
}

/// Replaces every byte `a` of `mask` by `255 - a`.
pub fn invert_mask(mask: &mut Vec<u8>)
    ensures
        final(mask)@.len() == old(mask)@.len(),
        forall|i: int| 0 <= i < old(mask)@.len() ==> #[trigger] final(mask)@[i] == 255 - old(mask)@[i],
{
    let n = mask.len();
    let mut i: usize = 0;
    while i < n
        invariant
            i <= n,
            n == mask@.len(),
            n == old(mask)@.len(),
            forall|j: int| 0 <= j < i ==> #[trigger] mask@[j] == 255 - old(mask)@[j],
            forall|j: int| i <= j < n ==> #[trigger] mask@[j] == old(mask)@[j],
        decreases n - i,
    {
        let a = mask[i];
        mask.set(i, 255 - a);
        i = i + 1;
    }
}

/// Masks `target` by the inverted alpha of the clip layer `clip`: where the
/// clip layer is opaque the target is cleared, where it is transparent the
/// target is kept, and in between it is scaled. With a clip layer of only
/// opaque and transparent pixels the result is exactly `clipped`.
pub fn apply_clip_mask(target: &mut PixelBuffer, clip: &PixelBuffer)
    requires
        old(target).wf(),
        clip.wf(),
        clip.width() == old(target).width(),
        clip.height() == old(target).height(),
    ensures
        final(target).wf(),
        final(target).width() == old(target).width(),
        final(target).height() == old(target).height(),
        final(target)@ == masked(old(target)@, clip_mask_of(clip@)),
        forall|i: int|
            0 <= i < old(target)@.len() && clip@[4 * (i / 4) + 3] == 255 ==> #[trigger] final(target)@[i] == 0,
        forall|i: int|
            0 <= i < old(target)@.len() && clip@[4 * (i / 4) + 3] == 0 ==> #[trigger] final(target)@[i]
                == old(target)@[i],
        binary_alpha(clip@) ==> final(target)@ == clipped(old(target)@, clip@),
{
    let mut mask = alpha_mask(clip);
    invert_mask(&mut mask);
    let ghost w = target.width() as int;
    let ghost h = target.height() as int;
    assert(clip@.len() / 4 == w * h);
    assert(mask@ =~= clip_mask_of(clip@));
    let ghost before = target@;
    target.apply_mask_bytes(&mask);
    assert forall|i: int| 0 <= i < before.len() implies 0 <= i / 4 < w * h && 4 * (i / 4) + 3
        < clip@.len() && #[trigger] target@[i] == masked(before, mask@)[i] && mask@[i / 4] == 255
        - clip@[4 * (i / 4) + 3] by {
        lemma_scale_by_mask_edges(before[i]);
    }
    assert forall|i: int| 0 <= i < before.len() && clip@[4 * (i / 4) + 3] == 255 implies #[trigger] target@[i] == 0 by {
        lemma_scale_by_mask_edges(before[i]);
    }
    assert forall|i: int| 0 <= i < before.len() && clip@[4 * (i / 4) + 3] == 0 implies #[trigger] target@[i] == before[i] by {
        lemma_scale_by_mask_edges(before[i]);
    }
    proof {
        if binary_alpha(clip@) {
            assert forall|i: int| 0 <= i < before.len() implies #[trigger] target@[i] == clipped(
                before,
                clip@,
            )[i] by {
                let p = i / 4;
                assert(0 <= p < clip@.len() / 4);
                assert(clip@[4 * p + 3] == 0 || clip@[4 * p + 3] == 255);
                lemma_scale_by_mask_edges(before[i]);
            }
            assert(target@ =~= clipped(before, clip@));
        }
    }
}

/// Clipping twice by the same clip layer clips once, when the layer's
/// pixels are each fully opaque or fully transparent.
pub proof fn lemma_clip_idempotent(target: Seq<u8>, clip: Seq<u8>)
    requires
        binary_alpha(clip),
        target.len() == clip.len(),
    ensures
        clipped(clipped(target, clip), clip) == clipped(target, clip),
{
    assert(clipped(clipped(target, clip), clip) =~= clipped(target, clip));
}

} // verus!
