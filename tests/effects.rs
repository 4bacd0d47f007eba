use svgr::buffer::{PixelBuffer, Rgba8};
use svgr::clip::{alpha_mask, apply_clip_mask, invert_mask};
use svgr::mask::{apply_layer_mask, MaskType};

fn buffer(w: u32, h: u32, pixels: &[[u8; 4]]) -> PixelBuffer {
    let bytes: Vec<u8> = pixels.iter().flat_map(|p| p.iter().copied()).collect();
    PixelBuffer::from_storage(bytes, w, h).unwrap()
}

#[test]
fn clip_clears_where_the_clip_layer_is_opaque() {
    let mut target = buffer(2, 1, &[[10, 20, 30, 40], [50, 60, 70, 80]]);
    let clip = buffer(2, 1, &[[0, 0, 0, 255], [0, 0, 0, 0]]);
    apply_clip_mask(&mut target, &clip);
    assert_eq!(target.bytes(), &[0, 0, 0, 0, 50, 60, 70, 80][..]);
}

#[test]
fn clip_applied_twice_equals_once() {
    let mut once = buffer(3, 1, &[[1, 2, 3, 4], [5, 6, 7, 8], [9, 9, 9, 9]]);
    let clip = buffer(3, 1, &[[0, 0, 0, 0], [0, 0, 0, 255], [0, 0, 0, 0]]);
    apply_clip_mask(&mut once, &clip);
    let mut twice = buffer(3, 1, &[[1, 2, 3, 4], [5, 6, 7, 8], [9, 9, 9, 9]]);
    apply_clip_mask(&mut twice, &clip);
    apply_clip_mask(&mut twice, &clip);
    assert_eq!(once.bytes(), twice.bytes());
}

#[test]
fn nested_clip_layers_compose() {
    // The inner clip layer is itself clipped before it clips the target.
    let mut inner = buffer(2, 1, &[[0, 0, 0, 255], [0, 0, 0, 255]]);
    let outer = buffer(2, 1, &[[0, 0, 0, 0], [0, 0, 0, 255]]);
    apply_clip_mask(&mut inner, &outer);
    assert_eq!(inner.bytes(), &[0, 0, 0, 255, 0, 0, 0, 0][..]);
    let mut target = buffer(2, 1, &[[7, 7, 7, 7], [8, 8, 8, 8]]);
    apply_clip_mask(&mut target, &inner);
    assert_eq!(target.bytes(), &[0, 0, 0, 0, 8, 8, 8, 8][..]);
}

#[test]
fn alpha_mask_and_invert() {
    let b = buffer(2, 1, &[[1, 2, 3, 4], [5, 6, 7, 200]]);
    let mut m = alpha_mask(&b);
    assert_eq!(m, vec![4, 200]);
    invert_mask(&mut m);
    assert_eq!(m, vec![251, 55]);
}

#[test]
fn luminance_mask() {
    // A green square under a mask whose corner is transparent and whose
    // centre is opaque green.
    let mut square = PixelBuffer::new(3, 3).unwrap();
    square.fill(Rgba8 { r: 0, g: 128, b: 0, a: 255 });
    let mut mask = PixelBuffer::new(3, 3).unwrap();
    {
        let bytes = mask.bytes_mut();
        let center = 4 * 4;
        bytes[center + 1] = 255;
        bytes[center + 3] = 255;
    }
    apply_layer_mask(&mut square, &mask, MaskType::Luminance);
    let px = square.bytes();
    assert_eq!(&px[0..4], &[0, 0, 0, 0]);
    let center_alpha = px[4 * 4 + 3] as i32;
    let expected = (255.0f32 * 0.7152) as i32;
    assert!((center_alpha - expected).abs() <= 2, "center alpha {}", center_alpha);
}

#[test]
fn alpha_mask_keeps_opaque_and_clears_transparent() {
    let mut target = buffer(2, 1, &[[9, 9, 9, 9], [4, 4, 4, 4]]);
    let mask = buffer(2, 1, &[[0, 0, 0, 255], [0, 0, 0, 0]]);
    apply_layer_mask(&mut target, &mask, MaskType::Alpha);
    assert_eq!(target.bytes(), &[9, 9, 9, 9, 0, 0, 0, 0][..]);
}
