use svgr::image::PreloadedImageData;
use svgr::names::{AId, EId};

#[test]
fn blend_rgba_slice_premultiplies_colors() {
    let out = PreloadedImageData::blend_rgba_slice(&[255, 128, 64, 128, 10, 20, 30, 0, 9, 8, 7, 255]);
    assert_eq!(out, vec![128, 64, 32, 128, 0, 0, 0, 0, 9, 8, 7, 255]);
    assert!(PreloadedImageData::blend_rgba_slice(&[]).is_empty());
}

#[test]
fn new_blends_and_new_blended_copies() {
    let img = PreloadedImageData::new("a".to_string(), 1, 1, &[200, 100, 50, 51]);
    assert_eq!(img.data, vec![40, 20, 10, 51]);
    assert_eq!((img.width, img.height, img.id.as_str()), (1, 1, "a"));
    let raw = PreloadedImageData::new_blended("b".to_string(), 1, 1, &[200, 100, 50, 51]);
    assert_eq!(raw.data, vec![200, 100, 50, 51]);
    assert_eq!(raw.id, "b");
}

#[test]
fn element_classes() {
    assert!(EId::Rect.is_graphic());
    assert!(EId::Use.is_graphic());
    assert!(!EId::G.is_graphic());
    assert!(EId::LinearGradient.is_gradient());
    assert!(!EId::Pattern.is_gradient());
    assert!(EId::Pattern.is_paint_server());
    assert!(!EId::Mask.is_paint_server());
}

#[test]
fn attribute_classes() {
    assert!(AId::Fill.is_presentation());
    assert!(!AId::Href.is_presentation());
    assert!(AId::Fill.is_inheritable());
    assert!(!AId::Opacity.is_inheritable());
    assert!(!AId::Transform.is_inheritable());
    assert!(!AId::X.is_inheritable());
    assert!(AId::Kerning.allows_inherit_value());
    assert!(!AId::Transform.allows_inherit_value());
}
