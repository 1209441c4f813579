//! Tests of the component value types.

use buffered_client::field_types::{ColorRGBA, TextureFilterMag, TextureFilterMin};

#[test]
fn test_colorrgba_roundtrip() {
    let colors_in = vec![ColorRGBA(0u32), ColorRGBA(255u32)];
    let colors_out: Vec<ColorRGBA> = colors_in
        .iter()
        .map(|c| ColorRGBA::from_components(c.red(), c.green(), c.blue(), c.alpha()))
        .collect();
    assert_eq!(colors_in, colors_out);
}

#[test]
fn color_components_pack_and_unpack() {
    let c = ColorRGBA::from_components(0x01, 0x02, 0x03, 0x04);
    assert_eq!(c.0, 0x0102_0304);
    assert_eq!(c.red(), 0x01);
    assert_eq!(c.green(), 0x02);
    assert_eq!(c.blue(), 0x03);
    assert_eq!(c.alpha(), 0x04);

    let white = ColorRGBA(0xffff_ffff);
    assert_eq!(white.red(), 255);
    assert_eq!(white.alpha(), 255);

    let red_only = ColorRGBA(0xff00_0000);
    assert_eq!(red_only.red(), 255);
    assert_eq!(red_only.green(), 0);
    assert_eq!(red_only.blue(), 0);
    assert_eq!(red_only.alpha(), 0);
}

#[test]
fn texture_filters_compare_by_variant() {
    assert_eq!(TextureFilterMag::Linear, TextureFilterMag::Linear);
    assert_ne!(TextureFilterMag::Linear, TextureFilterMag::Nearest);
    assert_eq!(TextureFilterMin::Nearest, TextureFilterMin::Nearest);
    assert_ne!(TextureFilterMin::Linear, TextureFilterMin::Nearest);
}
