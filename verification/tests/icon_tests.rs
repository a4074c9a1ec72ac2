use kakaotalk_adblock::icon::{generate_shield_icon, pixel_color, PixelShape, Rgba};

fn shape(on_outline: bool, in_shield: bool, in_block: bool) -> PixelShape {
    PixelShape { on_outline, in_shield, in_block }
}

#[test]
fn pixel_colours_by_shape() {
    let outline = Rgba { r: 0xD4, g: 0xBE, b: 0x00, a: 0xFF };
    let block = Rgba { r: 0x3C, g: 0x1E, b: 0x1E, a: 0xFF };
    let shield = Rgba { r: 0xFA, g: 0xE1, b: 0x00, a: 0xFF };
    let clear = Rgba { r: 0, g: 0, b: 0, a: 0 };
    assert_eq!(pixel_color(shape(true, true, true)), outline);
    assert_eq!(pixel_color(shape(true, true, false)), outline);
    assert_eq!(pixel_color(shape(true, false, true)), outline);
    assert_eq!(pixel_color(shape(true, false, false)), outline);
    assert_eq!(pixel_color(shape(false, true, true)), block);
    assert_eq!(pixel_color(shape(false, true, false)), shield);
    assert_eq!(pixel_color(shape(false, false, true)), clear);
    assert_eq!(pixel_color(shape(false, false, false)), clear);
}

#[test]
fn icon_data_holds_four_bytes_for_each_pixel() {
    let shapes = vec![
        shape(false, false, false),
        shape(true, true, false),
        shape(false, true, false),
        shape(false, true, true),
    ];
    assert_eq!(
        generate_shield_icon(&shapes),
        vec![
            0, 0, 0, 0, //
            0xD4, 0xBE, 0x00, 0xFF, //
            0xFA, 0xE1, 0x00, 0xFF, //
            0x3C, 0x1E, 0x1E, 0xFF,
        ]
    );
    assert_eq!(generate_shield_icon(&Vec::new()), Vec::<u8>::new());
    assert_eq!(generate_shield_icon(&vec![shape(false, false, true); 32 * 32]), vec![0u8; 32 * 32 * 4]);
}
