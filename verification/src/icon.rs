//! Tray icon generation
//!
//! Colours the shield icon for the ad blocker. Which pixels lie on the
//! shield, on its outline and on the block symbol is for the caller to say;
//! this module turns that into RGBA pixel data.

use vstd::prelude::*;

verus! {

/// Where a pixel lies with respect to the shapes of the icon.
#[derive(Clone, Copy, Debug, PartialEq, Eq)]
pub struct PixelShape {
    /// On the outline of the shield.
    pub on_outline: bool,
    /// Inside the shield, outline included.
    pub in_shield: bool,
    /// Inside the block symbol.
    pub in_block: bool,
}

/// A colour as red, green, blue and alpha.
#[derive(Clone, Copy, Debug, PartialEq, Eq)]
pub struct Rgba {
    pub r: u8,
    pub g: u8,
    pub b: u8,
    pub a: u8,
}

/// Colour of the shield: KakaoTalk yellow.
pub open spec fn shield_color() -> Rgba {
    Rgba { r: 0xFA, g: 0xE1, b: 0x00, a: 0xFF }
}

/// Colour of the block symbol: dark brown.
pub open spec fn block_color() -> Rgba {
    Rgba { r: 0x3C, g: 0x1E, b: 0x1E, a: 0xFF }
}

/// Colour of the outline: a darker yellow.
pub open spec fn outline_color() -> Rgba {
    Rgba { r: 0xD4, g: 0xBE, b: 0x00, a: 0xFF }
}

/// No colour at all: fully transparent.
pub open spec fn transparent() -> Rgba {
    Rgba { r: 0, g: 0, b: 0, a: 0 }
}

/// The colour of a pixel. The outline goes over everything; inside the
/// shield the block symbol goes over the shield; outside the shield the
/// pixel is transparent.
pub open spec fn color_of(shape: PixelShape) -> Rgba {
    if shape.on_outline {
        outline_color()
    } else if shape.in_shield {
        if shape.in_block {
            block_color()
        } else {
            shield_color()
        }
    } else {
        transparent()
    }
}

/// The pixel data of an image: four bytes for each pixel, red first.
pub open spec fn pixel_data(shapes: Seq<PixelShape>) -> Seq<u8>
    decreases shapes.len(),
{
    if shapes.len() == 0 {
        Seq::<u8>::empty()
    } else {
        let color = color_of(shapes.last());
        pixel_data(shapes.drop_last()).push(color.r).push(color.g).push(color.b).push(color.a)
    }
}

/// The pixel data holds four bytes for each pixel, and the bytes of pixel
/// `i` are its colour.
pub proof fn lemma_pixel_data_layout(shapes: Seq<PixelShape>, i: int)
    requires
        0 <= i < shapes.len(),
    ensures
        pixel_data(shapes).len() == 4 * shapes.len(),
        pixel_data(shapes)[4 * i] == color_of(shapes[i]).r,
        pixel_data(shapes)[4 * i + 1] == color_of(shapes[i]).g,
        pixel_data(shapes)[4 * i + 2] == color_of(shapes[i]).b,
        pixel_data(shapes)[4 * i + 3] == color_of(shapes[i]).a,
    decreases shapes.len(),
{
    lemma_pixel_data_len(shapes);
    lemma_pixel_data_len(shapes.drop_last());
    if i < shapes.len() - 1 {
        lemma_pixel_data_layout(shapes.drop_last(), i);
    }
}

proof fn lemma_pixel_data_len(shapes: Seq<PixelShape>)
    ensures
        pixel_data(shapes).len() == 4 * shapes.len(),
    decreases shapes.len(),
{
    if shapes.len() > 0 {
        lemma_pixel_data_len(shapes.drop_last());
    }
}

/// The colour of one pixel.
pub fn pixel_color(shape: PixelShape) -> (color: Rgba)
    ensures
        color == color_of(shape),
{
    if shape.on_outline {
        Rgba { r: 0xD4, g: 0xBE, b: 0x00, a: 0xFF }
    } else if shape.in_shield {
        // Check if in the "block" symbol (diagonal line)
        if shape.in_block {
            Rgba { r: 0x3C, g: 0x1E, b: 0x1E, a: 0xFF }
        } else {
            Rgba { r: 0xFA, g: 0xE1, b: 0x00, a: 0xFF }
        }
    } else {
        Rgba { r: 0, g: 0, b: 0, a: 0 }
    }
}

/// Generate a shield icon with block symbol
/// Returns RGBA pixel data
pub fn generate_shield_icon(shapes: &Vec<PixelShape>) -> (rgba: Vec<u8>)
    ensures
        rgba@ == pixel_data(shapes@),
{
    let mut rgba: Vec<u8> = Vec::new();
    let mut i: usize = 0;
    assert(shapes@.take(0) == Seq::<PixelShape>::empty());
    while i < shapes.len()
        invariant
            i <= shapes.len(),
            rgba@ == pixel_data(shapes@.take(i as int)),
        decreases shapes.len() - i,
    {
        assert(shapes@.take(i + 1).drop_last() == shapes@.take(i as int));
        let color = pixel_color(shapes[i]);
        rgba.push(color.r);
        rgba.push(color.g);
        rgba.push(color.b);
        rgba.push(color.a);
        i += 1;
    }
    assert(shapes@.take(shapes.len() as int) == shapes@);
    rgba
}

} // verus!
