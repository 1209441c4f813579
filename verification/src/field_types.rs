//! Plain component value types that submissions may carry, and the display
//! settings that belong to them. These are data definitions only; nothing in
//! the pipeline inspects them.

use vstd::prelude::*;

verus! {

/// An RGBA color packed into one `u32`: red in the highest byte, then green,
/// blue, and alpha in the lowest.
#[derive(PartialEq, Eq, Structural, Debug, Clone, Copy)]
pub struct ColorRGBA(pub u32);

/// The packed form of four channel values.
pub open spec fn color_packed(red: u8, green: u8, blue: u8, alpha: u8) -> u32 {
    ((red as u32) << 24u32) | ((green as u32) << 16u32) | ((blue as u32) << 8u32)
        | (alpha as u32)
}

/// The red channel of a packed color.
pub open spec fn color_red(v: u32) -> u8 {
    ((v >> 24u32) & 0xffu32) as u8
}

/// The green channel of a packed color.
pub open spec fn color_green(v: u32) -> u8 {
    ((v >> 16u32) & 0xffu32) as u8
}

/// The blue channel of a packed color.
pub open spec fn color_blue(v: u32) -> u8 {
    ((v >> 8u32) & 0xffu32) as u8
}

/// The alpha channel of a packed color.
pub open spec fn color_alpha(v: u32) -> u8 {
    (v & 0xffu32) as u8
}

impl ColorRGBA {
    /// Packs four channel values into one color.
    pub fn from_components(red: u8, green: u8, blue: u8, alpha: u8) -> (c: ColorRGBA)
        ensures
            c.0 == color_packed(red, green, blue, alpha),
    {
        ColorRGBA(
            ((red as u32) << 24u32) | ((green as u32) << 16u32) | ((blue as u32) << 8u32)
                | (alpha as u32),
        )
    }

    /// The red channel.
    pub fn red(&self) -> (v: u8)
        ensures
            v == color_red(self.0),
    {
        ((self.0 >> 24u32) & 0xffu32) as u8
    }

    /// The green channel.
    pub fn green(&self) -> (v: u8)
        ensures
            v == color_green(self.0),
    {
        ((self.0 >> 16u32) & 0xffu32) as u8
    }

    /// The blue channel.
    pub fn blue(&self) -> (v: u8)
        ensures
            v == color_blue(self.0),
    {
        ((self.0 >> 8u32) & 0xffu32) as u8
    }

    /// The alpha channel.
    pub fn alpha(&self) -> (v: u8)
        ensures
            v == color_alpha(self.0),
    {
        (self.0 & 0xffu32) as u8
    }
}

/// Reading the four channels of a packed color and packing them again gives
/// the same color back.
pub proof fn lemma_color_unpack_pack(v: u32)
    ensures
        color_packed(color_red(v), color_green(v), color_blue(v), color_alpha(v)) == v,
{
    assert((((((v >> 24u32) & 0xffu32) as u8) as u32) << 24u32) | (((((v >> 16u32) & 0xffu32)
        as u8) as u32) << 16u32) | (((((v >> 8u32) & 0xffu32) as u8) as u32) << 8u32) | (((v
        & 0xffu32) as u8) as u32) == v) by (bit_vector);
}

/// Packing four channel values and reading the channels back gives the four
/// values again.
pub proof fn lemma_color_pack_unpack(red: u8, green: u8, blue: u8, alpha: u8)
    ensures
        color_red(color_packed(red, green, blue, alpha)) == red,
        color_green(color_packed(red, green, blue, alpha)) == green,
        color_blue(color_packed(red, green, blue, alpha)) == blue,
        color_alpha(color_packed(red, green, blue, alpha)) == alpha,
{
    let v = ((red as u32) << 24u32) | ((green as u32) << 16u32) | ((blue as u32) << 8u32) | (
    alpha as u32);
    assert(((v >> 24u32) & 0xffu32) as u8 == red && ((v >> 16u32) & 0xffu32) as u8 == green && ((
    v >> 8u32) & 0xffu32) as u8 == blue && (v & 0xffu32) as u8 == alpha) by (bit_vector)
        requires
            v == ((red as u32) << 24u32) | ((green as u32) << 16u32) | ((blue as u32) << 8u32)
                | (alpha as u32),
    ;
}

/// Texture filter setting for magnification (a texel covers several pixels).
#[derive(PartialEq, Eq, Structural, Debug, Clone, Copy)]
pub enum TextureFilterMag {
    Linear,
    Nearest,
}

/// Texture filter setting for minification (several texels fall to one
/// pixel).
#[derive(PartialEq, Eq, Structural, Debug, Clone, Copy)]
pub enum TextureFilterMin {
    Linear,
    Nearest,
}

} // verus!
