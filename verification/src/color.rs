//! Colours: three 8-bit channels, packed into a word for display.

use vstd::prelude::*;
use crate::math::Vec3i;

verus! {

/// The lighting level that leaves a colour as it is.
pub const FULL_LIGHT: u8 = 255;

/// The least lighting level that a surface is drawn with, so that no unlit
/// face turns fully black: a twentieth of full light.
pub const LIGHT_FLOOR: u8 = 13;

/// A colour without an alpha channel.
#[derive(Debug, Clone, Copy, PartialEq, Eq, Structural)]
pub struct Color {
    pub red: u8,
    pub green: u8,
    pub blue: u8,
}

/// The word `0x00RRGGBB` of three channels.
pub open spec fn pack_rgb(red: u8, green: u8, blue: u8) -> u32 {
    (red * 0x1_0000 + green * 0x100 + blue) as u32
}

/// A channel under the lighting level `level`, where `FULL_LIGHT` stands
/// for one: the product, rounded down.
pub open spec fn scale_channel(channel: u8, level: u8) -> u8 {
    ((channel * level) / 255) as u8
}

/// The lighting level that is applied for a measured level: the level
/// itself, but never less than `LIGHT_FLOOR`.
pub open spec fn floored_light(level: u8) -> u8 {
    if level < LIGHT_FLOOR {
        LIGHT_FLOOR
    } else {
        level
    }
}

impl Color {
    pub fn cons(red: u8, green: u8, blue: u8) -> (c: Color)
        ensures
            c == (Color { red, green, blue }),
    {
        Color { red, green, blue }
    }

    /// The colour that `self` turns into under the lighting level `level`.
    pub open spec fn attenuated(self, level: u8) -> Color {
        Color {
            red: scale_channel(self.red, level),
            green: scale_channel(self.green, level),
            blue: scale_channel(self.blue, level),
        }
    }

    /// The colour as the word `0x00RRGGBB`.
    pub open spec fn packed(self) -> u32 {
        pack_rgb(self.red, self.green, self.blue)
    }

    /// The colour as the word `0x00RRGGBB`.
    pub fn to_u32(self) -> (w: u32)
        ensures
            w == self.packed(),
    {
        let r: u32 = self.red as u32;
        let g: u32 = self.green as u32;
        let b: u32 = self.blue as u32;
        assert(((r << 16) | (g << 8) | b) == r * 0x1_0000 + g * 0x100 + b) by (bit_vector)
            requires
                r < 256,
                g < 256,
                b < 256,
        ;
        (r << 16) | (g << 8) | b
    }

    /// The three channels as a vector: red, green, blue.
    pub fn as_vec3i(&self) -> (v: Vec3i)
        ensures
            v.x == self.red,
            v.y == self.green,
            v.z == self.blue,
    {
        Vec3i::cons(self.red as i32, self.green as i32, self.blue as i32)
    }

    /// Dims the colour to the lighting level `value`, where `FULL_LIGHT`
    /// stands for one. No channel grows and none wraps.
    pub fn attenuate(&mut self, value: u8)
        ensures
            *final(self) == old(self).attenuated(value),
            final(self).red <= old(self).red,
            final(self).green <= old(self).green,
            final(self).blue <= old(self).blue,
    {
        self.red = scale(self.red, value);
        self.green = scale(self.green, value);
        self.blue = scale(self.blue, value);
    }

    /// Dims the colour to the lighting level `lumin`, but to no less than
    /// `LIGHT_FLOOR`.
    pub fn lighting(&mut self, lumin: u8)
        ensures
            *final(self) == old(self).attenuated(floored_light(lumin)),
    {
        let level: u8 = if lumin < LIGHT_FLOOR {
            LIGHT_FLOOR
        } else {
            lumin
        };
        self.attenuate(level);
    }

    /// All three channels are zero.
    pub fn is_black(&self) -> (b: bool)
        ensures
            b <==> (self.red == 0 && self.green == 0 && self.blue == 0),
    {
        self.red == 0 && self.green == 0 && self.blue == 0
    }
}

fn scale(channel: u8, level: u8) -> (r: u8)
    ensures
        r == scale_channel(channel, level),
        r <= channel,
{
    assert(channel * level <= channel * 255 <= 65025) by (nonlinear_arith)
        requires
            0 <= channel <= 255,
            0 <= level <= 255,
    ;
    let product: u32 = channel as u32 * level as u32;
    (product / 255) as u8
}

/// The colour word that a small tag stands for; every tag without a colour
/// of its own stands for black.
pub fn color_tag(tag: u8) -> (w: u32)
    ensures
        w == tag_color(tag),
{
    match tag {
        1 => 0xff00ffff,
        2 => 0xffff2222,
        3 => 0xff666666,
        4 => 0xffff4444,
        _ => 0xff000000,
    }
}

/// The colour word of each tag: cyan, rusty red, grey, bright red, and
/// black for all others.
pub open spec fn tag_color(tag: u8) -> u32 {
    if tag == 1 {
        0xff00ffff
    } else if tag == 2 {
        0xffff2222
    } else if tag == 3 {
        0xff666666
    } else if tag == 4 {
        0xffff4444
    } else {
        0xff000000
    }
}

} // verus!
