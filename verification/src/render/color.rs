use vstd::prelude::*;

verus! {

/// A color packed into 32 bits: red in bits 16 to 23, green in bits 8 to 15,
/// blue in bits 0 to 7, and (for colors made by [Color::from_rgba]) alpha in
/// bits 24 to 31.
#[derive(Clone, Copy, Debug, PartialEq, Eq, Structural, PartialOrd, Ord, Hash)]
pub struct Color(pub u32);

/// The packed word of the opaque color with channels `r`, `g`, `b`.
pub open spec fn pack_rgb(r: u8, g: u8, b: u8) -> u32 {
    (r as int * 0x1_0000 + g as int * 0x100 + b as int) as u32
}

/// A channel scaled by `a / 255`, rounded down.
pub open spec fn premultiply(channel: u8, a: u8) -> u8 {
    (channel as int * a as int / 255) as u8
}

/// The packed word of the color with alpha `a` and with each of `r`, `g`, `b`
/// premultiplied by it.
pub open spec fn pack_rgba(r: u8, g: u8, b: u8, a: u8) -> u32 {
    (a as int * 0x100_0000 + pack_rgb(premultiply(r, a), premultiply(g, a), premultiply(b, a))) as u32
}

/// Scales a channel by `a / 255`.
fn scale(channel: u8, a: u8) -> (s: u8)
    ensures
        s == premultiply(channel, a),
{
    assert(0 <= channel as int * a as int <= 255 * 255) by (nonlinear_arith)
        requires
            0 <= channel <= 255,
            0 <= a <= 255,
    ;
    let product: u32 = channel as u32 * a as u32;
    (product / 255) as u8
}

impl Color {
    /// Pure red.
    pub fn red() -> (c: Color)
        ensures
            c == Color(pack_rgb(255, 0, 0)),
    {
        Color(0xFF0000)
    }

    /// Pure green.
    pub fn green() -> (c: Color)
        ensures
            c == Color(pack_rgb(0, 255, 0)),
    {
        Color(0x00FF00)
    }

    /// Pure blue.
    pub fn blue() -> (c: Color)
        ensures
            c == Color(pack_rgb(0, 0, 255)),
    {
        Color(0x0000FF)
    }

    /// Red and green.
    pub fn yellow() -> (c: Color)
        ensures
            c == Color(pack_rgb(255, 255, 0)),
    {
        Color(0xFFFF00)
    }

    /// Green and blue.
    pub fn cyan() -> (c: Color)
        ensures
            c == Color(pack_rgb(0, 255, 255)),
    {
        Color(0x00FFFF)
    }

    /// Red and blue.
    pub fn magenta() -> (c: Color)
        ensures
            c == Color(pack_rgb(255, 0, 255)),
    {
        Color(0xFF00FF)
    }

    /// All channels off.
    pub fn black() -> (c: Color)
        ensures
            c == Color(pack_rgb(0, 0, 0)),
    {
        Color(0x000000)
    }

    /// All channels full.
    pub fn white() -> (c: Color)
        ensures
            c == Color(pack_rgb(255, 255, 255)),
    {
        Color(0xFFFFFF)
    }

    /// All channels half.
    pub fn gray() -> (c: Color)
        ensures
            c == Color(pack_rgb(128, 128, 128)),
    {
        Color(0x808080)
    }

    /// Half red and half blue.
    pub fn purple() -> (c: Color)
        ensures
            c == Color(pack_rgb(128, 0, 128)),
    {
        Color(0x800080)
    }

    /// The same color as cyan.
    pub fn aqua() -> (c: Color)
        ensures
            c == Color(pack_rgb(0, 255, 255)),
    {
        Color(0x00FFFF)
    }

    /// Full red over a good half of green.
    pub fn orange() -> (c: Color)
        ensures
            c == Color(pack_rgb(255, 165, 0)),
    {
        Color(0xFFA500)
    }

    /// A light violet.
    pub fn pink() -> (c: Color)
        ensures
            c == Color(pack_rgb(238, 130, 238)),
    {
        Color(0xEE82EE)
    }

    /// A greenish blue.
    pub fn turquoise() -> (c: Color)
        ensures
            c == Color(pack_rgb(64, 224, 208)),
    {
        Color(0x40E0D0)
    }

    /// The red channel: bits 16 to 23.
    pub open spec fn r(self) -> u8 {
        (self.0 as int / 0x1_0000 % 0x100) as u8
    }

    /// The green channel: bits 8 to 15.
    pub open spec fn g(self) -> u8 {
        (self.0 as int / 0x100 % 0x100) as u8
    }

    /// The blue channel: bits 0 to 7.
    pub open spec fn b(self) -> u8 {
        (self.0 as int % 0x100) as u8
    }

    /// The alpha channel: bits 24 to 31.
    pub open spec fn a(self) -> u8 {
        (self.0 as int / 0x100_0000) as u8
    }

    /// Create a new Color from RGB values.
    pub fn from_rgb(r: u8, g: u8, b: u8) -> (c: Color)
        ensures
            c.0 == pack_rgb(r, g, b),
            c.r() == r,
            c.g() == g,
            c.b() == b,
            c.a() == 0,
    {
        let (r32, g32, b32) = (r as u32, g as u32, b as u32);
        assert(((r32 << 16) | (g32 << 8) | b32) == r32 * 0x1_0000 + g32 * 0x100 + b32) by (bit_vector)
            requires
                r32 < 256,
                g32 < 256,
                b32 < 256,
        ;
        Color((r32 << 16) | (g32 << 8) | b32)
    }

    /// Convert Color to RGB values.
    pub fn to_rgb(self) -> (rgb: (u8, u8, u8))
        ensures
            rgb == (self.r(), self.g(), self.b()),
    {
        let w: u32 = self.0;
        assert((w >> 16) & 0xFF == w / 0x1_0000 % 0x100) by (bit_vector);
        assert((w >> 8) & 0xFF == w / 0x100 % 0x100) by (bit_vector);
        assert(w & 0xFF == w % 0x100) by (bit_vector);
        let r = ((w >> 16) & 0xFF) as u8;
        let g = ((w >> 8) & 0xFF) as u8;
        let b = (w & 0xFF) as u8;
        (r, g, b)
    }

    /// Create a new Color from RGBA values: the alpha is stored as it is, and
    /// each of the other channels is premultiplied by it.
    pub fn from_rgba(r: u8, g: u8, b: u8, a: u8) -> (c: Color)
        ensures
            c.0 == pack_rgba(r, g, b, a),
            c.a() == a,
            c.r() == premultiply(r, a),
            c.g() == premultiply(g, a),
            c.b() == premultiply(b, a),
    {
        let a32: u32 = a as u32;
        let r32: u32 = scale(r, a) as u32;
        let g32: u32 = scale(g, a) as u32;
        let b32: u32 = scale(b, a) as u32;
        assert(((a32 << 24) | (r32 << 16) | (g32 << 8) | b32) == a32 * 0x100_0000 + r32 * 0x1_0000
            + g32 * 0x100 + b32) by (bit_vector)
            requires
                a32 < 256,
                r32 < 256,
                g32 < 256,
                b32 < 256,
        ;
        proof {
            lemma_channels(r32 as u8, g32 as u8, b32 as u8, a);
        }
        Color((a32 << 24) | (r32 << 16) | (g32 << 8) | b32)
    }
}

impl Default for Color {
    /// The default color is black.
    fn default() -> (c: Color)
        ensures
            c == Color(0),
    {
        Color(0)
    }
}

/// The channels of a word that was put together from four bytes are those
/// bytes.
pub proof fn lemma_channels(r: u8, g: u8, b: u8, a: u8)
    ensures
        a as int * 0x100_0000 + pack_rgb(r, g, b) <= u32::MAX,
        Color((a as int * 0x100_0000 + pack_rgb(r, g, b)) as u32).r() == r,
        Color((a as int * 0x100_0000 + pack_rgb(r, g, b)) as u32).g() == g,
        Color((a as int * 0x100_0000 + pack_rgb(r, g, b)) as u32).b() == b,
        Color((a as int * 0x100_0000 + pack_rgb(r, g, b)) as u32).a() == a,
{
    let (r32, g32, b32, a32) = (r as u32, g as u32, b as u32, a as u32);
    let w: u32 = (a32 * 0x100_0000 + r32 * 0x1_0000 + g32 * 0x100 + b32) as u32;
    assert(w / 0x1_0000 % 0x100 == r32 && w / 0x100 % 0x100 == g32 && w % 0x100 == b32 && w
        / 0x100_0000 == a32) by (bit_vector)
        requires
            w == a32 * 0x100_0000 + r32 * 0x1_0000 + g32 * 0x100 + b32,
            r32 < 256,
            g32 < 256,
            b32 < 256,
            a32 < 256,
    ;
}

/// Packing three channels and unpacking the word gives the channels back.
pub proof fn lemma_rgb_roundtrip(r: u8, g: u8, b: u8)
    ensures
        Color(pack_rgb(r, g, b)).r() == r,
        Color(pack_rgb(r, g, b)).g() == g,
        Color(pack_rgb(r, g, b)).b() == b,
        Color(pack_rgb(r, g, b)).a() == 0,
{
    lemma_channels(r, g, b, 0);
}

/// Unpacking a word without alpha bits and packing its channels gives the
/// word back.
pub proof fn lemma_rgb_repack(c: Color)
    requires
        c.a() == 0,
    ensures
        pack_rgb(c.r(), c.g(), c.b()) == c.0,
{
    let w: u32 = c.0;
    assert(w / 0x100_0000 == 0 ==> (w / 0x1_0000 % 0x100) * 0x1_0000 + (w / 0x100 % 0x100) * 0x100
        + w % 0x100 == w) by (bit_vector);
}

/// A premultiplied channel never exceeds the alpha nor the channel, and full
/// alpha keeps the channel as it is.
pub proof fn lemma_premultiply_bounds(channel: u8, a: u8)
    ensures
        premultiply(channel, a) <= a,
        premultiply(channel, a) <= channel,
        premultiply(channel, 255) == channel,
        premultiply(channel, 0) == 0,
{
    assert(channel as int * a as int <= 255 * a as int) by (nonlinear_arith)
        requires
            0 <= channel <= 255,
            0 <= a,
    ;
    assert(channel as int * a as int <= channel as int * 255) by (nonlinear_arith)
        requires
            0 <= a <= 255,
            0 <= channel,
    ;
}

} // verus!
