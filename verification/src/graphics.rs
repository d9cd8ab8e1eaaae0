use vstd::prelude::*;

use crate::input::TextInputState;
use vstd::string::StrSliceExecFns;

verus! {

/// The 32-bit word of a colour with channels `r`, `g`, `b`, `a`, from the
/// most significant byte down.
pub open spec fn rgba_word(r: u8, g: u8, b: u8, a: u8) -> u32 {
    ((r as u32) << 24u32) | ((g as u32) << 16u32) | ((b as u32) << 8u32) | (a as u32)
}

/// An RGBA colour packed into a `u32`: red in the most significant byte, alpha
/// in the least.
#[derive(Clone, Copy, PartialEq, Eq, Debug, Structural)]
pub struct Color(pub u32);

impl Default for Color {
    /// Transparent black.
    fn default() -> (r: Color)
        ensures
            r.0 == 0,
    {
        Color(0)
    }
}

impl Color {
    /// Opaque white.
    pub fn white() -> (c: Color)
        ensures
            c.0 == 0xFFFF_FFFFu32,
    {
        Color(0xFFFF_FFFF)
    }

    /// Opaque black.
    pub fn black() -> (c: Color)
        ensures
            c.0 == 0x0000_00FFu32,
    {
        Color(0x0000_00FF)
    }

    /// Opaque red.
    pub fn red() -> (c: Color)
        ensures
            c.0 == 0xFF00_00FFu32,
    {
        Color(0xFF00_00FF)
    }

    /// Opaque green.
    pub fn green() -> (c: Color)
        ensures
            c.0 == 0x00FF_00FFu32,
    {
        Color(0x00FF_00FF)
    }

    /// Opaque blue.
    pub fn blue() -> (c: Color)
        ensures
            c.0 == 0x0000_FFFFu32,
    {
        Color(0x0000_FFFF)
    }

    /// Opaque yellow.
    pub fn yellow() -> (c: Color)
        ensures
            c.0 == 0xFFFF_00FFu32,
    {
        Color(0xFFFF_00FF)
    }

    /// Opaque magenta.
    pub fn magenta() -> (c: Color)
        ensures
            c.0 == 0xFF00_FFFFu32,
    {
        Color(0xFF00_FFFF)
    }

    /// Opaque cyan.
    pub fn cyan() -> (c: Color)
        ensures
            c.0 == 0x00FF_FFFFu32,
    {
        Color(0x00FF_FFFF)
    }

    /// Opaque pink.
    pub fn pink() -> (c: Color)
        ensures
            c.0 == 0xFC88_A3FFu32,
    {
        Color(0xFC88_A3FF)
    }

    /// Opaque orange.
    pub fn orange() -> (c: Color)
        ensures
            c.0 == 0xFF5F_00FFu32,
    {
        Color(0xFF5F_00FF)
    }

    /// Opaque mango.
    pub fn mango() -> (c: Color)
        ensures
            c.0 == 0xFF99_00FFu32,
    {
        Color(0xFF99_00FF)
    }

    /// The red channel.
    pub open spec fn spec_r(self) -> u8 {
        ((self.0 & 0xFF00_0000u32) >> 24u32) as u8
    }

    /// The green channel.
    pub open spec fn spec_g(self) -> u8 {
        ((self.0 & 0x00FF_0000u32) >> 16u32) as u8
    }

    /// The blue channel.
    pub open spec fn spec_b(self) -> u8 {
        ((self.0 & 0x0000_FF00u32) >> 8u32) as u8
    }

    /// The alpha channel.
    pub open spec fn spec_a(self) -> u8 {
        (self.0 & 0x0000_00FFu32) as u8
    }

    /// The colour with the given channels.
    pub fn rgba(r: u8, g: u8, b: u8, a: u8) -> (c: Color)
        ensures
            c.0 == rgba_word(r, g, b, a),
    {
        Color(((r as u32) << 24u32) | ((g as u32) << 16u32) | ((b as u32) << 8u32) | (a as u32))
    }

    /// The opaque colour with the given channels.
    pub fn rgb(r: u8, g: u8, b: u8) -> (c: Color)
        ensures
            c.0 == rgba_word(r, g, b, 255),
    {
        Color::rgba(r, g, b, 255)
    }

    /// The opaque grey whose three channels are `shade`.
    pub fn shade(shade: u8) -> (c: Color)
        ensures
            c.0 == rgba_word(shade, shade, shade, 255),
    {
        Color::rgba(shade, shade, shade, 255)
    }

    /// The red channel.
    pub fn r(self) -> (v: u8)
        ensures
            v == self.spec_r(),
    {
        ((self.0 & 0xFF00_0000u32) >> 24u32) as u8
    }

    /// The green channel.
    pub fn g(self) -> (v: u8)
        ensures
            v == self.spec_g(),
    {
        ((self.0 & 0x00FF_0000u32) >> 16u32) as u8
    }

    /// The blue channel.
    pub fn b(self) -> (v: u8)
        ensures
            v == self.spec_b(),
    {
        ((self.0 & 0x0000_FF00u32) >> 8u32) as u8
    }

    /// The alpha channel.
    pub fn a(self) -> (v: u8)
        ensures
            v == self.spec_a(),
    {
        (self.0 & 0x0000_00FFu32) as u8
    }

    /// The colour with `v` taken from each of red, green and blue (stopping at
    /// 0); alpha stays.
    pub fn darken(self, v: u8) -> (c: Color)
        ensures
            c.0 == rgba_word(
                (if self.spec_r() > v { self.spec_r() - v } else { 0 }) as u8,
                (if self.spec_g() > v { self.spec_g() - v } else { 0 }) as u8,
                (if self.spec_b() > v { self.spec_b() - v } else { 0 }) as u8,
                self.spec_a(),
            ),
    {
        Color::rgba(self.r().saturating_sub(v), self.g().saturating_sub(v), self.b().saturating_sub(v), self.a())
    }

    /// The colour with red, green and blue inverted; alpha stays.
    pub fn inv(self) -> (c: Color)
        ensures
            c.0 == rgba_word((255 - self.spec_r()) as u8, (255 - self.spec_g()) as u8, (255 - self.spec_b()) as u8, self.spec_a()),
    {
        Color::rgba(255 - self.r(), 255 - self.g(), 255 - self.b(), self.a())
    }
}

/// The channels of a colour built from channels are those channels.
pub proof fn lemma_rgba_channels(r: u8, g: u8, b: u8, a: u8)
    ensures
        Color(rgba_word(r, g, b, a)).spec_r() == r,
        Color(rgba_word(r, g, b, a)).spec_g() == g,
        Color(rgba_word(r, g, b, a)).spec_b() == b,
        Color(rgba_word(r, g, b, a)).spec_a() == a,
{
    let w: u32 = rgba_word(r, g, b, a);
    assert((w & 0xFF00_0000u32) >> 24u32 == r as u32 && (w & 0x00FF_0000u32) >> 16u32 == g as u32
        && (w & 0x0000_FF00u32) >> 8u32 == b as u32 && (w & 0x0000_00FFu32) == a as u32) by (bit_vector)
        requires
            w == ((r as u32) << 24u32) | ((g as u32) << 16u32) | ((b as u32) << 8u32) | (a as u32),
    ;
}

/// A colour is built back from its four channels.
pub proof fn lemma_channels_rgba(c: Color)
    ensures
        rgba_word(c.spec_r(), c.spec_g(), c.spec_b(), c.spec_a()) == c.0,
{
    let w = c.0;
    assert((((((w & 0xFF00_0000u32) >> 24u32) as u8) as u32) << 24u32) | (((((w & 0x00FF_0000u32) >> 16u32) as u8) as u32) << 16u32)
        | (((((w & 0x0000_FF00u32) >> 8u32) as u8) as u32) << 8u32) | (((w & 0x0000_00FFu32) as u8) as u32) == w) by (bit_vector);
}

/// Inverting a colour twice gives the colour back.
pub proof fn lemma_inv_inv(c: Color)
    ensures
        ({
            let i = Color(rgba_word((255 - c.spec_r()) as u8, (255 - c.spec_g()) as u8, (255 - c.spec_b()) as u8, c.spec_a()));
            rgba_word((255 - i.spec_r()) as u8, (255 - i.spec_g()) as u8, (255 - i.spec_b()) as u8, i.spec_a()) == c.0
        }),
{
    lemma_rgba_channels((255 - c.spec_r()) as u8, (255 - c.spec_g()) as u8, (255 - c.spec_b()) as u8, c.spec_a());
    lemma_channels_rgba(c);
}

/// Darkening by 0 keeps a colour.
pub proof fn lemma_darken_zero(c: Color)
    ensures
        rgba_word(
            (if c.spec_r() > 0 { c.spec_r() - 0 } else { 0 }) as u8,
            (if c.spec_g() > 0 { c.spec_g() - 0 } else { 0 }) as u8,
            (if c.spec_b() > 0 { c.spec_b() - 0 } else { 0 }) as u8,
            c.spec_a(),
        ) == c.0,
{
    lemma_channels_rgba(c);
}

/// A font by name, size and style.
#[derive(Clone, Copy, PartialEq, Eq, Debug)]
pub struct FontKey<'a> {
    pub name: &'a str,
    pub size: u32,
    pub bold: bool,
    pub italic: bool,
}

impl<'a> FontKey<'a> {
    /// The font `name` at `size`, bold and italic as given.
    pub fn new(name: &'a str, size: u32, bold: bool, italic: bool) -> (r: FontKey<'a>)
        ensures
            r.name == name,
            r.size == size,
            r.bold == bold,
            r.italic == italic,
    {
        FontKey { name, size, bold, italic }
    }
}

/// Alignment along one axis.
#[derive(Clone, Copy, PartialEq, Eq, Debug, Structural)]
pub enum Align {
    Min,
    Center,
    Max,
}

impl Default for Align {
    fn default() -> (r: Align)
        ensures
            r == Align::Min,
    {
        Align::Min
    }
}

/// Alignment along both axes.
#[derive(Clone, Copy, PartialEq, Eq, Debug, Structural)]
pub struct Align2 {
    pub x: Align,
    pub y: Align,
}

impl Default for Align2 {
    fn default() -> (r: Align2)
        ensures
            r.x == Align::Min && r.y == Align::Min,
    {
        Align2 { x: Align::Min, y: Align::Min }
    }
}

impl Align2 {
    /// Aligned to the minimum on both axes.
    pub fn min() -> (r: Align2)
        ensures
            r == (Align2 { x: Align::Min, y: Align::Min }),
    {
        Align2 { x: Align::Min, y: Align::Min }
    }

    /// Aligned to the top left.
    pub fn top_left() -> (r: Align2)
        ensures
            r == (Align2 { x: Align::Min, y: Align::Min }),
    {
        Align2 { x: Align::Min, y: Align::Min }
    }

    /// Aligned to the top centre (left on x, centred on y).
    pub fn top_center() -> (r: Align2)
        ensures
            r == (Align2 { x: Align::Min, y: Align::Center }),
    {
        Align2 { x: Align::Min, y: Align::Center }
    }

    /// Aligned to the top right.
    pub fn top_right() -> (r: Align2)
        ensures
            r == (Align2 { x: Align::Max, y: Align::Min }),
    {
        Align2 { x: Align::Max, y: Align::Min }
    }

    /// Aligned to the centre left.
    pub fn center_left() -> (r: Align2)
        ensures
            r == (Align2 { x: Align::Min, y: Align::Center }),
    {
        Align2 { x: Align::Min, y: Align::Center }
    }

    /// Aligned to the centre right.
    pub fn center_right() -> (r: Align2)
        ensures
            r == (Align2 { x: Align::Max, y: Align::Center }),
    {
        Align2 { x: Align::Max, y: Align::Center }
    }

    /// Aligned to the bottom left.
    pub fn bottom_left() -> (r: Align2)
        ensures
            r == (Align2 { x: Align::Min, y: Align::Max }),
    {
        Align2 { x: Align::Min, y: Align::Max }
    }

    /// Aligned to the bottom centre.
    pub fn bottom_center() -> (r: Align2)
        ensures
            r == (Align2 { x: Align::Center, y: Align::Max }),
    {
        Align2 { x: Align::Center, y: Align::Max }
    }

    /// Aligned to the bottom right.
    pub fn bottom_right() -> (r: Align2)
        ensures
            r == (Align2 { x: Align::Max, y: Align::Max }),
    {
        Align2 { x: Align::Max, y: Align::Max }
    }

    /// Aligned to the centre on both axes.
    pub fn center() -> (r: Align2)
        ensures
            r == (Align2 { x: Align::Center, y: Align::Center }),
    {
        Align2 { x: Align::Center, y: Align::Center }
    }
}

/// How an element was interacted with, and the colour it shows.
#[derive(Clone, Copy, PartialEq, Eq, Debug, Structural)]
pub struct Interaction {
    pub clicked: bool,
    pub rclicked: bool,
    pub clicked_elsewhere: bool,
    pub color: Color,
    pub hovered: bool,
}

impl Default for Interaction {
    /// No interaction, colour 0.
    fn default() -> (r: Interaction)
        ensures
            !r.clicked && !r.rclicked && !r.clicked_elsewhere && !r.hovered,
            r.color.0 == 0,
    {
        Interaction { clicked: false, rclicked: false, clicked_elsewhere: false, color: Color(0), hovered: false }
    }
}

/// What painting a frame leaves behind: the text field being edited, if any.
#[derive(Debug)]
pub struct PainterOutput {
    pub text_input: Option<TextInputState>,
}

impl Default for PainterOutput {
    /// No text field being edited.
    fn default() -> (r: PainterOutput)
        ensures
            r.text_input is None,
    {
        PainterOutput { text_input: None }
    }
}

/// A value that a button cycles through: it is numbered from 0 and has a label.
pub trait CycleState {
    /// The value numbered `b`, if there is one.
    fn from_u8(b: u8) -> Option<Self> where Self: Sized;

    /// The number of the value.
    fn as_u8(&self) -> u8;

    /// The label of the value.
    fn label(&self) -> &'static str;
}

/// The first character of `s` and the rest of `s`, or `None` when `s` is empty.
pub fn split_first(s: &str) -> (r: Option<(char, &str)>)
    ensures
        match r {
            None => s@.len() == 0,
            Some((ch, rest)) => s@.len() > 0 && ch == s@[0] && rest@ == s@.drop_first(),
        },
{
    if s.is_empty() {
        return None;
    }
    let ch = s.get_char(0);
    let n = s.unicode_len();
    let rest = s.substring_char(1, n);
    assert(rest@ =~= s@.drop_first());
    Some((ch, rest))
}

} // verus!
