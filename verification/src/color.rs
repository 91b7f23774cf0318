//! Colour algebra on three 8-bit channels.
//!
//! Every operation is total and keeps each channel in `0..=255` by
//! saturating or clamping; nothing wraps.

use vstd::prelude::*;
use vstd::string::StringExecFns;
use vstd::std_specs::ops::AddSpecImpl;
use vstd::std_specs::ops::MulSpecImpl;
use crate::fixed::{clamp_int, div_floor, lemma_mul_bounded, Fixed};

verus! {

/// An RGB colour.
#[derive(Debug, Copy, Clone, PartialEq, Eq, Structural)]
pub struct Color {
    pub r: u8,
    pub g: u8,
    pub b: u8,
}

/// One channel of a linear interpolation, rounded to the nearest byte.
/// The fraction `t` is fixed-point and clamped to `[0, 1]`.
pub open spec fn lerp_channel(a: int, b: int, t: int) -> int {
    (a * 65536 + (b - a) * clamp_int(t, 0, 65536) + 32768) / 65536
}

/// One channel scaled by a fixed-point factor, rounded down and clamped.
pub open spec fn scale_channel(c: int, factor: int) -> int {
    clamp_int((c * factor) / 65536, 0, 255)
}

/// A fixed-point intensity in `[0, 1]` (clamped) as a channel byte.
pub open spec fn unit_channel(v: int) -> int {
    (clamp_int(v, 0, 65536) * 255) / 65536
}

/// The saturating sum of two channels.
pub open spec fn add_channel(a: int, b: int) -> int {
    if a + b > 255 {
        255
    } else {
        a + b
    }
}

/// The difference of two channels, clamped at zero.
pub open spec fn subtract_channel(a: int, b: int) -> int {
    if a - b < 0 {
        0
    } else {
        a - b
    }
}

/// The multiply blend of two channels.
pub open spec fn multiply_channel(a: int, b: int) -> int {
    (a * b) / 255
}

/// The screen blend of two channels.
pub open spec fn screen_channel(a: int, b: int) -> int {
    255 - ((255 - a) * (255 - b)) / 255
}

/// An interpolated channel lies between its two ends and meets them at
/// `t <= 0` and `t >= 1`.
pub proof fn lemma_lerp_channel(a: int, b: int, t: int)
    requires
        0 <= a <= 255,
        0 <= b <= 255,
    ensures
        a <= b ==> a <= lerp_channel(a, b, t) <= b,
        b <= a ==> b <= lerp_channel(a, b, t) <= a,
        t <= 0 ==> lerp_channel(a, b, t) == a,
        t >= 65536 ==> lerp_channel(a, b, t) == b,
{
    let tc = clamp_int(t, 0, 65536);
    let d = (b - a) * tc;
    assert(a <= b ==> 0 <= d <= (b - a) * 65536) by (nonlinear_arith)
        requires
            0 <= tc <= 65536,
            d == (b - a) * tc,
    ;
    assert(b <= a ==> (b - a) * 65536 <= d <= 0) by (nonlinear_arith)
        requires
            0 <= tc <= 65536,
            d == (b - a) * tc,
    ;
    assert(tc == 0 ==> d == 0) by (nonlinear_arith)
        requires
            d == (b - a) * tc,
    ;
}

/// The multiply blend never exceeds either operand.
pub proof fn lemma_multiply_channel(a: int, b: int)
    requires
        0 <= a <= 255,
        0 <= b <= 255,
    ensures
        0 <= multiply_channel(a, b) <= a,
        multiply_channel(a, b) <= b,
{
    assert(0 <= a * b <= a * 255 && a * b <= b * 255) by (nonlinear_arith)
        requires
            0 <= a <= 255,
            0 <= b <= 255,
    ;
}

/// The screen blend is a channel value no smaller than either operand.
pub proof fn lemma_screen_channel(a: int, b: int)
    requires
        0 <= a <= 255,
        0 <= b <= 255,
    ensures
        a <= screen_channel(a, b) <= 255,
        b <= screen_channel(a, b),
{
    lemma_multiply_channel(255 - a, 255 - b);
}

fn lerp_byte(a: u8, b: u8, t: Fixed) -> (r: u8)
    ensures
        r == lerp_channel(a as int, b as int, t as int),
{
    let tc: i128 = if t < 0 {
        0
    } else if t > 65536 {
        65536
    } else {
        t as i128
    };
    let d: i128 = (b as i128) - (a as i128);
    proof {
        lemma_mul_bounded(d as int, tc as int, 255, 65536);
        lemma_lerp_channel(a as int, b as int, t as int);
    }
    let n: i128 = (a as i128) * 65536 + d * tc + 32768;
    div_floor(n, 65536) as u8
}

fn scale_byte(c: u8, factor: Fixed) -> (r: u8)
    ensures
        r == scale_channel(c as int, factor as int),
{
    proof {
        lemma_mul_bounded(c as int, factor as int, 255, 2147483648);
    }
    let q: i128 = div_floor((c as i128) * (factor as i128), 65536);
    if q < 0 {
        0
    } else if q > 255 {
        255
    } else {
        q as u8
    }
}

fn unit_byte(v: Fixed) -> (r: u8)
    ensures
        r == unit_channel(v as int),
{
    let vc: u32 = if v < 0 {
        0
    } else if v > 65536 {
        65536
    } else {
        v as u32
    };
    ((vc * 255) / 65536) as u8
}

/// The decimal digit `d` as text.
pub open spec fn digit_spec(d: int) -> Seq<char> {
    if d == 0 {
        "0"@
    } else if d == 1 {
        "1"@
    } else if d == 2 {
        "2"@
    } else if d == 3 {
        "3"@
    } else if d == 4 {
        "4"@
    } else if d == 5 {
        "5"@
    } else if d == 6 {
        "6"@
    } else if d == 7 {
        "7"@
    } else if d == 8 {
        "8"@
    } else {
        "9"@
    }
}

/// A channel in decimal, without leading zeros.
pub open spec fn decimal_spec(n: int) -> Seq<char> {
    if n < 10 {
        digit_spec(n)
    } else if n < 100 {
        digit_spec(n / 10) + digit_spec(n % 10)
    } else {
        digit_spec(n / 100) + digit_spec((n / 10) % 10) + digit_spec(n % 10)
    }
}

fn digit(d: u8) -> (text: &'static str)
    requires
        d < 10,
    ensures
        text@ == digit_spec(d as int),
{
    if d == 0 {
        "0"
    } else if d == 1 {
        "1"
    } else if d == 2 {
        "2"
    } else if d == 3 {
        "3"
    } else if d == 4 {
        "4"
    } else if d == 5 {
        "5"
    } else if d == 6 {
        "6"
    } else if d == 7 {
        "7"
    } else if d == 8 {
        "8"
    } else {
        "9"
    }
}

fn append_decimal(text: &mut String, n: u8)
    ensures
        final(text)@ == old(text)@ + decimal_spec(n as int),
{
    if n >= 100 {
        text.append(digit(n / 100));
    }
    if n >= 10 {
        text.append(digit((n / 10) % 10));
    }
    text.append(digit(n % 10));
    assert(text@ =~= old(text)@ + decimal_spec(n as int));
}

impl Color {
    /// The colour as a packed 24-bit integer, red in the high byte.
    pub open spec fn packed(self) -> int {
        self.r as int * 65536 + self.g as int * 256 + self.b as int
    }

    /// The colour held in the low 24 bits of `hex`.
    pub open spec fn unpacked(hex: int) -> Color {
        Color {
            r: ((hex / 65536) % 256) as u8,
            g: ((hex / 256) % 256) as u8,
            b: (hex % 256) as u8,
        }
    }

    /// Whether every channel is zero.
    pub open spec fn is_black(self) -> bool {
        self.r == 0 && self.g == 0 && self.b == 0
    }

    /// The colour a fraction `t` of the way from `self` to `other`.
    pub open spec fn lerp_spec(self, other: Color, t: int) -> Color {
        Color {
            r: lerp_channel(self.r as int, other.r as int, t) as u8,
            g: lerp_channel(self.g as int, other.g as int, t) as u8,
            b: lerp_channel(self.b as int, other.b as int, t) as u8,
        }
    }

    /// The colour with every channel scaled by a fixed-point factor.
    pub open spec fn scale_spec(self, factor: int) -> Color {
        Color {
            r: scale_channel(self.r as int, factor) as u8,
            g: scale_channel(self.g as int, factor) as u8,
            b: scale_channel(self.b as int, factor) as u8,
        }
    }

    /// The channel-wise saturating sum.
    pub open spec fn sum_spec(self, other: Color) -> Color {
        Color {
            r: add_channel(self.r as int, other.r as int) as u8,
            g: add_channel(self.g as int, other.g as int) as u8,
            b: add_channel(self.b as int, other.b as int) as u8,
        }
    }

    /// The colour built from three fixed-point intensities.
    pub open spec fn from_fixed_spec(r: int, g: int, b: int) -> Color {
        Color {
            r: unit_channel(r) as u8,
            g: unit_channel(g) as u8,
            b: unit_channel(b) as u8,
        }
    }

    /// The colour as text: `Color(r: 1, g: 2, b: 3)`.
    pub open spec fn text_spec(self) -> Seq<char> {
        "Color(r: "@ + decimal_spec(self.r as int) + ", g: "@ + decimal_spec(self.g as int)
            + ", b: "@ + decimal_spec(self.b as int) + ")"@
    }

    /// Writes the colour out as `Color(r: .., g: .., b: ..)`, each channel
    /// in decimal.
    pub fn to_string(&self) -> (text: String)
        ensures
            text@ == self.text_spec(),
    {
        let mut text: String = String::new();
        text.append("Color(r: ");
        append_decimal(&mut text, self.r);
        text.append(", g: ");
        append_decimal(&mut text, self.g);
        text.append(", b: ");
        append_decimal(&mut text, self.b);
        text.append(")");
        assert(text@ =~= self.text_spec());
        text
    }

    pub fn new(r: u8, g: u8, b: u8) -> (c: Color)
        ensures
            c == (Color { r, g, b }),
    {
        Color { r, g, b }
    }

    /// Unpacks the low 24 bits of `hex`; higher bits are ignored.
    pub fn from_hex(hex: u32) -> (c: Color)
        ensures
            c == Color::unpacked(hex as int),
            hex <= 0xFFFFFF ==> c.packed() == hex,
    {
        proof {
            lemma_pack_unpacked(hex);
        }
        assert((hex >> 16) & 0xFF == (hex / 65536) % 256) by (bit_vector);
        assert((hex >> 8) & 0xFF == (hex / 256) % 256) by (bit_vector);
        assert(hex & 0xFF == hex % 256) by (bit_vector);
        let r: u8 = ((hex >> 16) & 0xFF) as u8;
        let g: u8 = ((hex >> 8) & 0xFF) as u8;
        let b: u8 = (hex & 0xFF) as u8;
        Color { r, g, b }
    }

    /// Packs the colour into 24 bits.
    pub fn to_hex(&self) -> (hex: u32)
        ensures
            hex == self.packed(),
            hex <= 0xFFFFFF,
            Color::unpacked(hex as int) == *self,
    {
        let r: u32 = self.r as u32;
        let g: u32 = self.g as u32;
        let b: u32 = self.b as u32;
        proof {
            lemma_unpack_packed(*self);
        }
        assert((r << 16) | (g << 8) | b == r * 65536 + g * 256 + b) by (bit_vector)
            requires
                r < 256,
                g < 256,
                b < 256,
        ;
        (r << 16) | (g << 8) | b
    }

    pub fn black() -> (c: Color)
        ensures
            c == (Color { r: 0, g: 0, b: 0 }),
    {
        Color { r: 0, g: 0, b: 0 }
    }

    /// Builds a colour from normalised fixed-point intensities, each clamped
    /// to `[0, 1]` and scaled to a byte.
    pub fn from_fixed(r: Fixed, g: Fixed, b: Fixed) -> (c: Color)
        ensures
            c == Color::from_fixed_spec(r as int, g as int, b as int),
    {
        Color { r: unit_byte(r), g: unit_byte(g), b: unit_byte(b) }
    }

    /// Linear interpolation per channel. `t` is fixed-point and clamped to
    /// `[0, 1]`; each channel is rounded to the nearest byte.
    pub fn lerp(&self, other: &Color, t: Fixed) -> (c: Color)
        ensures
            c == self.lerp_spec(*other, t as int),
            t <= 0 ==> c == *self,
            t >= 65536 ==> c == *other,
            self.r <= other.r ==> self.r <= c.r <= other.r,
            other.r <= self.r ==> other.r <= c.r <= self.r,
            self.g <= other.g ==> self.g <= c.g <= other.g,
            other.g <= self.g ==> other.g <= c.g <= self.g,
            self.b <= other.b ==> self.b <= c.b <= other.b,
            other.b <= self.b ==> other.b <= c.b <= self.b,
    {
        proof {
            lemma_lerp_channel(self.r as int, other.r as int, t as int);
            lemma_lerp_channel(self.g as int, other.g as int, t as int);
            lemma_lerp_channel(self.b as int, other.b as int, t as int);
        }
        Color {
            r: lerp_byte(self.r, other.r, t),
            g: lerp_byte(self.g, other.g, t),
            b: lerp_byte(self.b, other.b, t),
        }
    }

    /// Normal blend: `blend` replaces `self`, unless `blend` is pure black,
    /// which stands for "no contribution".
    pub fn blend_normal(&self, blend: &Color) -> (c: Color)
        ensures
            c == (if blend.is_black() {
                *self
            } else {
                *blend
            }),
    {
        if blend.r == 0 && blend.g == 0 && blend.b == 0 {
            *self
        } else {
            *blend
        }
    }

    /// Multiply blend: `(base * blend) / 255` per channel.
    pub fn blend_multiply(&self, blend: &Color) -> (c: Color)
        ensures
            c.r == multiply_channel(self.r as int, blend.r as int),
            c.g == multiply_channel(self.g as int, blend.g as int),
            c.b == multiply_channel(self.b as int, blend.b as int),
            c.r <= self.r && c.r <= blend.r,
            c.g <= self.g && c.g <= blend.g,
            c.b <= self.b && c.b <= blend.b,
    {
        proof {
            lemma_multiply_channel(self.r as int, blend.r as int);
            lemma_multiply_channel(self.g as int, blend.g as int);
            lemma_multiply_channel(self.b as int, blend.b as int);
        }
        Color {
            r: ((self.r as u32 * blend.r as u32) / 255) as u8,
            g: ((self.g as u32 * blend.g as u32) / 255) as u8,
            b: ((self.b as u32 * blend.b as u32) / 255) as u8,
        }
    }

    /// Screen blend: `255 - (255 - base) * (255 - blend) / 255` per channel.
    pub fn blend_screen(&self, blend: &Color) -> (c: Color)
        ensures
            c.r == screen_channel(self.r as int, blend.r as int),
            c.g == screen_channel(self.g as int, blend.g as int),
            c.b == screen_channel(self.b as int, blend.b as int),
            c.r >= self.r && c.r >= blend.r,
            c.g >= self.g && c.g >= blend.g,
            c.b >= self.b && c.b >= blend.b,
    {
        proof {
            lemma_screen_channel(self.r as int, blend.r as int);
            lemma_screen_channel(self.g as int, blend.g as int);
            lemma_screen_channel(self.b as int, blend.b as int);
            lemma_multiply_channel(255 - self.r as int, 255 - blend.r as int);
            lemma_multiply_channel(255 - self.g as int, 255 - blend.g as int);
            lemma_multiply_channel(255 - self.b as int, 255 - blend.b as int);
        }
        Color {
            r: (255 - ((255 - self.r as u32) * (255 - blend.r as u32)) / 255) as u8,
            g: (255 - ((255 - self.g as u32) * (255 - blend.g as u32)) / 255) as u8,
            b: (255 - ((255 - self.b as u32) * (255 - blend.b as u32)) / 255) as u8,
        }
    }

    /// Additive blend: the saturating sum per channel.
    pub fn blend_add(&self, blend: &Color) -> (c: Color)
        ensures
            c == self.sum_spec(*blend),
            c.r == add_channel(self.r as int, blend.r as int),
            c.g == add_channel(self.g as int, blend.g as int),
            c.b == add_channel(self.b as int, blend.b as int),
    {
        Color {
            r: saturating_byte_sum(self.r, blend.r),
            g: saturating_byte_sum(self.g, blend.g),
            b: saturating_byte_sum(self.b, blend.b),
        }
    }

    /// Subtractive blend: the difference per channel, clamped at zero.
    pub fn blend_subtract(&self, blend: &Color) -> (c: Color)
        ensures
            c.r == subtract_channel(self.r as int, blend.r as int),
            c.g == subtract_channel(self.g as int, blend.g as int),
            c.b == subtract_channel(self.b as int, blend.b as int),
    {
        Color {
            r: if self.r > blend.r { self.r - blend.r } else { 0 },
            g: if self.g > blend.g { self.g - blend.g } else { 0 },
            b: if self.b > blend.b { self.b - blend.b } else { 0 },
        }
    }
}

fn saturating_byte_sum(a: u8, b: u8) -> (r: u8)
    ensures
        r == add_channel(a as int, b as int),
{
    let s: u16 = a as u16 + b as u16;
    if s > 255 {
        255
    } else {
        s as u8
    }
}

/// Unpacking a 24-bit value and packing the colour gives the value back;
/// bits above the low 24 are dropped.
pub proof fn lemma_pack_unpacked(hex: u32)
    ensures
        Color::unpacked(hex as int).packed() == hex % 0x1000000,
        hex <= 0xFFFFFF ==> Color::unpacked(hex as int).packed() == hex,
{
    assert(((hex / 65536) % 256) * 65536 + ((hex / 256) % 256) * 256 + hex % 256 == hex
        % 0x1000000) by (bit_vector);
}

/// Packing a colour and unpacking the value gives the colour back.
pub proof fn lemma_unpack_packed(c: Color)
    ensures
        Color::unpacked(c.packed()) == c,
        0 <= c.packed() <= 0xFFFFFF,
{
    let r: u32 = c.r as u32;
    let g: u32 = c.g as u32;
    let b: u32 = c.b as u32;
    let p: u32 = (r * 65536 + g * 256 + b) as u32;
    assert((p / 65536) % 256 == r && (p / 256) % 256 == g && p % 256 == b) by (bit_vector)
        requires
            r < 256,
            g < 256,
            b < 256,
            p == r * 65536 + g * 256 + b,
    ;
}

impl core::ops::Add for Color {
    type Output = Color;

    /// The channel-wise saturating sum.
    fn add(self, other: Color) -> (c: Color) {
        Color {
            r: saturating_byte_sum(self.r, other.r),
            g: saturating_byte_sum(self.g, other.g),
            b: saturating_byte_sum(self.b, other.b),
        }
    }
}

impl AddSpecImpl for Color {
    open spec fn obeys_add_spec() -> bool {
        true
    }

    open spec fn add_req(self, other: Color) -> bool {
        true
    }

    open spec fn add_spec(self, other: Color) -> Color {
        self.sum_spec(other)
    }
}

impl core::ops::Mul<i32> for Color {
    type Output = Color;

    /// Every channel scaled by a fixed-point factor and clamped to a byte.
    fn mul(self, factor: i32) -> (c: Color) {
        Color {
            r: scale_byte(self.r, factor),
            g: scale_byte(self.g, factor),
            b: scale_byte(self.b, factor),
        }
    }
}

impl MulSpecImpl<i32> for Color {
    open spec fn obeys_mul_spec() -> bool {
        true
    }

    open spec fn mul_req(self, factor: i32) -> bool {
        true
    }

    open spec fn mul_spec(self, factor: i32) -> Color {
        self.scale_spec(factor as int)
    }
}

} // verus!
