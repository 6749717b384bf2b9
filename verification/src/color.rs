use vstd::prelude::*;

verus! {

/// A 4-channel RGBA color.
///
/// Each channel is kept at byte scale: the stored value `v` stands for the
/// intensity `v / 255`, so `0` is none and `255` is full. All blending below
/// is exact integer arithmetic on that scale.
#[derive(Clone, Copy, Debug, PartialEq, Eq, Structural)]
pub struct Color {
    pub r: u8,
    pub g: u8,
    pub b: u8,
    pub a: u8,
}

/// Linear interpolation of one channel from `x` toward `y` by the weight
/// `t / 255`: the value `x + t * (y - x) / 255`, with the division truncating.
pub open spec fn lerp_channel(x: u8, y: u8, t: u8) -> u8 {
    if y >= x {
        (x + (t * (y - x)) / 255) as u8
    } else {
        (x - (t * (x - y)) / 255) as u8
    }
}

/// `x + t * (y - x) / 255` stays between `x` and `y`, so it fits in a byte.
proof fn lemma_lerp_channel_bounds(x: u8, y: u8, t: u8)
    ensures
        y >= x ==> x + (t * (y - x)) / 255 <= y,
        y < x ==> x - (t * (x - y)) / 255 >= y,
{
    if y >= x {
        assert((t * (y - x)) / 255 <= y - x) by (nonlinear_arith)
            requires t <= 255 && x <= y,
        ;
    } else {
        assert((t * (x - y)) / 255 <= x - y) by (nonlinear_arith)
            requires t <= 255 && y < x,
        ;
    }
}

/// Interpolating by weight 0 returns the start point; by full weight 255
/// (which stands for 1) the end point, exactly, on every channel.
pub proof fn lemma_lerp_endpoints(x: u8, y: u8)
    ensures
        lerp_channel(x, y, 0) == x,
        lerp_channel(x, y, 255) == y,
{
    if y >= x {
        assert((255 * (y - x)) / 255 == y - x) by (nonlinear_arith);
    } else {
        assert((255 * (x - y)) / 255 == x - y) by (nonlinear_arith);
    }
}

fn lerp(x: u8, y: u8, t: u8) -> (v: u8)
    ensures
        v == lerp_channel(x, y, t),
{
    proof {
        lemma_lerp_channel_bounds(x, y, t);
    }
    if y >= x {
        x + ((t as u32 * (y - x) as u32) / 255) as u8
    } else {
        x - ((t as u32 * (x - y) as u32) / 255) as u8
    }
}

impl Color {
    /// The fully transparent black color, returned wherever a source has no
    /// data for the queried position.
    pub open spec fn transparent() -> Color {
        Color { r: 0, g: 0, b: 0, a: 0 }
    }

    /// The channels of `self` interpolated toward those of `rhs` by `t / 255`.
    pub open spec fn spec_lerp(self, rhs: Color, t: u8) -> Color {
        Color {
            r: lerp_channel(self.r, rhs.r, t),
            g: lerp_channel(self.g, rhs.g, t),
            b: lerp_channel(self.b, rhs.b, t),
            a: lerp_channel(self.a, rhs.a, t),
        }
    }

    /// `rhs` composited over `self`: each color channel is interpolated
    /// toward the top's by the top's alpha, while the result's alpha is the
    /// larger of the two — deliberately not the standard over-operator rule.
    pub open spec fn spec_overlay(self, rhs: Color) -> Color {
        Color {
            r: lerp_channel(self.r, rhs.r, rhs.a),
            g: lerp_channel(self.g, rhs.g, rhs.a),
            b: lerp_channel(self.b, rhs.b, rhs.a),
            a: if self.a >= rhs.a { self.a } else { rhs.a },
        }
    }

    /// Builds a color from a packed `0xRRGGBBAA` value, one byte per channel.
    pub fn from_u32(v: u32) -> (c: Self)
        ensures
            c.r == (v >> 24) as u8,
            c.g == (v >> 16) as u8,
            c.b == (v >> 8) as u8,
            c.a == v as u8,
    {
        Self {
            r: (v >> 24) as u8,
            g: (v >> 16) as u8,
            b: (v >> 8) as u8,
            a: v as u8,
        }
    }

    /// Builds a color from its four channel bytes, in `[r, g, b, a]` order.
    pub fn from_byte_array(v: [u8; 4]) -> (c: Self)
        ensures
            c == (Color { r: v[0], g: v[1], b: v[2], a: v[3] }),
    {
        Self { r: v[0], g: v[1], b: v[2], a: v[3] }
    }

    /// The four channel bytes of the color, in `[r, g, b, a]` order.
    pub fn into_byte_array(self) -> (v: [u8; 4])
        ensures
            v[0] == self.r,
            v[1] == self.g,
            v[2] == self.b,
            v[3] == self.a,
    {
        [self.r, self.g, self.b, self.a]
    }

    /// Whether the color carries any opacity at all.
    pub fn is_visible(self) -> (v: bool)
        ensures
            v == (self.a > 0),
    {
        self.a > 0
    }

    /// Whether the color is not yet fully opaque, so that layers underneath
    /// would still show through it.
    pub fn is_transparent(self) -> (v: bool)
        ensures
            v == (self.a < 255),
    {
        self.a < 255
    }

    /// Composites `rhs` over `self` per the rule of [`Color::spec_overlay`].
    pub fn overlay(self, rhs: Self) -> (c: Self)
        ensures
            c == self.spec_overlay(rhs),
    {
        Self {
            r: lerp(self.r, rhs.r, rhs.a),
            g: lerp(self.g, rhs.g, rhs.a),
            b: lerp(self.b, rhs.b, rhs.a),
            a: if self.a >= rhs.a { self.a } else { rhs.a },
        }
    }

    /// Interpolates every channel of `self` toward `rhs` by `t / 255`.
    pub fn lerp(self, rhs: Self, t: u8) -> (c: Self)
        ensures
            c == self.spec_lerp(rhs, t),
    {
        Self {
            r: lerp(self.r, rhs.r, t),
            g: lerp(self.g, rhs.g, t),
            b: lerp(self.b, rhs.b, t),
            a: lerp(self.a, rhs.a, t),
        }
    }
}

impl Default for Color {
    /// The default color is fully transparent black.
    fn default() -> (c: Self)
        ensures
            c == Color::transparent(),
    {
        Color { r: 0, g: 0, b: 0, a: 0 }
    }
}

/// Interpolation by weight 0 keeps the first color and by weight 255 — the
/// byte standing for 1 — yields the second, channel for channel.
pub proof fn lemma_color_lerp_endpoints(a: Color, b: Color)
    ensures
        a.spec_lerp(b, 0) == a,
        a.spec_lerp(b, 255) == b,
{
    lemma_lerp_endpoints(a.r, b.r);
    lemma_lerp_endpoints(a.g, b.g);
    lemma_lerp_endpoints(a.b, b.b);
    lemma_lerp_endpoints(a.a, b.a);
}

} // verus!
