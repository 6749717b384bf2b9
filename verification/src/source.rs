use vstd::prelude::*;
use crate::color::Color;

verus! {

/// The sampling capability: a source answers "what color stands at integer
/// position `(x, y)`?" for every position, and may report a bounding
/// rectangle outside which it holds no meaningful data.
///
/// Every implementation fixes its answer in `spec_source` / `spec_borders`;
/// the executable methods are proved to return exactly those values, so a
/// query is a pure function of the source's configuration and the position.
pub trait Source {
    /// The color this source yields at `pos`.
    spec fn spec_source(&self, pos: (i32, i32)) -> Color;

    /// The bounding rectangle this source reports, if any.
    spec fn spec_borders(&self) -> Option<Borders>;

    /// Produces the color at `pos`.
    fn source(&self, pos: (i32, i32)) -> (c: Color)
        ensures
            c == self.spec_source(pos),
    ;

    /// Reports the rectangle with meaningful data, or `None` when the source
    /// is unbounded.
    fn borders(&self) -> (b: Option<Borders>)
        ensures
            b == self.spec_borders(),
    ;
}

/// An inclusive rectangle of integer positions: `w` bounds the x axis and
/// `h` the y axis, both ends included.
#[derive(Clone, Copy, Debug, PartialEq, Eq)]
pub struct Borders {
    pub w: (i32, i32),
    pub h: (i32, i32),
}

impl Borders {
    /// Whether `pos` lies inside the rectangle, both bounds included.
    pub open spec fn spec_contains(self, pos: (i32, i32)) -> bool {
        self.w.0 <= pos.0 && pos.0 <= self.w.1 && self.h.0 <= pos.1 && pos.1 <= self.h.1
    }

    /// Tests whether `pos` lies inside the rectangle.
    pub fn contains(self, pos: (i32, i32)) -> (v: bool)
        ensures
            v == self.spec_contains(pos),
    {
        let (x, y) = pos;
        let (x0, x1) = self.w;
        let (y0, y1) = self.h;
        x >= x0 && x <= x1 && y >= y0 && y <= y1
    }
}

/// A color is itself a source: the constant field that yields the same color
/// everywhere, with no bounds.
impl Source for Color {
    open spec fn spec_source(&self, pos: (i32, i32)) -> Color {
        *self
    }

    open spec fn spec_borders(&self) -> Option<Borders> {
        None
    }

    fn source(&self, pos: (i32, i32)) -> (c: Color)
        ensures
            c == self.spec_source(pos),
    {
        *self
    }

    fn borders(&self) -> (b: Option<Borders>)
        ensures
            b == self.spec_borders(),
    {
        None
    }
}

/// A shared reference samples exactly as the source it points to.
impl<S: Source> Source for &S {
    open spec fn spec_source(&self, pos: (i32, i32)) -> Color {
        (**self).spec_source(pos)
    }

    open spec fn spec_borders(&self) -> Option<Borders> {
        (**self).spec_borders()
    }

    fn source(&self, pos: (i32, i32)) -> (c: Color)
        ensures
            c == self.spec_source(pos),
    {
        (**self).source(pos)
    }

    fn borders(&self) -> (b: Option<Borders>)
        ensures
            b == self.spec_borders(),
    {
        (**self).borders()
    }
}

/// A boxed source samples exactly as the source it owns.
impl<S: Source> Source for Box<S> {
    open spec fn spec_source(&self, pos: (i32, i32)) -> Color {
        (**self).spec_source(pos)
    }

    open spec fn spec_borders(&self) -> Option<Borders> {
        (**self).spec_borders()
    }

    fn source(&self, pos: (i32, i32)) -> (c: Color)
        ensures
            c == self.spec_source(pos),
    {
        (**self).source(pos)
    }

    fn borders(&self) -> (b: Option<Borders>)
        ensures
            b == self.spec_borders(),
    {
        (**self).borders()
    }
}

/// Translates a child source by a fixed vector: the position queried of the
/// child is the given one minus the offset, so the child's data appears
/// shifted by the offset, and its borders move by the offset too. All
/// coordinate arithmetic wraps.
pub struct Offset<S> {
    pub child: S,
    pub offset: (i32, i32),
}

impl<S> Offset<S> {
    /// The translating combinator over `source` by `offset`.
    pub fn new(source: S, offset: (i32, i32)) -> (r: Self)
        ensures
            r.child == source,
            r.offset == offset,
    {
        Self { child: source, offset }
    }
}

impl<S: Source> Source for Offset<S> {
    open spec fn spec_source(&self, pos: (i32, i32)) -> Color {
        self.child.spec_source(
            (pos.0.wrapping_sub(self.offset.0), pos.1.wrapping_sub(self.offset.1)),
        )
    }

    open spec fn spec_borders(&self) -> Option<Borders> {
        match self.child.spec_borders() {
            None => None,
            Some(b) => Some(
                Borders {
                    w: (b.w.0.wrapping_add(self.offset.0), b.w.1.wrapping_add(self.offset.0)),
                    h: (b.h.0.wrapping_add(self.offset.1), b.h.1.wrapping_add(self.offset.1)),
                },
            ),
        }
    }

    fn source(&self, pos: (i32, i32)) -> (c: Color)
        ensures
            c == self.spec_source(pos),
    {
        let (x, y) = pos;
        let (dx, dy) = self.offset;
        self.child.source((x.wrapping_sub(dx), y.wrapping_sub(dy)))
    }

    fn borders(&self) -> (b: Option<Borders>)
        ensures
            b == self.spec_borders(),
    {
        let (dx, dy) = self.offset;
        match self.child.borders() {
            None => None,
            Some(b) => Some(
                Borders {
                    w: (b.w.0.wrapping_add(dx), b.w.1.wrapping_add(dx)),
                    h: (b.h.0.wrapping_add(dy), b.h.1.wrapping_add(dy)),
                },
            ),
        }
    }
}

/// Translating a query by the offset lands on the child's own sample: for
/// every position, the offset source read at `pos + offset` equals the child
/// read at `pos`, under the wrapping coordinate convention.
pub proof fn lemma_offset_inverts<S: Source>(s: Offset<S>, pos: (i32, i32))
    ensures
        s.spec_source((pos.0.wrapping_add(s.offset.0), pos.1.wrapping_add(s.offset.1)))
            == s.child.spec_source(pos),
{
}

/// The color an ordered stack of sources yields at `pos`, folded back to
/// front from `acc`: each layer is overlaid on the accumulator in turn, and
/// the fold stops as soon as the accumulator is fully opaque, so later layers
/// no longer contribute.
pub open spec fn spec_stack<S: Source>(sources: Seq<S>, pos: (i32, i32), acc: Color) -> Color
    decreases sources.len(),
{
    if sources.len() == 0 || acc.a == 255 {
        acc
    } else {
        spec_stack(
            sources.subrange(1, sources.len() as int),
            pos,
            acc.spec_overlay(sources[0].spec_source(pos)),
        )
    }
}

/// Once the accumulator is fully opaque, the remaining layers change nothing.
proof fn lemma_stack_opaque_acc<S: Source>(sources: Seq<S>, pos: (i32, i32), acc: Color)
    requires
        acc.a == 255,
    ensures
        spec_stack(sources, pos, acc) == acc,
{
}

/// An ordered sequence of sources is itself a source: layers are composited
/// back to front starting from the transparent color, stopping early once
/// the result is fully opaque. A stack reports no borders: no aggregate
/// rectangle is defined over its layers, by policy.
impl<S: Source> Source for Vec<S> {
    open spec fn spec_source(&self, pos: (i32, i32)) -> Color {
        spec_stack(self@, pos, Color::transparent())
    }

    open spec fn spec_borders(&self) -> Option<Borders> {
        None
    }

    fn source(&self, pos: (i32, i32)) -> (c: Color)
        ensures
            c == self.spec_source(pos),
    {
        let ghost all = self@;
        proof {
            assert(all.subrange(0, all.len() as int) == all);
        }
        let mut res = Color { r: 0, g: 0, b: 0, a: 0 };
        let mut i: usize = 0;
        while i < self.len()
            invariant
                i <= self.len(),
                all == self@,
                spec_stack(all, pos, Color::transparent()) == spec_stack(
                    all.subrange(i as int, all.len() as int),
                    pos,
                    res,
                ),
                res.a < 255,
            decreases self.len() - i,
        {
            let col = self[i].source(pos);
            proof {
                assert(all.subrange(i as int, all.len() as int).subrange(
                    1,
                    all.subrange(i as int, all.len() as int).len() as int,
                ) == all.subrange(i + 1, all.len() as int));
            }
            res = res.overlay(col);
            i = i + 1;
            if !res.is_transparent() {
                proof {
                    lemma_stack_opaque_acc(all.subrange(i as int, all.len() as int), pos, res);
                }
                return res;
            }
        }
        proof {
            assert(all.subrange(all.len() as int, all.len() as int).len() == 0);
        }
        res
    }

    fn borders(&self) -> (b: Option<Borders>)
        ensures
            b == self.spec_borders(),
    {
        None
    }
}

/// When the first layer of a stack is fully opaque at `pos`, the stack's
/// color there is that layer's color alone: the fold stops after one step,
/// and overlaying a fully opaque color on the transparent start yields that
/// color exactly.
pub proof fn lemma_stack_opaque_first<S: Source>(sources: Seq<S>, pos: (i32, i32))
    requires
        sources.len() > 0,
        sources[0].spec_source(pos).a == 255,
    ensures
        spec_stack(sources, pos, Color::transparent()) == sources[0].spec_source(pos),
{
    let first = sources[0].spec_source(pos);
    let acc = Color::transparent().spec_overlay(first);
    crate::color::lemma_lerp_endpoints(0, first.r);
    crate::color::lemma_lerp_endpoints(0, first.g);
    crate::color::lemma_lerp_endpoints(0, first.b);
    assert(acc == first);
    lemma_stack_opaque_acc(sources.subrange(1, sources.len() as int), pos, acc);
}

/// The magnitude of `x` as a mathematical integer.
pub open spec fn abs_mag(x: i32) -> nat {
    if x >= 0 {
        x as nat
    } else {
        (-(x as int)) as nat
    }
}

/// `x * mul / div` rounded toward zero and saturated to the `i32` range:
/// the exact-rational coordinate map of the scaling combinator.
pub open spec fn mul_div_trunc(x: i32, mul: u32, div: u32) -> i32 {
    let q = (abs_mag(x) * (mul as nat)) / (div as nat);
    if x >= 0 {
        if q > i32::MAX {
            i32::MAX
        } else {
            q as i32
        }
    } else {
        if q >= 2147483648 {
            i32::MIN
        } else {
            (-(q as int)) as i32
        }
    }
}

/// The remainder left by that map: `|x| * mul mod div`, so that the mapped
/// coordinate's fractional part is this value over `div`.
pub open spec fn mul_rem(x: i32, mul: u32, div: u32) -> nat {
    (abs_mag(x) * (mul as nat)) % (div as nat)
}

/// The interpolation weight `1/2 - rem/div` at byte scale, truncated:
/// `255 * (div - 2*rem) / (2*div)`. Meaningful when `2*rem < div`.
pub open spec fn weight_low(rem: nat, div: nat) -> u8 {
    ((255 * (div as int - 2 * rem)) / (2 * div as int)) as u8
}

/// The interpolation weight `rem/div - 1/2` at byte scale, truncated:
/// `255 * (2*rem - div) / (2*div)`. Meaningful when `2*rem > div`.
pub open spec fn weight_high(rem: nat, div: nat) -> u8 {
    ((255 * (2 * rem - div as int)) / (2 * div as int)) as u8
}

/// The two sample points and the interpolation weight for one axis of the
/// linear filter, at child coordinate `x * den / num`. With fractional part
/// `f`: below one half the points are the truncated coordinate and its lower
/// neighbor with weight `1/2 - f`; exactly one half degenerates to the single
/// truncated point; above one half the points are the truncated coordinate
/// and its upper neighbor with weight `f - 1/2`.
pub open spec fn linear_points(x: i32, num: u32, den: u32) -> (i32, i32, u8) {
    let a = mul_div_trunc(x, den, num);
    let rem = mul_rem(x, den, num);
    if 2 * rem < num {
        (a, a.wrapping_sub(1), weight_low(rem, num as nat))
    } else if 2 * rem == num {
        (a, a, 0u8)
    } else {
        (a, a.wrapping_add(1), weight_high(rem, num as nat))
    }
}

fn exec_abs_mag(x: i32) -> (m: u64)
    ensures
        m == abs_mag(x),
{
    if x >= 0 {
        x as u64
    } else {
        (-(x as i64)) as u64
    }
}

fn exec_mul_div_trunc(x: i32, mul: u32, div: u32) -> (r: i32)
    requires
        div >= 1,
    ensures
        r == mul_div_trunc(x, mul, div),
{
    let m: u64 = exec_abs_mag(x);
    assert(m <= 0x8000_0000);
    assert(m * (mul as u64) <= 0x8000_0000u64 * 0xFFFF_FFFFu64) by (nonlinear_arith)
        requires m <= 0x8000_0000 && mul <= 0xFFFF_FFFFu32,
    ;
    let q: u64 = (m * mul as u64) / (div as u64);
    if x >= 0 {
        if q > i32::MAX as u64 {
            i32::MAX
        } else {
            q as i32
        }
    } else {
        if q >= 2147483648u64 {
            i32::MIN
        } else {
            -(q as i32)
        }
    }
}

fn exec_linear_points(x: i32, num: u32, den: u32) -> (r: (i32, i32, u8))
    requires
        num >= 1,
    ensures
        r == linear_points(x, num, den),
{
    let m: u64 = exec_abs_mag(x);
    assert(m <= 0x8000_0000);
    assert(m * (den as u64) <= 0x8000_0000u64 * 0xFFFF_FFFFu64) by (nonlinear_arith)
        requires m <= 0x8000_0000 && den <= 0xFFFF_FFFFu32,
    ;
    let a: i32 = exec_mul_div_trunc(x, den, num);
    let rem: u64 = (m * den as u64) % (num as u64);
    let dd: u64 = num as u64;
    if 2 * rem < dd {
        let t: u64 = (255 * (dd - 2 * rem)) / (2 * dd);
        assert(255 * (dd - 2 * rem) / (2 * dd) <= 127) by (nonlinear_arith)
            requires dd >= 1 && 2 * rem < dd,
        ;
        (a, a.wrapping_sub(1), t as u8)
    } else if 2 * rem == dd {
        (a, a, 0u8)
    } else {
        let t: u64 = (255 * (2 * rem - dd)) / (2 * dd);
        assert(255 * (2 * rem - dd) / (2 * dd) <= 127) by (nonlinear_arith)
            requires dd >= 1 && dd < 2 * rem && rem < dd,
        ;
        (a, a.wrapping_add(1), t as u8)
    }
}

/// The resampling filter of the scaling combinator.
#[derive(Clone, Copy, Debug, PartialEq, Eq, Structural)]
pub enum Filter {
    /// Sample the nearest child pixel, truncating the mapped coordinate.
    Near,
    /// Interpolate between neighboring child pixels around pixel centers.
    Linear,
}

/// Resamples a child source by an exact rational factor `num / den`: a query
/// at `(x, y)` reads the child around `(x * den / num, y * den / num)`, with
/// the chosen filter.
pub struct Scale<S> {
    pub child: S,
    pub factor: (u32, u32),
    pub filter: Filter,
}

impl<S> Scale<S> {
    /// The scaling combinator over `source` by the positive rational factor
    /// `factor.0 / factor.1`, sampling with `filter`.
    pub fn new(source: S, factor: (u32, u32), filter: Filter) -> (r: Self)
        requires
            factor.0 >= 1,
            factor.1 >= 1,
        ensures
            r.child == source,
            r.factor == factor,
            r.filter == filter,
    {
        Self { child: source, factor, filter }
    }
}

impl<S: Source> Source for Scale<S> {
    open spec fn spec_source(&self, pos: (i32, i32)) -> Color {
        if self.factor.0 == 0 || self.factor.1 == 0 {
            Color::transparent()
        } else {
            let num = self.factor.0;
            let den = self.factor.1;
            match self.filter {
                Filter::Near => self.child.spec_source(
                    (mul_div_trunc(pos.0, den, num), mul_div_trunc(pos.1, den, num)),
                ),
                Filter::Linear => {
                    let (x0, x1, xt) = linear_points(pos.0, num, den);
                    let (y0, y1, yt) = linear_points(pos.1, num, den);
                    if x0 == x1 && y0 == y1 {
                        self.child.spec_source((x0, y0))
                    } else if x0 != x1 && y0 == y1 {
                        self.child.spec_source((x0, y0)).spec_lerp(
                            self.child.spec_source((x1, y0)),
                            xt,
                        )
                    } else if x0 == x1 {
                        self.child.spec_source((x0, y0)).spec_lerp(
                            self.child.spec_source((x0, y1)),
                            yt,
                        )
                    } else {
                        self.child.spec_source((x0, y0)).spec_lerp(
                            self.child.spec_source((x1, y0)),
                            xt,
                        ).spec_lerp(
                            self.child.spec_source((x0, y1)).spec_lerp(
                                self.child.spec_source((x1, y1)),
                                xt,
                            ),
                            yt,
                        )
                    }
                },
            }
        }
    }

    open spec fn spec_borders(&self) -> Option<Borders> {
        if self.factor.0 == 0 || self.factor.1 == 0 {
            None
        } else {
            let num = self.factor.0;
            let den = self.factor.1;
            match self.child.spec_borders() {
                None => None,
                Some(b) => Some(
                    Borders {
                        w: (mul_div_trunc(b.w.0, num, den), mul_div_trunc(b.w.1, num, den)),
                        h: (mul_div_trunc(b.h.0, num, den), mul_div_trunc(b.h.1, num, den)),
                    },
                ),
            }
        }
    }

    fn source(&self, pos: (i32, i32)) -> (c: Color)
        ensures
            c == self.spec_source(pos),
    {
        let (num, den) = self.factor;
        if num == 0 || den == 0 {
            return Color { r: 0, g: 0, b: 0, a: 0 };
        }
        let (x, y) = pos;
        match self.filter {
            Filter::Near => {
                let cx = exec_mul_div_trunc(x, den, num);
                let cy = exec_mul_div_trunc(y, den, num);
                self.child.source((cx, cy))
            },
            Filter::Linear => {
                let (x0, x1, xt) = exec_linear_points(x, num, den);
                let (y0, y1, yt) = exec_linear_points(y, num, den);
                if x0 == x1 && y0 == y1 {
                    self.child.source((x0, y0))
                } else if x0 != x1 && y0 == y1 {
                    let a = self.child.source((x0, y0));
                    let b = self.child.source((x1, y0));
                    a.lerp(b, xt)
                } else if x0 == x1 {
                    let a = self.child.source((x0, y0));
                    let b = self.child.source((x0, y1));
                    a.lerp(b, yt)
                } else {
                    let c0 = self.child.source((x0, y0)).lerp(self.child.source((x1, y0)), xt);
                    let c1 = self.child.source((x0, y1)).lerp(self.child.source((x1, y1)), xt);
                    c0.lerp(c1, yt)
                }
            },
        }
    }

    fn borders(&self) -> (b: Option<Borders>)
        ensures
            b == self.spec_borders(),
    {
        let (num, den) = self.factor;
        if num == 0 || den == 0 {
            return None;
        }
        match self.child.borders() {
            None => None,
            Some(b) => Some(
                Borders {
                    w: (exec_mul_div_trunc(b.w.0, num, den), exec_mul_div_trunc(b.w.1, num, den)),
                    h: (exec_mul_div_trunc(b.h.0, num, den), exec_mul_div_trunc(b.h.1, num, den)),
                },
            ),
        }
    }
}

/// Scaling by the factor one with the nearest filter is the identity: the
/// mapped coordinate is the queried one, for every position.
pub proof fn lemma_scale_identity<S: Source>(s: Scale<S>, pos: (i32, i32))
    requires
        s.factor == (1u32, 1u32),
        s.filter is Near,
    ensures
        s.spec_source(pos) == s.child.spec_source(pos),
{
    assert(mul_div_trunc(pos.0, 1, 1) == pos.0);
    assert(mul_div_trunc(pos.1, 1, 1) == pos.1);
}

/// The linear filter's tie-break: at a coordinate whose fractional part is
/// exactly one half on both axes, the result is one direct child sample at
/// the truncated coordinate, not an interpolation of distinct points.
pub proof fn lemma_scale_tie_single_sample<S: Source>(s: Scale<S>, pos: (i32, i32))
    requires
        s.factor.0 >= 1,
        s.factor.1 >= 1,
        s.filter is Linear,
        2 * mul_rem(pos.0, s.factor.1, s.factor.0) == s.factor.0,
        2 * mul_rem(pos.1, s.factor.1, s.factor.0) == s.factor.0,
    ensures
        s.spec_source(pos) == s.child.spec_source(
            (
                mul_div_trunc(pos.0, s.factor.1, s.factor.0),
                mul_div_trunc(pos.1, s.factor.1, s.factor.0),
            ),
        ),
{
}

/// A blur accumulator: running sums of the four channels and the number of
/// contributing samples.
pub open spec fn acc_plus(s: (int, int, int, int, int), c: Color) -> (int, int, int, int, int) {
    (s.0 + c.r, s.1 + c.g, s.2 + c.b, s.3 + c.a, s.4 + 1)
}

/// Componentwise addition of two blur accumulators.
pub open spec fn acc_join(
    p: (int, int, int, int, int),
    q: (int, int, int, int, int),
) -> (int, int, int, int, int) {
    (p.0 + q.0, p.1 + q.1, p.2 + q.2, p.3 + q.3, p.4 + q.4)
}

/// The blur accumulator over one row: offsets `(dx, dy)` with `dx` ranging
/// over the first `n` values of `[-r, r)`, each contributing the child's
/// color at `pos + (dx, dy)` when `dx*dx + dy*dy < r*r` — the open disc mask.
pub open spec fn blur_row<S: Source>(
    child: S,
    pos: (i32, i32),
    r: int,
    dy: int,
    n: int,
) -> (int, int, int, int, int)
    decreases n,
{
    if n <= 0 {
        (0, 0, 0, 0, 0)
    } else {
        let prev = blur_row(child, pos, r, dy, n - 1);
        let dx = n - 1 - r;
        if dx * dx + dy * dy < r * r {
            acc_plus(
                prev,
                child.spec_source(
                    (pos.0.wrapping_add(dx as i32), pos.1.wrapping_add(dy as i32)),
                ),
            )
        } else {
            prev
        }
    }
}

/// The blur accumulator over the first `m` rows of the offset square, `dy`
/// ranging over `[-r, r)` with each row `2*r` wide.
pub open spec fn blur_grid<S: Source>(
    child: S,
    pos: (i32, i32),
    r: int,
    m: int,
) -> (int, int, int, int, int)
    decreases m,
{
    if m <= 0 {
        (0, 0, 0, 0, 0)
    } else {
        acc_join(blur_grid(child, pos, r, m - 1), blur_row(child, pos, r, m - 1 - r, 2 * r))
    }
}

/// Every blur-row accumulator is nonnegative, counts at most one sample per
/// step, and keeps each channel sum at most 255 per sample.
proof fn lemma_blur_row_bounds<S: Source>(child: S, pos: (i32, i32), r: int, dy: int, n: int)
    ensures
        ({
            let g = blur_row(child, pos, r, dy, n);
            0 <= g.4 && g.4 <= (if n > 0 { n } else { 0 })
                && 0 <= g.0 && g.0 <= 255 * g.4
                && 0 <= g.1 && g.1 <= 255 * g.4
                && 0 <= g.2 && g.2 <= 255 * g.4
                && 0 <= g.3 && g.3 <= 255 * g.4
        }),
    decreases n,
{
    if n > 0 {
        lemma_blur_row_bounds(child, pos, r, dy, n - 1);
    }
}

/// Every blur-grid accumulator counts at most `2*r` samples per row and keeps
/// each channel sum at most 255 per sample.
proof fn lemma_blur_grid_bounds<S: Source>(child: S, pos: (i32, i32), r: int, m: int)
    requires
        r >= 0,
    ensures
        ({
            let g = blur_grid(child, pos, r, m);
            0 <= g.4 && g.4 <= (if m > 0 { m } else { 0 }) * (2 * r)
                && 0 <= g.0 && g.0 <= 255 * g.4
                && 0 <= g.1 && g.1 <= 255 * g.4
                && 0 <= g.2 && g.2 <= 255 * g.4
                && 0 <= g.3 && g.3 <= 255 * g.4
        }),
    decreases m,
{
    if m > 0 {
        lemma_blur_grid_bounds(child, pos, r, m - 1);
        lemma_blur_row_bounds(child, pos, r, m - 1 - r, 2 * r);
        assert((m - 1) * (2 * r) + 2 * r == m * (2 * r)) by (nonlinear_arith);
    }
}

/// Averages a child source over an open disc of the given radius: a query
/// sums the child's colors at every offset `(dx, dy)` in `[-r, r)` square
/// with `dx*dx + dy*dy < r*r`, and divides by the number of contributing
/// samples. A query outside the blur's own borders, when they exist, returns
/// the transparent color at once, and so does one with no contributing
/// samples at all.
pub struct Blur<S> {
    pub child: S,
    pub radius: u8,
}

impl<S> Blur<S> {
    /// The blurring combinator over `source` with disc radius `radius`.
    pub fn new(source: S, radius: u8) -> (r: Self)
        ensures
            r.child == source,
            r.radius == radius,
    {
        Self { child: source, radius }
    }
}

impl<S: Source> Source for Blur<S> {
    open spec fn spec_source(&self, pos: (i32, i32)) -> Color {
        let inside = match self.spec_borders() {
            None => true,
            Some(b) => b.spec_contains(pos),
        };
        if !inside {
            Color::transparent()
        } else {
            let g = blur_grid(self.child, pos, self.radius as int, 2 * self.radius as int);
            if g.4 > 0 {
                Color {
                    r: (g.0 / g.4) as u8,
                    g: (g.1 / g.4) as u8,
                    b: (g.2 / g.4) as u8,
                    a: (g.3 / g.4) as u8,
                }
            } else {
                Color::transparent()
            }
        }
    }

    open spec fn spec_borders(&self) -> Option<Borders> {
        match self.child.spec_borders() {
            None => None,
            Some(b) => Some(
                Borders {
                    w: (
                        b.w.0.wrapping_sub(self.radius as i32),
                        b.w.1.wrapping_add(self.radius as i32),
                    ),
                    h: (
                        b.h.0.wrapping_sub(self.radius as i32),
                        b.h.1.wrapping_add(self.radius as i32),
                    ),
                },
            ),
        }
    }

    fn source(&self, pos: (i32, i32)) -> (c: Color)
        ensures
            c == self.spec_source(pos),
    {
        match self.borders() {
            Some(b) => {
                if !b.contains(pos) {
                    return Color { r: 0, g: 0, b: 0, a: 0 };
                }
            },
            None => {},
        }
        let rad: i32 = self.radius as i32;
        let ghost ri: int = rad as int;
        let (x, y) = pos;
        let mut sr: u64 = 0;
        let mut sg: u64 = 0;
        let mut sb: u64 = 0;
        let mut sa: u64 = 0;
        let mut cnt: u64 = 0;
        let mut dyi: i32 = 0;
        while dyi < 2 * rad
            invariant
                0 <= dyi <= 2 * rad,
                0 <= rad <= 255,
                ri == rad,
                x == pos.0,
                y == pos.1,
                ({
                    let g = blur_grid(self.child, pos, ri, dyi as int);
                    sr == g.0 && sg == g.1 && sb == g.2 && sa == g.3 && cnt == g.4
                }),
            decreases 2 * rad - dyi,
        {
            let dy: i32 = dyi - rad;
            let mut dxi: i32 = 0;
            while dxi < 2 * rad
                invariant
                    0 <= dxi <= 2 * rad,
                    0 <= dyi < 2 * rad,
                    0 <= rad <= 255,
                    ri == rad,
                    dy == dyi - rad,
                    x == pos.0,
                    y == pos.1,
                    ({
                        let g = acc_join(
                            blur_grid(self.child, pos, ri, dyi as int),
                            blur_row(self.child, pos, ri, dy as int, dxi as int),
                        );
                        sr == g.0 && sg == g.1 && sb == g.2 && sa == g.3 && cnt == g.4
                    }),
                decreases 2 * rad - dxi,
            {
                let dx: i32 = dxi - rad;
                proof {
                    assert(0 <= dx * dx <= 65025 && 0 <= dy * dy <= 65025 && 0 <= rad * rad
                        <= 65025) by (nonlinear_arith)
                        requires -255 <= dx <= 255 && -255 <= dy <= 255 && 0 <= rad <= 255,
                    ;
                }
                if dx * dx + dy * dy < rad * rad {
                    let col = self.child.source((x.wrapping_add(dx), y.wrapping_add(dy)));
                    proof {
                        lemma_blur_grid_bounds(self.child, pos, ri, dyi as int);
                        lemma_blur_row_bounds(self.child, pos, ri, dy as int, dxi as int);
                        assert((dyi as int) * (2 * ri) <= 510 * 510) by (nonlinear_arith)
                            requires 0 <= dyi as int <= 510 && 0 <= ri <= 255,
                        ;
                    }
                    sr = sr + col.r as u64;
                    sg = sg + col.g as u64;
                    sb = sb + col.b as u64;
                    sa = sa + col.a as u64;
                    cnt = cnt + 1;
                }
                dxi = dxi + 1;
            }
            dyi = dyi + 1;
        }
        if cnt > 0 {
            proof {
                lemma_blur_grid_bounds(self.child, pos, ri, 2 * ri);
                let g = blur_grid(self.child, pos, ri, 2 * ri);
                assert(g.0 / g.4 <= 255 && g.1 / g.4 <= 255 && g.2 / g.4 <= 255 && g.3 / g.4
                    <= 255) by (nonlinear_arith)
                    requires
                        g.4 >= 1 && 0 <= g.0 <= 255 * g.4 && 0 <= g.1 <= 255 * g.4 && 0 <= g.2
                            <= 255 * g.4 && 0 <= g.3 <= 255 * g.4,
                ;
            }
            Color { r: (sr / cnt) as u8, g: (sg / cnt) as u8, b: (sb / cnt) as u8, a: (sa / cnt) as u8 }
        } else {
            Color { r: 0, g: 0, b: 0, a: 0 }
        }
    }

    fn borders(&self) -> (b: Option<Borders>)
        ensures
            b == self.spec_borders(),
    {
        let rad: i32 = self.radius as i32;
        match self.child.borders() {
            None => None,
            Some(b) => Some(
                Borders {
                    w: (b.w.0.wrapping_sub(rad), b.w.1.wrapping_add(rad)),
                    h: (b.h.0.wrapping_sub(rad), b.h.1.wrapping_add(rad)),
                },
            ),
        }
    }
}

/// A blur of radius zero yields the transparent color at every position: the
/// open disc of radius zero holds no offsets, so no sample contributes.
pub proof fn lemma_blur_zero_radius<S: Source>(b: Blur<S>, pos: (i32, i32))
    requires
        b.radius == 0,
    ensures
        b.spec_source(pos) == Color::transparent(),
{
}

/// Borders compose through the combinator tree as expand, then scale, then
/// translate: an offset of a scale of a blur of a bounded child reports the
/// child's rectangle grown by the blur radius on every side, mapped through
/// the exact-rational factor toward zero, and translated by the offset, in
/// that order, under the wrapping coordinate convention.
pub proof fn lemma_borders_composition<S: Source>(tree: Offset<Scale<Blur<S>>>, b: Borders)
    requires
        tree.child.factor.0 >= 1,
        tree.child.factor.1 >= 1,
        tree.child.child.child.spec_borders() == Some(b),
    ensures
        ({
            let rad = tree.child.child.radius as i32;
            let num = tree.child.factor.0;
            let den = tree.child.factor.1;
            let (dx, dy) = tree.offset;
            tree.spec_borders() == Some(
                Borders {
                    w: (
                        mul_div_trunc(b.w.0.wrapping_sub(rad), num, den).wrapping_add(dx),
                        mul_div_trunc(b.w.1.wrapping_add(rad), num, den).wrapping_add(dx),
                    ),
                    h: (
                        mul_div_trunc(b.h.0.wrapping_sub(rad), num, den).wrapping_add(dy),
                        mul_div_trunc(b.h.1.wrapping_add(rad), num, den).wrapping_add(dy),
                    ),
                },
            )
        }),
{
}

} // verus!
