use vstd::prelude::*;
use crate::color::Color;
use crate::source::{Borders, Source};

verus! {

/// A decoded pixel grid: `width * height` pixels in row-major order, their
/// channel bytes laid out contiguously with no padding. How many bytes one
/// pixel takes is fixed by the [`Image`] variant that holds the grid.
pub struct Grid {
    pub width: u32,
    pub height: u32,
    pub data: Vec<u8>,
}

/// A decoded image in one of the four supported 8-bit channel layouts, each
/// normalized to an RGBA [`Color`] on read.
pub enum Image {
    /// One channel per pixel: gray, fully opaque.
    Gray(Grid),
    /// Two channels per pixel: gray and alpha.
    GrayAlpha(Grid),
    /// Three channels per pixel: red, green, blue, fully opaque.
    Rgb(Grid),
    /// Four channels per pixel: red, green, blue, alpha.
    Rgba(Grid),
}

/// The failure of building an [`Image`]: the supplied pixel layout is not
/// one of the four supported ones.
#[derive(Debug, PartialEq, Eq)]
pub enum Error {
    UnsupportedFormat,
}

/// The `image` crate's decoded image, carried opaquely into
/// [`Image::from_dynamic`].
#[verifier::external_type_specification]
#[verifier::external_body]
pub struct ExDynamicImage(image::DynamicImage);

/// The decomposition of a decoded image: its width, height, channel count —
/// 1, 2, 3 or 4 for the four supported 8-bit layouts, 0 for any other — and
/// its raw bytes. A name for what [`dynamic_parts`] hands out, which is a
/// function of the decoded image alone.
pub uninterp spec fn dyn_parts_of(im: image::DynamicImage) -> (u32, u32, u32, Seq<u8>);

/// Relies on `image::DynamicImage` and `image::ImageBuffer`: the match tells
/// the four 8-bit variants apart, one arm each, and hands out that variant's
/// dimensions and raw buffer with its channel count — 1 for `ImageLuma8`, 2
/// for `ImageLumaA8`, 3 for `ImageRgb8`, 4 for `ImageRgba8`, and 0 for every
/// other layout; that decomposition depends on the image alone and is named
/// [`dyn_parts_of`]. `ImageBuffer` guarantees (checked by `from_raw`, kept
/// by every constructor) that the buffer holds at least
/// `width * height * channels` bytes.
#[verifier::external_body]
fn dynamic_parts(im: image::DynamicImage) -> (r: (u32, u32, u32, Vec<u8>))
    ensures
        (r.0, r.1, r.2, r.3@) == dyn_parts_of(im),
        r.2 <= 4,
        r.2 >= 1 ==> (r.2 * r.0 * r.1) <= r.3@.len(),
{
    match im {
        image::DynamicImage::ImageLuma8(b) => (b.width(), b.height(), 1, b.into_raw()),
        image::DynamicImage::ImageLumaA8(b) => (b.width(), b.height(), 2, b.into_raw()),
        image::DynamicImage::ImageRgb8(b) => (b.width(), b.height(), 3, b.into_raw()),
        image::DynamicImage::ImageRgba8(b) => (b.width(), b.height(), 4, b.into_raw()),
        _ => (0, 0, 0, Vec::new()),
    }
}

impl Image {
    /// The pixel grid behind the image.
    pub open spec fn spec_grid(self) -> Grid {
        match self {
            Image::Gray(g) => g,
            Image::GrayAlpha(g) => g,
            Image::Rgb(g) => g,
            Image::Rgba(g) => g,
        }
    }

    /// How many bytes one pixel of this layout takes.
    pub open spec fn channels(self) -> int {
        match self {
            Image::Gray(_) => 1,
            Image::GrayAlpha(_) => 2,
            Image::Rgb(_) => 3,
            Image::Rgba(_) => 4,
        }
    }

    /// Well-formedness: the grid holds at least one full row-major plane of
    /// `width * height` pixels at this layout's channel count.
    pub open spec fn wf(self) -> bool {
        let g = self.spec_grid();
        self.channels() * g.width * g.height <= g.data.len()
    }

    /// The color of the pixel at `(x, y)`, normalized to RGBA: gray layouts
    /// repeat the gray byte over red, green and blue, and layouts without an
    /// alpha channel read as fully opaque. Meaningful when `(x, y)` is in
    /// range on a well-formed image.
    pub open spec fn texel(self, x: int, y: int) -> Color {
        let g = self.spec_grid();
        let base = self.channels() * (y * g.width + x);
        match self {
            Image::Gray(g) => Color {
                r: g.data[base],
                g: g.data[base],
                b: g.data[base],
                a: 255,
            },
            Image::GrayAlpha(g) => Color {
                r: g.data[base],
                g: g.data[base],
                b: g.data[base],
                a: g.data[base + 1],
            },
            Image::Rgb(g) => Color {
                r: g.data[base],
                g: g.data[base + 1],
                b: g.data[base + 2],
                a: 255,
            },
            Image::Rgba(g) => Color {
                r: g.data[base],
                g: g.data[base + 1],
                b: g.data[base + 2],
                a: g.data[base + 3],
            },
        }
    }

    /// The checked pixel lookup: the normalized color when `pos` is in range
    /// and the grid holds that pixel's bytes, `None` otherwise. On a
    /// well-formed image the second condition follows from the first.
    pub open spec fn spec_color(self, pos: (u32, u32)) -> Option<Color> {
        let g = self.spec_grid();
        let base = self.channels() * (pos.1 * g.width + pos.0);
        if pos.0 < g.width && pos.1 < g.height && base + self.channels() <= g.data.len() {
            Some(self.texel(pos.0 as int, pos.1 as int))
        } else {
            None
        }
    }

    /// Builds an image over a raw grid: `channels` picks the layout — 1 is
    /// gray, 2 gray with alpha, 3 RGB, 4 RGBA — and any other count is the
    /// unsupported-format error. On success the image keeps the given
    /// dimensions, layout and bytes exactly.
    pub fn from_parts(width: u32, height: u32, channels: u32, data: Vec<u8>) -> (r: Result<
        Self,
        Error,
    >)
        ensures
            (1 <= channels && channels <= 4) <==> r is Ok,
            match r {
                Ok(img) => {
                    &&& img.spec_grid().width == width
                    &&& img.spec_grid().height == height
                    &&& img.spec_grid().data == data
                    &&& img.channels() == channels
                },
                Err(e) => e is UnsupportedFormat,
            },
    {
        let grid = Grid { width, height, data };
        match channels {
            1 => Ok(Image::Gray(grid)),
            2 => Ok(Image::GrayAlpha(grid)),
            3 => Ok(Image::Rgb(grid)),
            4 => Ok(Image::Rgba(grid)),
            _ => Err(Error::UnsupportedFormat),
        }
    }

    /// Builds an image from the `image` crate's decoded form.
    ///
    /// Succeeds exactly when the decoded layout is one of the four 8-bit
    /// ones, and then yields a well-formed image keeping the decoded
    /// dimensions, layout and bytes exactly; any other layout is the
    /// unsupported-format error.
    pub fn from_dynamic(im: image::DynamicImage) -> (r: Result<Self, Error>)
        ensures
            ({
                let (w, h, c, bytes) = dyn_parts_of(im);
                &&& ((1 <= c && c <= 4) <==> r is Ok)
                &&& match r {
                    Ok(img) => {
                        &&& img.wf()
                        &&& img.spec_grid().width == w
                        &&& img.spec_grid().height == h
                        &&& img.channels() == c
                        &&& img.spec_grid().data@ == bytes
                    },
                    Err(e) => e is UnsupportedFormat,
                }
            }),
    {
        let (width, height, channels, data) = dynamic_parts(im);
        Self::from_parts(width, height, channels, data)
    }

    /// The image's dimensions, as `(width, height)`.
    pub fn size(&self) -> (s: (u32, u32))
        ensures
            s == (self.spec_grid().width, self.spec_grid().height),
    {
        match self {
            Image::Gray(g) => (g.width, g.height),
            Image::GrayAlpha(g) => (g.width, g.height),
            Image::Rgb(g) => (g.width, g.height),
            Image::Rgba(g) => (g.width, g.height),
        }
    }

    /// Looks the pixel at `pos` up, per [`Image::spec_color`].
    pub fn color(&self, pos: (u32, u32)) -> (r: Option<Color>)
        ensures
            r == self.spec_color(pos),
    {
        let (x, y) = pos;
        let (width, height) = self.size();
        let channels: u32 = match self {
            Image::Gray(_) => 1,
            Image::GrayAlpha(_) => 2,
            Image::Rgb(_) => 3,
            Image::Rgba(_) => 4,
        };
        if !(x < width && y < height) {
            return None;
        }
        proof {
            assert((y as int) * (width as int) + (x as int) < 0xFFFF_FFFF_FFFF_FFFF)
                by (nonlinear_arith)
                requires
                    x < width && y < height && width <= 0xFFFF_FFFFu32 && height
                        <= 0xFFFF_FFFFu32,
            ;
        }
        let idx: u64 = (y as u64) * (width as u64) + (x as u64);
        let base128: u128 = (channels as u128) * (idx as u128);
        let data = match self {
            Image::Gray(g) => &g.data,
            Image::GrayAlpha(g) => &g.data,
            Image::Rgb(g) => &g.data,
            Image::Rgba(g) => &g.data,
        };
        if !(base128 + (channels as u128) <= data.len() as u128) {
            return None;
        }
        let base: usize = base128 as usize;
        let c = match self {
            Image::Gray(g) => Color {
                r: g.data[base],
                g: g.data[base],
                b: g.data[base],
                a: 255,
            },
            Image::GrayAlpha(g) => Color {
                r: g.data[base],
                g: g.data[base],
                b: g.data[base],
                a: g.data[base + 1],
            },
            Image::Rgb(g) => Color {
                r: g.data[base],
                g: g.data[base + 1],
                b: g.data[base + 2],
                a: 255,
            },
            Image::Rgba(g) => Color {
                r: g.data[base],
                g: g.data[base + 1],
                b: g.data[base + 2],
                a: g.data[base + 3],
            },
        };
        Some(c)
    }
}

/// On a well-formed image every in-range lookup succeeds: the checked pixel
/// lookup is `Some` of the normalized pixel exactly when the position is
/// inside the grid.
pub proof fn lemma_color_in_range(img: Image, pos: (u32, u32))
    requires
        img.wf(),
    ensures
        img.spec_color(pos) == if pos.0 < img.spec_grid().width && pos.1
            < img.spec_grid().height {
            Some(img.texel(pos.0 as int, pos.1 as int))
        } else {
            None
        },
{
    let g = img.spec_grid();
    if pos.0 < g.width && pos.1 < g.height {
        assert(img.channels() * (pos.1 * g.width + pos.0) + img.channels() <= img.channels()
            * g.width * g.height) by (nonlinear_arith)
            requires
                pos.0 < g.width && pos.1 < g.height && 1 <= img.channels() <= 4,
        ;
    }
}

/// An image is a source: positions with negative coordinates or outside the
/// grid read as the transparent color, and the borders are the grid's own
/// rectangle, degenerating to a single cell for zero-sized images.
impl Source for Image {
    open spec fn spec_source(&self, pos: (i32, i32)) -> Color {
        if pos.0 >= 0 && pos.1 >= 0 {
            match self.spec_color((pos.0 as u32, pos.1 as u32)) {
                Some(c) => c,
                None => Color::transparent(),
            }
        } else {
            Color::transparent()
        }
    }

    open spec fn spec_borders(&self) -> Option<Borders> {
        let g = self.spec_grid();
        Some(
            Borders {
                w: (0, (if g.width == 0 { 0u32 } else { (g.width - 1) as u32 }) as i32),
                h: (0, (if g.height == 0 { 0u32 } else { (g.height - 1) as u32 }) as i32),
            },
        )
    }

    fn source(&self, pos: (i32, i32)) -> (c: Color)
        ensures
            c == self.spec_source(pos),
    {
        let (x, y) = pos;
        if x >= 0 && y >= 0 {
            match self.color((x as u32, y as u32)) {
                Some(c) => c,
                None => Color { r: 0, g: 0, b: 0, a: 0 },
            }
        } else {
            Color { r: 0, g: 0, b: 0, a: 0 }
        }
    }

    fn borders(&self) -> (b: Option<Borders>)
        ensures
            b == self.spec_borders(),
    {
        let (width, height) = self.size();
        let x1: u32 = if width == 0 { 0 } else { width - 1 };
        let y1: u32 = if height == 0 { 0 } else { height - 1 };
        Some(
            Borders {
                w: (0, #[verifier::truncate] (x1 as i32)),
                h: (0, #[verifier::truncate] (y1 as i32)),
            },
        )
    }
}

} // verus!
