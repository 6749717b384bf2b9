use vstd::prelude::*;
use rayon::iter::{IntoParallelIterator, ParallelIterator};
use crate::color::Color;
use crate::image::{Grid, Image};
use crate::source::Source;

verus! {

/// The position of pixel `n` of a row-major output `width` columns wide:
/// column `n mod width`, row `n / width`.
pub open spec fn pixel_pos(n: int, width: int) -> (i32, i32) {
    ((n % width) as i32, (n / width) as i32)
}

/// Computes the color of output pixel `n` by querying the source at that
/// pixel's row-major position.
pub fn pixel_color<S: Source>(source: &S, n: usize, width: u32) -> (c: Color)
    requires
        width >= 1,
    ensures
        c == source.spec_source(pixel_pos(n as int, width as int)),
{
    let xw: u64 = (n as u64) % (width as u64);
    let yw: u64 = (n as u64) / (width as u64);
    let x: i32 = #[verifier::truncate] (xw as i32);
    let y: i32 = #[verifier::truncate] (yw as i32);
    source.source((x, y))
}

/// Relies on rayon's parallel iterators: `into_par_iter` over a range,
/// `map` and `collect` yield exactly the mapped value of every index, in
/// index order, whatever order the workers ran in. Each element is the
/// verified per-pixel computation [`pixel_color`].
#[verifier::external_body]
fn pixel_colors_parallel<S: Source + Sync>(source: &S, len: usize, width: u32) -> (r: Vec<
    Color,
>)
    requires
        width >= 1,
    ensures
        r@.len() == len,
        forall|n: int|
            0 <= n < len ==> r@[n] == source.spec_source(pixel_pos(n, width as int)),
{
    (0..len).into_par_iter().map(|n| pixel_color(source, n, width)).collect()
}

/// Whether the four bytes of pixel `n` in a packed row-major RGBA buffer
/// hold exactly the channels of `c`.
pub open spec fn pixel_written(data: Seq<u8>, n: int, c: Color) -> bool {
    data[4 * n] == c.r && data[4 * n + 1] == c.g && data[4 * n + 2] == c.b && data[4 * n + 3]
        == c.a
}

/// Renders a full frame: queries `source` at every pixel of a
/// `size.0 * size.1` output grid, in parallel, and packs the resulting
/// colors into a row-major RGBA image, four bytes per pixel.
pub fn make<S: Source + Sync>(source: &S, size: (u32, u32)) -> (r: Image)
    requires
        4 * (size.0 as int) * (size.1 as int) <= usize::MAX,
    ensures
        r is Rgba,
        r.wf(),
        r.spec_grid().width == size.0,
        r.spec_grid().height == size.1,
        r.spec_grid().data.len() == 4 * (size.0 as int) * (size.1 as int),
        forall|n: int|
            0 <= n < (size.0 as int) * (size.1 as int) ==> #[trigger] pixel_written(
                r.spec_grid().data@,
                n,
                source.spec_source(pixel_pos(n, size.0 as int)),
            ),
{
    let (width, height) = size;
    proof {
        assert((width as int) * (height as int) <= usize::MAX && 4 * ((width as int) * (
        height as int)) <= usize::MAX) by (nonlinear_arith)
            requires
                4 * (width as int) * (height as int) <= usize::MAX && usize::MAX >= 0,
        ;
    }
    let len: usize = (width as usize) * (height as usize);
    let cols: Vec<Color> = if width >= 1 {
        pixel_colors_parallel(source, len, width)
    } else {
        proof {
            assert((width as int) * (height as int) == 0) by (nonlinear_arith)
                requires width == 0,
            ;
        }
        Vec::new()
    };
    let mut data: Vec<u8> = Vec::new();
    let mut i: usize = 0;
    while i < cols.len()
        invariant
            i <= cols.len(),
            cols.len() == len,
            len == (width as int) * (height as int),
            4 * len <= usize::MAX,
            data.len() == 4 * i,
            width >= 1 ==> forall|n: int|
                0 <= n < cols.len() ==> cols[n] == source.spec_source(
                    pixel_pos(n, width as int),
                ),
            forall|n: int|
                0 <= n < i ==> #[trigger] pixel_written(data@, n, cols[n]),
        decreases cols.len() - i,
    {
        let c = cols[i];
        let ghost data0 = data@;
        data.push(c.r);
        data.push(c.g);
        data.push(c.b);
        data.push(c.a);
        proof {
            assert forall|n: int| 0 <= n < i + 1 implies #[trigger] pixel_written(
                data@,
                n,
                cols[n],
            ) by {
                if n < i {
                    assert(pixel_written(data0, n, cols[n]));
                    assert(data@[4 * n] == data0[4 * n]);
                    assert(data@[4 * n + 1] == data0[4 * n + 1]);
                    assert(data@[4 * n + 2] == data0[4 * n + 2]);
                    assert(data@[4 * n + 3] == data0[4 * n + 3]);
                }
            }
        }
        i = i + 1;
    }
    proof {
        assert(4 * ((width as int) * (height as int)) == 4 * (width as int) * (height as int))
            by (nonlinear_arith);
        if width == 0 {
            assert((width as int) * (height as int) == 0) by (nonlinear_arith)
                requires width == 0,
            ;
        }
        assert forall|n: int| 0 <= n < (width as int) * (height as int) implies #[trigger] pixel_written(
            data@,
            n,
            source.spec_source(pixel_pos(n, width as int)),
        ) by {
            assert(pixel_written(data@, n, cols[n]));
        }
    }
    Image::Rgba(Grid { width, height, data })
}

} // verus!
