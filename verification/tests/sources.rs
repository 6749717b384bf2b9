use nied::source::{Blur, Borders, Filter, Offset, Scale, Source};
use nied::{Color, Grid, Image};

fn c(r: u8, g: u8, b: u8, a: u8) -> Color {
    Color { r, g, b, a }
}

fn img2x2() -> Image {
    // distinct pixels: p00, p10, p01, p11 in row-major order
    Image::Rgba(Grid {
        width: 2,
        height: 2,
        data: vec![
            10, 11, 12, 255, 20, 21, 22, 255, 30, 31, 32, 255, 40, 41, 42, 255,
        ],
    })
}

fn img4x4_const(col: Color) -> Image {
    let mut data = Vec::new();
    for _ in 0..16 {
        data.extend_from_slice(&[col.r, col.g, col.b, col.a]);
    }
    Image::Rgba(Grid { width: 4, height: 4, data })
}

#[test]
fn borders_contains_bounds() {
    let b = Borders { w: (-1, 3), h: (2, 4) };
    assert!(b.contains((-1, 2)));
    assert!(b.contains((3, 4)));
    assert!(b.contains((0, 3)));
    assert!(!b.contains((-2, 3)));
    assert!(!b.contains((4, 3)));
    assert!(!b.contains((0, 1)));
    assert!(!b.contains((0, 5)));
}

#[test]
fn color_is_constant_source() {
    let col = c(9, 8, 7, 6);
    assert_eq!(col.source((0, 0)), col);
    assert_eq!(col.source((i32::MIN, i32::MAX)), col);
    assert_eq!(col.borders(), None);
}

#[test]
fn image_source_and_borders() {
    let img = img2x2();
    assert_eq!(img.size(), (2, 2));
    assert_eq!(img.source((0, 0)), c(10, 11, 12, 255));
    assert_eq!(img.source((1, 1)), c(40, 41, 42, 255));
    assert_eq!(img.source((2, 0)), c(0, 0, 0, 0));
    assert_eq!(img.source((-1, 0)), c(0, 0, 0, 0));
    assert_eq!(img.borders(), Some(Borders { w: (0, 1), h: (0, 1) }));
}

#[test]
fn image_color_lookup() {
    let img = img2x2();
    assert_eq!(img.color((1, 0)), Some(c(20, 21, 22, 255)));
    assert_eq!(img.color((0, 2)), None);
    assert_eq!(img.color((2, 0)), None);
}

#[test]
fn gray_layouts_normalize() {
    let gray = Image::Gray(Grid { width: 2, height: 1, data: vec![7, 9] });
    assert_eq!(gray.color((1, 0)), Some(c(9, 9, 9, 255)));
    let ga = Image::GrayAlpha(Grid { width: 1, height: 1, data: vec![5, 100] });
    assert_eq!(ga.color((0, 0)), Some(c(5, 5, 5, 100)));
    let rgb = Image::Rgb(Grid { width: 1, height: 1, data: vec![1, 2, 3] });
    assert_eq!(rgb.color((0, 0)), Some(c(1, 2, 3, 255)));
}

#[test]
fn empty_image_has_degenerate_borders() {
    let img = Image::Rgba(Grid { width: 0, height: 0, data: vec![] });
    assert_eq!(img.borders(), Some(Borders { w: (0, 0), h: (0, 0) }));
    assert_eq!(img.source((0, 0)), c(0, 0, 0, 0));
}

#[test]
fn offset_translates_queries() {
    let img = img2x2();
    let off = Offset::new(&img, (5, 7));
    assert_eq!(off.source((5, 7)), c(10, 11, 12, 255));
    assert_eq!(off.source((6, 8)), c(40, 41, 42, 255));
    assert_eq!(off.source((0, 0)), c(0, 0, 0, 0));
}

#[test]
fn offset_inverts_with_wrapping() {
    let img = img2x2();
    let off = Offset::new(&img, (i32::MIN, 0));
    assert_eq!(off.source((i32::MIN.wrapping_add(1), 0)), img.source((1, 0)));
}

#[test]
fn offset_translates_borders() {
    let img = img2x2();
    let off = Offset::new(&img, (5, 7));
    // the borders move with the data: they cover exactly the positions
    // where the offset queries reach the image
    let b = off.borders().unwrap();
    assert_eq!(b, Borders { w: (5, 6), h: (7, 8) });
    assert!(b.contains((5, 7)));
    assert!(b.contains((6, 8)));
    assert!(!b.contains((4, 7)));
}

#[test]
fn scale_by_one_near_is_identity() {
    let img = img2x2();
    let s = Scale::new(&img, (1, 1), Filter::Near);
    assert_eq!(s.source((0, 0)), img.source((0, 0)));
    assert_eq!(s.source((1, 1)), img.source((1, 1)));
    assert_eq!(s.source((-3, 2)), img.source((-3, 2)));
    assert_eq!(s.borders(), img.borders());
}

#[test]
fn scale_near_doubles() {
    let img = img2x2();
    let s = Scale::new(&img, (2, 1), Filter::Near);
    assert_eq!(s.source((3, 1)), c(20, 21, 22, 255));
    assert_eq!(s.source((2, 2)), c(40, 41, 42, 255));
    assert_eq!(s.borders(), Some(Borders { w: (0, 2), h: (0, 2) }));
}

#[test]
fn scale_linear_tie_takes_single_sample() {
    let img = img2x2();
    let s = Scale::new(&img, (2, 1), Filter::Linear);
    // both child coordinates land exactly on one half: one direct sample
    assert_eq!(s.source((1, 1)), c(10, 11, 12, 255));
    assert_eq!(s.source((3, 3)), c(40, 41, 42, 255));
}

#[test]
fn scale_linear_interpolates_on_one_axis() {
    let img = img2x2();
    let s = Scale::new(&img, (2, 1), Filter::Linear);
    // x ties, y has fractional part zero: halfway toward the row above,
    // which lies outside the image and reads transparent
    assert_eq!(s.source((1, 0)), c(6, 6, 7, 128));
}

#[test]
fn scale_saturates_extreme_coordinates() {
    let img = img2x2();
    // an enormous upscale maps every nonzero coordinate far outside the
    // image; the mapped coordinate saturates instead of wrapping
    let s = Scale::new(&img, (1, u32::MAX), Filter::Near);
    assert_eq!(s.source((1, 0)), c(0, 0, 0, 0));
    assert_eq!(s.source((0, 0)), c(10, 11, 12, 255));
    assert_eq!(s.source((-1, 0)), c(0, 0, 0, 0));
}

#[test]
fn blur_radius_one_is_single_sample() {
    let img = img2x2();
    let b = Blur::new(&img, 1);
    assert_eq!(b.source((0, 0)), c(10, 11, 12, 255));
    assert_eq!(b.source((1, 1)), c(40, 41, 42, 255));
}

#[test]
fn blur_averages_inside() {
    let img = img4x4_const(c(80, 90, 100, 255));
    let b = Blur::new(&img, 2);
    // all nine disc samples read the constant: the average is exact
    assert_eq!(b.source((1, 1)), c(80, 90, 100, 255));
}

#[test]
fn blur_averages_across_edge() {
    let img = img4x4_const(c(80, 90, 100, 255));
    let b = Blur::new(&img, 2);
    // at the corner only four of the nine disc samples are in range
    assert_eq!(b.source((0, 0)), c(35, 40, 44, 113));
}

#[test]
fn blur_zero_radius_is_transparent_everywhere() {
    let img = img2x2();
    let b = Blur::new(&img, 0);
    assert_eq!(b.source((0, 0)), c(0, 0, 0, 0));
    assert_eq!(b.source((1, 1)), c(0, 0, 0, 0));
    let unbounded = Blur::new(c(1, 2, 3, 4), 0);
    assert_eq!(unbounded.source((5, -5)), c(0, 0, 0, 0));
}

#[test]
fn blur_outside_borders_is_transparent() {
    let img = img4x4_const(c(80, 90, 100, 255));
    let b = Blur::new(&img, 2);
    assert_eq!(b.borders(), Some(Borders { w: (-2, 5), h: (-2, 5) }));
    assert_eq!(b.source((6, 0)), c(0, 0, 0, 0));
    assert_eq!(b.source((0, -3)), c(0, 0, 0, 0));
}

#[test]
fn stack_overlays_in_order() {
    let blue_half = c(0, 0, 255, 128);
    let layers = vec![blue_half];
    assert_eq!(layers.source((0, 0)), c(0, 0, 128, 128));
    assert_eq!(layers.borders(), None);
}

#[test]
fn stack_empty_is_transparent() {
    let layers: Vec<Color> = vec![];
    assert_eq!(layers.source((3, 4)), c(0, 0, 0, 0));
}

#[test]
fn stack_stops_at_first_opaque_layer() {
    let red = c(255, 0, 0, 255);
    let blue_half = c(0, 0, 255, 128);
    let layers = vec![red, blue_half];
    assert_eq!(layers.source((0, 0)), red);
}

#[test]
fn borders_compose_through_the_tree() {
    let img = img4x4_const(c(1, 1, 1, 255));
    let blurred = Blur::new(&img, 2);
    let scaled = Scale::new(&blurred, (3, 2), Filter::Near);
    let tree = Offset::new(&scaled, (10, 20));
    // expand by 2, scale by 3/2 toward zero, then translate by the offset
    assert_eq!(
        tree.borders(),
        Some(Borders { w: (7, 17), h: (17, 27) })
    );
}
