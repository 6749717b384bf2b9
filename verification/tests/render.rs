use nied::{make, Color, Grid, Image, ImageError};

fn c(r: u8, g: u8, b: u8, a: u8) -> Color {
    Color { r, g, b, a }
}

#[test]
fn from_dynamic_keeps_rgba_pixels() {
    let buf = image::RgbaImage::from_raw(2, 1, vec![1, 2, 3, 4, 5, 6, 7, 8]).unwrap();
    let img = Image::from_dynamic(image::DynamicImage::ImageRgba8(buf)).unwrap();
    assert_eq!(img.size(), (2, 1));
    assert_eq!(img.color((0, 0)), Some(c(1, 2, 3, 4)));
    assert_eq!(img.color((1, 0)), Some(c(5, 6, 7, 8)));
}

#[test]
fn from_dynamic_normalizes_gray() {
    let buf = image::GrayImage::from_raw(1, 2, vec![9, 200]).unwrap();
    let img = Image::from_dynamic(image::DynamicImage::ImageLuma8(buf)).unwrap();
    assert_eq!(img.size(), (1, 2));
    assert_eq!(img.color((0, 1)), Some(c(200, 200, 200, 255)));
}

#[test]
fn from_dynamic_rejects_other_layouts() {
    let buf: image::ImageBuffer<image::Luma<u16>, Vec<u16>> =
        image::ImageBuffer::from_raw(1, 1, vec![0u16]).unwrap();
    let r = Image::from_dynamic(image::DynamicImage::ImageLuma16(buf));
    match r {
        Err(e) => assert_eq!(e, ImageError::UnsupportedFormat),
        Ok(_) => panic!("an unsupported layout must be rejected"),
    }
}

#[test]
fn from_parts_accepts_the_four_layouts() {
    let img = Image::from_parts(1, 1, 2, vec![50, 60]).unwrap();
    assert_eq!(img.color((0, 0)), Some(c(50, 50, 50, 60)));
    match Image::from_parts(1, 1, 5, vec![0; 5]) {
        Err(e) => assert_eq!(e, ImageError::UnsupportedFormat),
        Ok(_) => panic!("five channels are not a supported layout"),
    }
    match Image::from_parts(1, 1, 0, vec![]) {
        Err(e) => assert_eq!(e, ImageError::UnsupportedFormat),
        Ok(_) => panic!("zero channels are not a supported layout"),
    }
}

#[test]
fn render_constant_color() {
    let col = c(40, 50, 60, 70);
    let out = make(&col, (3, 2));
    assert_eq!(out.size(), (3, 2));
    match out {
        Image::Rgba(Grid { width, height, data }) => {
            assert_eq!((width, height), (3, 2));
            assert_eq!(data, [40, 50, 60, 70].repeat(6));
        }
        _ => panic!("render must produce an RGBA grid"),
    }
}

#[test]
fn render_stacked_layers() {
    let red = c(255, 0, 0, 255);
    let blue_half = c(0, 0, 255, 128);
    // the opaque first layer stops the stack fold at once, so every
    // output pixel holds that layer's color alone
    let out = make(&vec![red, blue_half], (2, 2));
    match out {
        Image::Rgba(Grid { data, .. }) => {
            assert_eq!(data, [255, 0, 0, 255].repeat(4));
        }
        _ => panic!("render must produce an RGBA grid"),
    }
}

#[test]
fn render_half_blue_over_nothing() {
    let blue_half = c(0, 0, 255, 128);
    let out = make(&vec![blue_half], (2, 2));
    match out {
        Image::Rgba(Grid { data, .. }) => {
            assert_eq!(data, [0, 0, 128, 128].repeat(4));
        }
        _ => panic!("render must produce an RGBA grid"),
    }
}

#[test]
fn render_reads_source_row_major() {
    let img = Image::Rgba(Grid {
        width: 2,
        height: 2,
        data: vec![10, 11, 12, 13, 20, 21, 22, 23, 30, 31, 32, 33, 40, 41, 42, 43],
    });
    let out = make(&img, (2, 2));
    match out {
        Image::Rgba(Grid { data, .. }) => {
            assert_eq!(
                data,
                vec![10, 11, 12, 13, 20, 21, 22, 23, 30, 31, 32, 33, 40, 41, 42, 43]
            );
        }
        _ => panic!("render must produce an RGBA grid"),
    }
}

#[test]
fn render_empty_output() {
    let col = c(1, 2, 3, 4);
    let out = make(&col, (0, 5));
    assert_eq!(out.size(), (0, 5));
    match out {
        Image::Rgba(Grid { data, .. }) => assert!(data.is_empty()),
        _ => panic!("render must produce an RGBA grid"),
    }
}

#[test]
fn render_clips_image_to_frame() {
    let img = Image::Rgba(Grid { width: 1, height: 1, data: vec![9, 8, 7, 255] });
    let out = make(&img, (2, 1));
    match out {
        Image::Rgba(Grid { data, .. }) => {
            // the second output pixel lies outside the image and is transparent
            assert_eq!(data, vec![9, 8, 7, 255, 0, 0, 0, 0]);
        }
        _ => panic!("render must produce an RGBA grid"),
    }
}
