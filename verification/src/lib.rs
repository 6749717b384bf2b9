mod color;
mod image;
mod make;
pub mod source;

pub use crate::color::{lemma_color_lerp_endpoints, lemma_lerp_endpoints, lerp_channel, Color};
pub use crate::image::{dyn_parts_of, lemma_color_in_range, Error as ImageError, Grid, Image};
pub use crate::make::{make, pixel_color, pixel_pos, pixel_written};
