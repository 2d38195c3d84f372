//! Worley-style distance fields: random seed points and, for each pixel, an
//! 8-bit intensity that falls off with the squared distance to the nearest seed.

pub mod error;
pub mod field;
pub mod point;
pub mod raster;
pub mod seeds;

pub use error::FieldError;
pub use field::{Field, intensity, nearest_sq_dist, pixel_value, render, intensity_of, min_sq_dist, pixel_of, is_render_of, render_bytes, DIST_SCALE};
pub use point::{Point, sq_dist};
pub use raster::{generate_image, gray_bytes, GrayRaster};
pub use seeds::{generate, generate_random_characters, in_domain};
