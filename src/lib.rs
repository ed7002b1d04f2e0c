//! A fixed-size bitmap: a compact array of boolean flags packed into bytes,
//! with per-bit `set`, `unset` and `get`, and bounds checked on every access.

pub mod bitmap;
pub mod laws;

pub use bitmap::{Bitmap, BitmapError};
