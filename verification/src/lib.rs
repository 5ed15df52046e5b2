//! Cyberpixie: the protocol, storage and control logic of a POV LED strip device.

pub mod app;
pub mod errors;
pub mod io;
pub mod links;
pub mod message;
pub mod pixels;
pub mod proto;
pub mod render;
pub mod softap;
pub mod storage;
pub mod time;

pub use errors::{Error, Result};

use vstd::prelude::*;

verus! {

/// The maximum effective length of the pixel strip.
///
/// It doesn't make sense to create pixel devices with strip longer than this one,
/// the ws2812 protocol has not enough refresh rate.
pub const MAX_STRIP_LEN: usize = 48;

/// Bytes count per single pixel.
pub const BYTES_PER_PIXEL: usize = 3;

} // verus!
