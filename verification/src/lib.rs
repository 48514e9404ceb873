//! Image pipeline library: format sniffing, decompression-bomb guards,
//! resize geometry, EXIF orientation, encoding, compositing and variant
//! generation, with the image and EXIF codecs reached through a small set
//! of trusted boundary functions.

pub mod bitmap;
pub mod composite;
pub mod encode;
pub mod error;
pub mod exif;
pub mod meta;
pub mod pipeline;
pub mod ratio64;
pub mod resize;
pub mod sniff;
pub mod testutil;
pub mod variants;

pub use error::MediaError;
