//! SHA-1 as a streaming digest: padding, message schedule, compression and
//! hexadecimal rendering, each stated against a mathematical model.

pub mod compress;
pub mod engine;
pub mod error;
pub mod hex;
pub mod padding;
pub mod schedule;
pub mod words;

pub use engine::SHA1;
pub use error::Sha1Error;
