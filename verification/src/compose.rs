//! Network composition: one network after another, or two side by side.

pub mod chain;
pub mod zip;

pub use chain::{Chain, ChainInter};
pub use zip::{Zip, ZipInter};
