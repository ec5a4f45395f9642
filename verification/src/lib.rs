//! A pixel-buffer pipeline around an external color quantizer and a lossless
//! PNG encoder/decoder: it reinterprets raw byte buffers as 4-channel pixels,
//! widens gray and gray+alpha data to canonical RGBA in place, corrects the
//! byte order of 16-bit samples, and rewrites a buffer through a palette.
use vstd::prelude::*;

pub mod decode;
pub mod encode;
pub mod endian;
pub mod expand;
pub mod quant;

pub use decode::png_to_rgba;
pub use encode::png_encode;
pub use encode::EncodeOptions;
pub use quant::QuantizeOptions;

verus! {

/// The two failure classes of the pipeline: a caller handed geometry that does
/// not match the buffer (`Geometry`), or an external engine could not produce
/// a result (`Engine`).
#[derive(Clone, Copy, Debug, PartialEq, Eq, Structural)]
pub enum PipelineError {
    Geometry,
    Engine,
}

} // verus!
