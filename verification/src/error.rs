use vstd::prelude::*;

verus! {

/// Why a byte buffer could not be decoded into a texture.
///
/// Every failure is reported to the immediate caller; nothing is silently
/// recovered or defaulted inside the codec.
#[derive(Clone, Copy, Debug, PartialEq, Eq, Structural)]
pub enum ImageError {
    /// The caller supplied degenerate dimensions: both width and height
    /// are zero.
    InvalidInput,
    /// The byte buffer is shorter than the size the requested dimensions
    /// demand: `required` bytes were needed but only `available` were
    /// supplied.
    InvalidData { required: u64, available: u64 },
}

} // verus!
