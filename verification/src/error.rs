//! The errors of decoding.

use vstd::prelude::*;

verus! {

/// Why a byte sequence could not be decoded.
///
/// Each decoder reports the failure of the component it was reading, and a decoder that
/// reads several components hands the error of the failing one on as it is.
#[derive(Debug, Clone, Copy, PartialEq, Eq, Structural)]
pub enum DeserializationError {
    /// The input ended before a complete digest was read.
    TruncatedDigest,
    /// The input ended before a complete kernel encoding was read.
    TruncatedKernel,
    /// The kernel encoding announces more procedures than a kernel can hold.
    TooManyProcedures,
}

} // verus!
