//! Conversion of a per-frame stream of dynamic color-grading metadata
//! into a hierarchical per-shot metadata document (in one of two schema
//! dialects) and into SMPTE-timecoded editorial cut lists.
pub mod cmv29;
pub mod cmv40;
pub mod convert;
pub mod display;
pub mod edl;
pub mod levels;
pub mod metadata;
pub mod rpu;
pub mod text;

use vstd::prelude::*;

verus! {

/// The two conversions this crate offers: the metadata document and the
/// editorial cut list.
pub enum Command {
    Convert(crate::convert::ConvertArgs),
    Edl(crate::edl::EdlArgs),
}

/// The configuration errors the conversion pipelines reject before any
/// frame is consumed.
#[derive(Clone, Copy, Debug, PartialEq, Eq, Structural)]
pub enum ConvertError {
    /// An explicit frame count of zero.
    InvalidFrameCount,
    /// A start-skip at or past the requested frame count.
    InvalidSkip,
    /// A canvas size that is not two nonzero dimensions.
    InvalidCanvas,
    /// A frame rate with a zero part, or more than two parts.
    InvalidRate,
    /// An edit rate whose denominator the cut-list generator cannot use.
    UnsupportedRateDenominator,
    /// An output node without a track, which the document cannot hold.
    NoTrack,
}

impl ConvertError {
    /// A short description of the error.
    pub fn message(&self) -> (r: String)
        ensures
            (*self == ConvertError::InvalidFrameCount ==> r@ == "Invalid specified frame count."@),
            (*self == ConvertError::InvalidSkip ==> r@ == "Invalid skip count."@),
            (*self == ConvertError::InvalidCanvas ==> r@ == "Invalid canvas size."@),
            (*self == ConvertError::InvalidRate ==> r@ == "Invalid frame rate."@),
            (*self == ConvertError::UnsupportedRateDenominator ==> r@
                == "Only /1 or /1001 denom is supported."@),
            (*self == ConvertError::NoTrack ==> r@ == "No track in output."@),
    {
        let mut s = String::new();
        match self {
            ConvertError::InvalidFrameCount => s.append("Invalid specified frame count."),
            ConvertError::InvalidSkip => s.append("Invalid skip count."),
            ConvertError::InvalidCanvas => s.append("Invalid canvas size."),
            ConvertError::InvalidRate => s.append("Invalid frame rate."),
            ConvertError::UnsupportedRateDenominator => s.append(
                "Only /1 or /1001 denom is supported.",
            ),
            ConvertError::NoTrack => s.append("No track in output."),
        }
        s
    }
}

} // verus!
