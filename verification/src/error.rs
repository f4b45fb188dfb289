//! Reasons for which a configuration is refused before any clock edge is
//! simulated.

use vstd::prelude::*;

verus! {

/// Why a set of parameters cannot be simulated.
#[derive(Clone, Copy, Debug, PartialEq, Eq, Structural)]
pub enum ParamError {
    /// A divider was asked to count modulo zero.
    ZeroDivider,
    /// The iterate's fraction is wider than the arithmetic word allows.
    FracTooWide,
    /// The phase accumulator is wider than the arithmetic word.
    PhaseTooWide,
    /// More channels than the mixer's selector can address.
    TooManyChannels,
    /// The mixer's selector is wider than its register, or too narrow to
    /// reach every channel.
    SelectorWidth,
    /// The number of clock edges does not fit in 64 bits.
    DurationOverflow,
}

} // verus!
