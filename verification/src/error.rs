use vstd::prelude::*;

verus! {

/// Why a rule could not be registered or a section could not be encoded.
#[derive(Clone, Copy, Debug, PartialEq, Eq, Structural)]
pub enum KeyDataError {
    /// A value does not fit the width of its wire field.
    ValueOutOfRange,
    /// A size or an offset would not fit a 16-bit wire field.
    RecordTooLarge,
}

} // verus!
