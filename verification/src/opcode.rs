use vstd::prelude::*;

verus! {

/// The closed set of instruction tags of the key bytecode.
///
/// The wire bytes are fixed by the readers that interpret a record. They are
/// not sequential, and `JmpIfAccessPoint` and `RuleVerifyValidUntil` share a
/// byte: a tag alone does not tell the two apart.
#[derive(Clone, Copy, Debug, PartialEq, Eq, Structural)]
pub enum TLCode {
    JmpIfAccessPoint,
    RuleVerifyAndStoreOverride,
    RuleVerifyValidUntil,
    CmdAccess,
    CmdAccessDenied,
    TlsEnd,
}

impl TLCode {
    /// The wire byte of each instruction tag.
    pub open spec fn byte(self) -> u8 {
        match self {
            TLCode::JmpIfAccessPoint => 0x02u8,
            TLCode::RuleVerifyAndStoreOverride => 0x01u8,
            TLCode::RuleVerifyValidUntil => 0x02u8,
            TLCode::CmdAccess => 0x03u8,
            TLCode::CmdAccessDenied => 0xFFu8,
            TLCode::TlsEnd => 0xAAu8,
        }
    }

    /// Encodes the tag as its wire byte.
    pub fn to_byte(self) -> (b: u8)
        ensures
            b == self.byte(),
    {
        match self {
            TLCode::JmpIfAccessPoint => 0x02,
            TLCode::RuleVerifyAndStoreOverride => 0x01,
            TLCode::RuleVerifyValidUntil => 0x02,
            TLCode::CmdAccess => 0x03,
            TLCode::CmdAccessDenied => 0xFF,
            TLCode::TlsEnd => 0xAA,
        }
    }
}

} // verus!
