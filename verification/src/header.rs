use crate::encoding::{be32, be_value, lemma_be32_value, push_be32};
use vstd::prelude::*;

verus! {

/// The first byte of every record.
pub const ENVELOPE_TAG: u8 = 0x01;

/// The format byte of a record that holds a single block.
pub const SINGLE_BLOCK_FORMAT: u8 = 0xFF;

/// The version byte of the key data header.
pub const KEY_DATA_VERSION: u8 = 1;

/// The header-length byte of the key data header.
pub const KEY_DATA_HEADER_LENGTH: u8 = 4;

/// The envelope marker: the constant tag and the format byte.
pub struct Header {
    format: u8,
}

/// The tag byte followed by the format byte.
pub open spec fn envelope_bytes(format: u8) -> Seq<u8> {
    seq![ENVELOPE_TAG, format]
}

/// Version, header length, and the key identifier high byte first.
pub open spec fn key_data_header_bytes(key_id: u32) -> Seq<u8> {
    seq![KEY_DATA_VERSION, KEY_DATA_HEADER_LENGTH] + be32(key_id)
}

impl Header {
    /// The format byte that the header was made with.
    pub closed spec fn format(&self) -> u8 {
        self.format
    }

    pub fn new(format: u8) -> (h: Header)
        ensures
            h.format() == format,
    {
        Header { format }
    }

    /// The two marker bytes of the envelope.
    pub fn to_bytes(&self) -> (bytes: Vec<u8>)
        ensures
            bytes@ == envelope_bytes(self.format()),
    {
        let mut data: Vec<u8> = Vec::new();
        data.push(ENVELOPE_TAG);
        data.push(self.format);
        assert(data@ =~= envelope_bytes(self.format()));
        data
    }
}

/// Fixed-size metadata in front of the payload's rules.
pub struct KeyDataHeader {
    version: u8,
    key_id: u32,
}

impl KeyDataHeader {
    #[verifier::type_invariant]
    spec fn version_is_fixed(self) -> bool {
        self.version == KEY_DATA_VERSION
    }

    /// The key identifier that the header was made with.
    pub closed spec fn key_id(&self) -> u32 {
        self.key_id
    }

    pub fn new(key_id: u32) -> (h: KeyDataHeader)
        ensures
            h.key_id() == key_id,
    {
        KeyDataHeader { version: KEY_DATA_VERSION, key_id }
    }

    /// The number of bytes that `to_bytes` gives, whatever the key identifier.
    pub fn size(&self) -> (n: u16)
        ensures
            n == 6,
            n == key_data_header_bytes(self.key_id()).len(),
    {
        6
    }

    /// The six header bytes; the last four read back as the key identifier.
    pub fn to_bytes(&self) -> (bytes: Vec<u8>)
        ensures
            bytes@ == key_data_header_bytes(self.key_id()),
            bytes@.len() == 6,
            be_value(bytes@.subrange(2, 6)) == self.key_id(),
    {
        let mut data: Vec<u8> = Vec::new();
        data.push(self.version);
        data.push(KEY_DATA_HEADER_LENGTH);
        push_be32(&mut data, self.key_id);
        proof {
            use_type_invariant(self);
            assert(data@ =~= key_data_header_bytes(self.key_id()));
            lemma_key_data_header_round_trip(self.key_id);
        }
        data
    }
}

/// For every key identifier the header has six bytes, and bytes 2 to 5 read
/// high byte first give the key identifier back.
pub proof fn lemma_key_data_header_round_trip(key_id: u32)
    ensures
        key_data_header_bytes(key_id).len() == 6,
        key_data_header_bytes(key_id)[0] == KEY_DATA_VERSION,
        key_data_header_bytes(key_id)[1] == KEY_DATA_HEADER_LENGTH,
        key_data_header_bytes(key_id).subrange(2, 6) == be32(key_id),
        be_value(key_data_header_bytes(key_id).subrange(2, 6)) == key_id,
{
    lemma_be32_value(key_id);
    assert(key_data_header_bytes(key_id).subrange(2, 6) =~= be32(key_id));
}

} // verus!
