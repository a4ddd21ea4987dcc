//! Assembles the binary key-data record that programs an access-control
//! credential: a fixed envelope, a key identifier, an optional expiry rule, a
//! dispatch table of access points (the room list) and a code segment of small
//! routines that the dispatch table jumps into.
//!
//! Every multi-byte integer on the wire is big-endian. All offsets and sizes
//! are 16-bit fields, so a record whose payload would not fit in 65535 bytes
//! is rejected while it is being built.

pub mod code;
pub mod encoding;
pub mod error;
pub mod header;
pub mod hex;
pub mod laws;
pub mod opcode;
pub mod room_list;
pub mod single_block;
