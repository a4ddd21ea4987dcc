use keydata::code::Code;
use keydata::encoding::{push_be16, push_be24, push_be32};
use keydata::error::KeyDataError;
use keydata::header::{Header, KeyDataHeader};
use keydata::hex::to_hex;
use keydata::opcode::TLCode;
use keydata::room_list::RoomList;
use keydata::single_block::access_points_in_range;

#[test]
fn opcode_bytes() {
    assert_eq!(TLCode::JmpIfAccessPoint.to_byte(), 0x02);
    assert_eq!(TLCode::RuleVerifyAndStoreOverride.to_byte(), 0x01);
    assert_eq!(TLCode::RuleVerifyValidUntil.to_byte(), 0x02);
    assert_eq!(TLCode::CmdAccess.to_byte(), 0x03);
    assert_eq!(TLCode::CmdAccessDenied.to_byte(), 0xFF);
    assert_eq!(TLCode::TlsEnd.to_byte(), 0xAA);
}

#[test]
fn big_endian_fields() {
    let mut data = vec![0x77u8];
    push_be16(&mut data, 0x1234);
    push_be24(&mut data, 0xAB_CDEF);
    push_be24(&mut data, 0x12AB_CDEF);
    push_be32(&mut data, 0x0102_0304);
    assert_eq!(
        data,
        vec![0x77, 0x12, 0x34, 0xAB, 0xCD, 0xEF, 0xAB, 0xCD, 0xEF, 0x01, 0x02, 0x03, 0x04]
    );
}

#[test]
fn envelope_marker() {
    assert_eq!(Header::new(0xFF).to_bytes(), vec![0x01, 0xFF]);
    assert_eq!(Header::new(0x10).to_bytes(), vec![0x01, 0x10]);
}

#[test]
fn key_data_header_has_six_bytes_and_holds_the_key() {
    for key in [0u32, 1, 0xAABBCCDD, 0x0000_FF00, u32::MAX] {
        let header = KeyDataHeader::new(key);
        let bytes = header.to_bytes();
        assert_eq!(bytes.len(), 6);
        assert_eq!(header.size(), 6);
        assert_eq!(&bytes[..2], &[1, 4]);
        let decoded = u32::from_be_bytes([bytes[2], bytes[3], bytes[4], bytes[5]]);
        assert_eq!(decoded, key);
    }
    assert_eq!(
        KeyDataHeader::new(0xAABBCCDD).to_bytes(),
        vec![0x01, 0x04, 0xAA, 0xBB, 0xCC, 0xDD]
    );
}

#[test]
fn code_offsets_are_lengths_before_the_append() {
    let mut code = Code::new();
    assert_eq!(code.size(), 0);
    assert_eq!(code.add(vec![1, 2, 3]), Ok(0));
    assert_eq!(code.add(vec![]), Ok(3));
    assert_eq!(code.add(vec![4, 5]), Ok(3));
    assert_eq!(code.add(vec![6]), Ok(5));
    assert_eq!(code.size(), 6);
    assert_eq!(code.to_bytes(), vec![1, 2, 3, 4, 5, 6]);
    assert_eq!(code.to_bytes(), vec![1, 2, 3, 4, 5, 6]);
}

#[test]
fn code_of_more_than_65535_bytes_is_too_large() {
    let mut code = Code::new();
    assert_eq!(code.add(vec![7u8; 65_535]), Ok(0));
    assert_eq!(code.add(vec![8u8]), Err(KeyDataError::RecordTooLarge));
    assert_eq!(code.size(), 65_535);
    assert_eq!(code.add(vec![]), Ok(65_535));
    let mut other = Code::new();
    assert_eq!(other.add(vec![0u8; 65_536]), Err(KeyDataError::RecordTooLarge));
    assert_eq!(other.size(), 0);
}

#[test]
fn room_list_size_is_six_per_entry_plus_two() {
    let mut list = RoomList::new();
    assert_eq!(list.size(), 2);
    assert_eq!(list.to_bytes(0), Ok(vec![0xFF, 0xAA]));
    for count in 1..=4u16 {
        assert_eq!(list.add(count as u32, 0), Ok(()));
        assert_eq!(list.size(), 6 * count + 2);
        assert_eq!(list.to_bytes(100).unwrap().len(), 6 * count as usize + 2);
    }
}

#[test]
fn room_list_adds_the_base_offset_to_every_target() {
    let mut list = RoomList::new();
    list.add(5, 0).unwrap();
    list.add(0x01_02_03, 0x0102).unwrap();
    list.add(5, 7).unwrap();
    assert_eq!(
        list.to_bytes(0x1000),
        Ok(vec![
            0x02, 0x00, 0x00, 0x05, 0x10, 0x00, 0x02, 0x01, 0x02, 0x03, 0x11, 0x02, 0x02, 0x00,
            0x00, 0x05, 0x10, 0x07, 0xFF, 0xAA,
        ])
    );
}

#[test]
fn room_list_refuses_what_does_not_fit() {
    let mut list = RoomList::new();
    assert_eq!(list.add(0x100_0000, 0), Err(KeyDataError::ValueOutOfRange));
    assert_eq!(list.size(), 2);
    list.add(1, 0xFFFF).unwrap();
    assert!(list.targets_fit(0));
    assert!(!list.targets_fit(1));
    assert_eq!(list.to_bytes(1), Err(KeyDataError::RecordTooLarge));
    assert_eq!(
        list.to_bytes(0),
        Ok(vec![0x02, 0x00, 0x00, 0x01, 0xFF, 0xFF, 0xFF, 0xAA])
    );
    for _ in 1..10_922 {
        list.add(2, 0).unwrap();
    }
    assert_eq!(list.size(), 65_534);
    assert_eq!(list.add(3, 0), Err(KeyDataError::RecordTooLarge));
    assert_eq!(list.add(0x100_0000, 0), Err(KeyDataError::ValueOutOfRange));
    assert_eq!(list.size(), 65_534);
}

#[test]
fn access_point_range() {
    assert!(access_points_in_range(&[]));
    assert!(access_points_in_range(&[0, 0xFF_FFFF]));
    assert!(!access_points_in_range(&[0, 0x100_0000, 1]));
}

#[test]
fn hex_text() {
    assert_eq!(to_hex(&[]), "");
    assert_eq!(to_hex(&[0x0F]), "0F");
    assert_eq!(to_hex(&[0x00, 0x9A, 0xFF]), "00 9A FF");
    assert_eq!(to_hex(&[0x01, 0x23, 0x45, 0x67, 0x89, 0xAB, 0xCD, 0xEF]), "01 23 45 67 89 AB CD EF");
    let all: Vec<u8> = (0..=255).collect();
    let text = to_hex(&all);
    assert_eq!(text.len(), 3 * 256 - 1);
    for (i, part) in text.split(' ').enumerate() {
        assert_eq!(part, format!("{:02X}", i));
    }
}
