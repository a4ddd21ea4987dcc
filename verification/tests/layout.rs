use keydata::error::KeyDataError;
use keydata::single_block::SingleBlock;

fn be16_at(bytes: &[u8], at: usize) -> usize {
    ((bytes[at] as usize) << 8) | bytes[at + 1] as usize
}

fn sample() -> SingleBlock {
    SingleBlock::new(0xaa_bb_cc_dd)
        .with_valid_until(0x09_08_07_06)
        .unwrap()
        .with_overriding_access(&[101], 1)
        .unwrap()
        .with_non_overriding_access(&[1_000_000, 1_000_001])
        .unwrap()
}

#[test]
fn new_block_serializes_to_fourteen_bytes() {
    let bytes = SingleBlock::new(0xAABBCCDD).to_bytes();
    assert_eq!(
        bytes,
        vec![0x01, 0xFF, 0x00, 0x0A, 0x01, 0x04, 0xAA, 0xBB, 0xCC, 0xDD, 0xFF, 0xAA, 0x00, 0x00]
    );
    assert_eq!(bytes.len(), 14);
    assert_eq!(be16_at(&bytes, 2), bytes.len() - 4);
}

#[test]
fn one_plain_access_point_gives_an_eight_byte_room_list() {
    let bytes = SingleBlock::new(0xAABBCCDD)
        .with_non_overriding_access(&[5])
        .unwrap()
        .to_bytes();
    // base offset: 6 header bytes and 8 room-list bytes in front of the code
    assert_eq!(&bytes[10..18], &[0x02, 0x00, 0x00, 0x05, 0x00, 0x0E, 0xFF, 0xAA]);
    assert_eq!(&bytes[18..20], &[0x03, 0xAA]);
    assert_eq!(&bytes[20..], &[0x00, 0x00]);
    assert_eq!(be16_at(&bytes, 2), 18);
    assert_eq!(bytes.len(), 22);
}

#[test]
fn sample_record_bytes() {
    let bytes = sample().to_bytes();
    let expected: Vec<u8> = vec![
        0x01, 0xFF, 0x00, 0x2A, // envelope
        0x01, 0x04, 0xAA, 0xBB, 0xCC, 0xDD, // key data header
        0x02, 0x09, 0x08, 0x07, 0x06, // expiry
        0x02, 0x00, 0x00, 0x65, 0x00, 0x1F, // 101
        0x02, 0x0F, 0x42, 0x40, 0x00, 0x26, // 1_000_000
        0x02, 0x0F, 0x42, 0x41, 0x00, 0x26, // 1_000_001
        0xFF, 0xAA, // fall-through
        0x01, 0x00, 0x00, 0x00, 0x01, 0x03, 0xAA, // overriding routine
        0x03, 0xAA, // plain routine
        0x00, 0x00, // reserved
    ];
    assert_eq!(bytes, expected);
    assert_eq!(bytes.len(), 46);
}

#[test]
fn sample_record_hex() {
    assert_eq!(
        sample().to_hex(),
        "01 FF 00 2A 01 04 AA BB CC DD 02 09 08 07 06 02 00 00 65 00 1F 02 0F 42 40 00 26 \
         02 0F 42 41 00 26 FF AA 01 00 00 00 01 03 AA 03 AA 00 00"
    );
}

#[test]
fn new_block_hex() {
    assert_eq!(
        SingleBlock::new(0xAABBCCDD).to_hex(),
        "01 FF 00 0A 01 04 AA BB CC DD FF AA 00 00"
    );
}

#[test]
fn to_bytes_twice_gives_the_same_bytes() {
    let block = sample();
    let first = block.to_bytes();
    let second = block.to_bytes();
    assert_eq!(first, second);
    assert_eq!(block.to_hex(), block.to_hex());
}

#[test]
fn every_target_points_at_its_routine() {
    let bytes = sample().to_bytes();
    let payload = &bytes[4..];
    let room_list = 6 + 5;
    // 101 jumps to the overriding routine
    let first = be16_at(payload, room_list + 4);
    assert_eq!(first, 31);
    assert_eq!(&payload[first..first + 7], &[0x01, 0x00, 0x00, 0x00, 0x01, 0x03, 0xAA]);
    // the two others jump to the plain routine
    for i in 1..3 {
        let target = be16_at(payload, room_list + 6 * i + 4);
        assert_eq!(target, 38);
        assert_eq!(&payload[target..target + 2], &[0x03, 0xAA]);
    }
}

#[test]
fn zero_expiry_is_no_expiry() {
    let plain = SingleBlock::new(7)
        .with_overriding_access(&[1, 2], 9)
        .unwrap()
        .to_bytes();
    let zero = SingleBlock::new(7)
        .with_valid_until(0)
        .unwrap()
        .with_overriding_access(&[1, 2], 9)
        .unwrap()
        .to_bytes();
    assert_eq!(plain, zero);
    let cleared = SingleBlock::new(7)
        .with_valid_until(55)
        .unwrap()
        .with_valid_until(0)
        .unwrap()
        .with_overriding_access(&[1, 2], 9)
        .unwrap()
        .to_bytes();
    assert_eq!(plain, cleared);
}

#[test]
fn expiry_adds_five_bytes_and_shifts_targets() {
    let without = SingleBlock::new(7)
        .with_overriding_access(&[1, 2], 9)
        .unwrap()
        .with_non_overriding_access(&[3])
        .unwrap();
    let plain = without.to_bytes();
    let with = without.with_valid_until(0x01020304).unwrap().to_bytes();
    assert_eq!(with.len(), plain.len() + 5);
    assert_eq!(be16_at(&with, 2), be16_at(&plain, 2) + 5);
    assert_eq!(&with[4..10], &plain[4..10]);
    assert_eq!(&with[10..15], &[0x02, 0x01, 0x02, 0x03, 0x04]);
    for i in 0..3 {
        let at = 10 + 6 * i;
        assert_eq!(&with[at + 5..at + 5 + 4], &plain[at..at + 4]);
        assert_eq!(be16_at(&with, at + 5 + 4), be16_at(&plain, at + 4) + 5);
    }
    assert_eq!(&with[10 + 5 + 18..], &plain[10 + 18..]);
}

#[test]
fn override_group_shares_one_routine() {
    let bytes = SingleBlock::new(1)
        .with_non_overriding_access(&[9])
        .unwrap()
        .with_overriding_access(&[10, 11, 12, 10], 0xDEADBEEF)
        .unwrap()
        .to_bytes();
    let payload = &bytes[4..];
    let targets: Vec<usize> = (1..5).map(|i| be16_at(payload, 6 + 6 * i + 4)).collect();
    assert_eq!(targets, vec![40, 40, 40, 40]);
    assert_eq!(&payload[40..47], &[0x01, 0xDE, 0xAD, 0xBE, 0xEF, 0x03, 0xAA]);
    assert_eq!(be16_at(payload, 6 + 4), 38);
}

#[test]
fn empty_access_point_list_adds_only_the_routine() {
    let bytes = SingleBlock::new(0)
        .with_non_overriding_access(&[])
        .unwrap()
        .to_bytes();
    assert_eq!(
        bytes,
        vec![0x01, 0xFF, 0x00, 0x0C, 0x01, 0x04, 0, 0, 0, 0, 0xFF, 0xAA, 0x03, 0xAA, 0, 0]
    );
}

#[test]
fn access_point_of_more_than_24_bits_is_out_of_range() {
    let r = SingleBlock::new(1).with_non_overriding_access(&[5, 0x100_0000]);
    assert_eq!(r.err(), Some(KeyDataError::ValueOutOfRange));
    let r = SingleBlock::new(1).with_overriding_access(&[u32::MAX], 3);
    assert_eq!(r.err(), Some(KeyDataError::ValueOutOfRange));
    let r = SingleBlock::new(1).with_overriding_access(&[0xFF_FFFF], 3);
    assert!(r.is_ok());
}

#[test]
fn out_of_range_is_reported_before_too_large() {
    let mut access_points = vec![1u32; 20_000];
    access_points[19_999] = 0x100_0000;
    let r = SingleBlock::new(1).with_non_overriding_access(&access_points);
    assert_eq!(r.err(), Some(KeyDataError::ValueOutOfRange));
}

#[test]
fn record_of_more_than_65535_bytes_is_too_large() {
    // 6 + (6 * n + 2) + 2 + 2 = 65532 for n = 10920
    let fits = vec![1u32; 10_920];
    let block = SingleBlock::new(1).with_non_overriding_access(&fits).unwrap();
    let bytes = block.to_bytes();
    assert_eq!(bytes.len(), 65_536);
    assert_eq!(be16_at(&bytes, 2), 65_532);
    assert_eq!(
        block.with_valid_until(1).err(),
        Some(KeyDataError::RecordTooLarge)
    );
    let too_many = vec![1u32; 10_921];
    let r = SingleBlock::new(1).with_non_overriding_access(&too_many);
    assert_eq!(r.err(), Some(KeyDataError::RecordTooLarge));
    let r = SingleBlock::new(1).with_overriding_access(&fits, 1);
    assert_eq!(r.err(), Some(KeyDataError::RecordTooLarge));
}

#[test]
fn largest_record_keeps_its_last_target_in_range() {
    let block = SingleBlock::new(1)
        .with_valid_until(9)
        .unwrap()
        .with_non_overriding_access(&vec![2u32; 10_919])
        .unwrap();
    assert_eq!(block.data_size(), 6 + 5 + 65_516 + 2 + 2);
    assert_eq!(block.base_offset(), 65_527);
    let bytes = block.to_bytes();
    assert_eq!(be16_at(&bytes, 4 + 11 + 4), 65_527);
    assert_eq!(&bytes[4 + 65_527..], &[0x03, 0xAA, 0x00, 0x00]);
}

#[test]
fn integrity_field_replaces_the_reserved_bytes() {
    let block = sample();
    let plain = block.to_bytes();
    let zero = block.to_bytes_with_integrity(|_body: &[u8]| 0);
    assert_eq!(zero, plain);
    let sum = block.to_bytes_with_integrity(|body: &[u8]| {
        body.iter().fold(0u16, |acc, b| acc.wrapping_add(*b as u16))
    });
    let expected: u16 = plain[..44].iter().fold(0u16, |acc, b| acc.wrapping_add(*b as u16));
    assert_eq!(sum.len(), 46);
    assert_eq!(&sum[..44], &plain[..44]);
    assert_eq!(be16_at(&sum, 44), expected as usize);
    let seen = block.to_bytes_with_integrity(|body: &[u8]| body.len() as u16);
    assert_eq!(&seen[44..], &[0x00, 0x2C]);
}
