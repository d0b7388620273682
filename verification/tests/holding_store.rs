//! Images of the registers.

use iot_gateway::device::holding_store::{
    decode_raw_blob, encode_raw_header, generation_is_newer, CONTROL_DATA_BYTES, HOLDING_DATA_BYTES, HOLDING_WORDS,
    LEGACY_RAW_VERSION, MONITOR_DATA_BYTES, PARTITION_MIN_BYTES, RAW_HEADER_BYTES, RAW_MAGIC, RAW_TOTAL_BYTES,
    SLOT_BYTES, SLOT_COUNT,
};

#[test]
fn test_raw_blob_roundtrip_and_crc() {
    let mut blob = vec![0u8; RAW_TOTAL_BYTES];
    for index in 0..HOLDING_WORDS {
        let offset = RAW_HEADER_BYTES + index * 2;
        blob[offset..offset + 2]
            .copy_from_slice(&(index as u16).wrapping_mul(37).to_le_bytes());
    }
    let monitor_offset = RAW_HEADER_BYTES + HOLDING_DATA_BYTES;
    blob[monitor_offset..monitor_offset + 2].copy_from_slice(&0x1234u16.to_le_bytes());
    let control_offset = monitor_offset + MONITOR_DATA_BYTES;
    blob[control_offset..control_offset + 2].copy_from_slice(&0x5678u16.to_le_bytes());
    let coils_offset = control_offset + CONTROL_DATA_BYTES;
    blob[coils_offset + 17] = 1;
    encode_raw_header(&mut blob, 42);
    let decoded = decode_raw_blob(&blob, 1).expect("valid raw blob");
    assert_eq!(decoded.slot, 1);
    assert_eq!(decoded.generation, 42);
    assert_eq!(decoded.words[100], 3700);
    assert_eq!(decoded.monitor_words[0], 0x1234);
    assert_eq!(decoded.control_words[0], 0x5678);
    assert_eq!(decoded.legacy_coils[17], 1);

    blob[RAW_HEADER_BYTES + 7] ^= 0x80;
    assert!(decode_raw_blob(&blob, 1).is_none());
}

#[test]
fn test_v1_raw_slot_loads_with_zeroed_legacy_state() {
    let mut blob = vec![0u8; RAW_TOTAL_BYTES];
    blob[0..4].copy_from_slice(&RAW_MAGIC.to_le_bytes());
    blob[4..6].copy_from_slice(&LEGACY_RAW_VERSION.to_le_bytes());
    blob[6..8].copy_from_slice(&(HOLDING_WORDS as u16).to_le_bytes());
    blob[8..12].copy_from_slice(&7u32.to_le_bytes());
    blob[RAW_HEADER_BYTES..RAW_HEADER_BYTES + 2].copy_from_slice(&0xABCDu16.to_le_bytes());
    let crc =
        iot_gateway::device::crc32(&blob[RAW_HEADER_BYTES..RAW_HEADER_BYTES + HOLDING_DATA_BYTES]);
    blob[12..16].copy_from_slice(&crc.to_le_bytes());

    let decoded = decode_raw_blob(&blob, 0).expect("v1 raw slot remains readable");
    assert_eq!(decoded.words[0], 0xABCD);
    assert!(decoded.monitor_words.iter().all(|&value| value == 0));
    assert!(decoded.control_words.iter().all(|&value| value == 0));
    assert!(decoded.legacy_coils.iter().all(|&value| value == 0));
}

#[test]
fn test_generation_wrap_order() {
    assert!(generation_is_newer(11, 10));
    assert!(!generation_is_newer(10, 11));
    assert!(generation_is_newer(0, u32::MAX));
}

#[test]
fn test_slot_geometry() {
    assert!(RAW_TOTAL_BYTES <= SLOT_BYTES);
    assert!(SLOT_COUNT * SLOT_BYTES <= PARTITION_MIN_BYTES);
    assert_eq!(HOLDING_DATA_BYTES, 4096);
}
