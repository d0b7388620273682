//! Frames of the binary protocol.
//!
//! A frame is a transaction number, a protocol number, the length of what follows
//! up to the checksum, the unit and function bytes with their data, and a
//! checksum: all words high byte first but the checksum, which is low byte first.

use crate::bounded::{new_frame, slice_of, try_extend, Items};
use crate::bytes::{be16_at, get_be16, get_le16, hi, high, le16_at, lo, low};
use crate::modbus::shared::{crc16, modbus_crc16};
use vstd::prelude::*;
use vstd::slice::slice_subrange;

verus! {

/// Largest payload of a frame.
pub const BLE_BINARY_PDU_MAX: usize = 504;

/// A frame without its checksum.
pub open spec fn frame_body(tx_id: u16, proto_id: u16, pdu: Seq<u8>) -> Seq<u8> {
    seq![
        hi(tx_id),
        lo(tx_id),
        hi(proto_id),
        lo(proto_id),
        hi(pdu.len() as u16),
        lo(pdu.len() as u16),
    ] + pdu
}

/// A checksum, low byte first.
pub open spec fn crc_bytes(crc: u16) -> Seq<u8> {
    seq![lo(crc), hi(crc)]
}

/// Bytes with their checksum.
pub open spec fn sealed(body: Seq<u8>) -> Seq<u8> {
    body + crc_bytes(crc16(body))
}

/// A frame.
pub open spec fn ble_frame(tx_id: u16, proto_id: u16, pdu: Seq<u8>) -> Seq<u8> {
    sealed(frame_body(tx_id, proto_id, pdu))
}

/// Makes a frame.
pub fn build_frame(tx_id: u16, proto_id: u16, pdu: &[u8]) -> (r: heapless::Vec<u8, 512>)
    requires
        pdu@.len() <= 504,
    ensures
        r.items() == ble_frame(tx_id, proto_id, pdu@),
{
    let n: u16 = pdu.len() as u16;
    let head: [u8; 6] = [high(tx_id), low(tx_id), high(proto_id), low(proto_id), high(n), low(n)];
    let mut frame = new_frame();
    let _ = try_extend(&mut frame, head.as_slice());
    let _ = try_extend(&mut frame, pdu);
    assert(frame.items() =~= frame_body(tx_id, proto_id, pdu@));
    let crc: u16 = modbus_crc16(slice_of(&frame));
    let tail: [u8; 2] = [low(crc), high(crc)];
    let _ = try_extend(&mut frame, tail.as_slice());
    assert(frame.items() =~= ble_frame(tx_id, proto_id, pdu@));
    frame
}

/// Length of a whole frame, told from its first six bytes; `None` where they are
/// not all there or state an impossible length.
pub open spec fn total_len(data: Seq<u8>) -> Option<int> {
    if data.len() < 6 || be16_at(data, 4) < 2 || be16_at(data, 4) > 504 {
        None
    } else {
        Some(be16_at(data, 4) + 8)
    }
}

/// Length of a whole frame.
pub fn binary_frame_total_len(data: &[u8]) -> (r: Option<usize>)
    ensures
        r is Some <==> total_len(data@) is Some,
        r is Some ==> r->0 == total_len(data@)->0 && r->0 <= 512,
{
    if data.len() < 6 {
        return None;
    }
    let length: usize = get_be16(data, 4) as usize;
    if length < 2 || length > BLE_BINARY_PDU_MAX {
        return None;
    }
    Some(6 + length + 2)
}

/// Whether a byte string begins with a whole frame.
pub open spec fn whole(data: Seq<u8>) -> bool {
    data.len() >= 10 && be16_at(data, 4) >= 2 && data.len() >= be16_at(data, 4) + 8
}

/// Whether the checksum of a whole frame is right.
pub open spec fn intact(data: Seq<u8>) -> bool {
    let n = be16_at(data, 4) + 6;
    crc16(data.take(n)) == le16_at(data, n)
}

/// Whether the checksum of a whole frame is right.
pub fn checksum_matches(data: &[u8]) -> (r: bool)
    requires
        whole(data@),
    ensures
        r == intact(data@),
{
    let n: usize = get_be16(data, 4) as usize + 6;
    let body = slice_subrange(data, 0, n);
    assert(body@ =~= data@.take(n as int));
    modbus_crc16(body) == get_le16(data, n)
}

/// A frame that was made is recognised: its length is found, its checksum is right,
/// and its parts are where they belong.
pub proof fn law_frame_roundtrip(tx_id: u16, proto_id: u16, pdu: Seq<u8>)
    requires
        2 <= pdu.len() <= 504,
    ensures
        ({
            let f = ble_frame(tx_id, proto_id, pdu);
            &&& total_len(f) == Some(f.len() as int)
            &&& whole(f)
            &&& intact(f)
            &&& be16_at(f, 0) == tx_id
            &&& be16_at(f, 2) == proto_id
            &&& f.subrange(6, (6 + pdu.len()) as int) == pdu
        }),
{
    let body = frame_body(tx_id, proto_id, pdu);
    let f = ble_frame(tx_id, proto_id, pdu);
    let crc = crc16(body);
    crate::bytes::law_word_of_bytes(pdu.len() as u16);
    crate::bytes::law_word_of_bytes(tx_id);
    crate::bytes::law_word_of_bytes(proto_id);
    crate::bytes::law_word_of_bytes(crc);
    assert(f[4] == hi(pdu.len() as u16) && f[5] == lo(pdu.len() as u16));
    assert(f.take((pdu.len() + 6) as int) =~= body);
    assert(f[pdu.len() as int + 6] == lo(crc) && f[pdu.len() as int + 7] == hi(crc));
    assert(f.subrange(6, (6 + pdu.len()) as int) =~= pdu);
}

} // verus!
