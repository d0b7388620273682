//! Function settings of connected devices: written, read back, deleted, and the
//! state of the points.
//!
//! Each kind of device has a sub-command of its own, under which its settings are
//! stored as a blob: a flag, a length, and the settings.

use crate::bounded::{new_response, try_extend, try_push, Items};
use crate::gateway::{Gateway, GatewayView};
use crate::text::{hex, push_hex};
use vstd::prelude::*;
use vstd::slice::slice_subrange;

verus! {

/// First byte of a stored blob.
pub const CFG_VALID_FLAG: u8 = 0x55;

/// Largest settings that can be stored.
pub const MAX_STORED: usize = 254;

/// Status of a refused command.
pub const STATUS_FAILED: u8 = 0x84;

pub const SUB_TRAFFIC_00: u8 = 0x00;

pub const SUB_DEVICE_01: u8 = 0x01;

pub const SUB_TRAFFIC_02: u8 = 0x02;

pub const SUB_TRAFFIC_03: u8 = 0x03;

pub const SUB_TRAFFIC_04: u8 = 0x04;

pub const SUB_TRAFFIC_05: u8 = 0x05;

pub const SUB_TRAFFIC_06: u8 = 0x06;

pub const SUB_TRAFFIC_07: u8 = 0x07;

pub const SUB_TRAFFIC_08: u8 = 0x08;

pub const SUB_TRAFFIC_09: u8 = 0x09;

pub const SUB_CROSS_HOLE: u8 = 0x0A;

pub const SUB_3LIGHT: u8 = 0x0B;

pub const SUB_4LIGHT: u8 = 0x0C;

pub const SUB_JET_FAN_2: u8 = 0x0D;

pub const SUB_JET_FAN_3: u8 = 0x0E;

pub const SUB_JET_FAN_2IL: u8 = 0x0F;

pub const SUB_BLOWER_2: u8 = 0x10;

pub const SUB_BLOWER_1: u8 = 0x11;

pub const SUB_LIGHT_2: u8 = 0x12;

pub const SUB_LIGHT_1: u8 = 0x13;

pub const SUB_PUMP_2: u8 = 0x14;

pub const SUB_PUMP_1: u8 = 0x15;

pub const SUB_SHUTTER: u8 = 0x16;

pub const SUB_FIRE_DOOR_1: u8 = 0x17;

pub const SUB_FIRE_DOOR_2: u8 = 0x18;

pub const SUB_COVI: u8 = 0x19;

pub const SUB_NO2: u8 = 0x1A;

pub const SUB_COVI_NO2: u8 = 0x1B;

pub const SUB_WIND: u8 = 0x1C;

pub const SUB_HOLE_LIGHT: u8 = 0x1D;

pub const SUB_OUT_LIGHT: u8 = 0x1E;

pub const SUB_CAR_CHECK: u8 = 0x1F;

pub const SUB_RS485_01: u8 = 0x20;

pub const SUB_RS485_02: u8 = 0x21;

pub const SUB_POSITION: u8 = 0x22;

pub const SUB_COM_INPUT_MSG: u8 = 0x23;

pub const SUB_COM_OUTPUT_MSG: u8 = 0x24;

pub const SUB_COM_REQUEST: u8 = 0x26;

pub const SUB_COM_INPUT_ANS: u8 = 0x27;

pub const SUB_COM_OUTPUT_ANS: u8 = 0x28;

/// Name of a sub-command.
pub open spec fn sub_label(sub: u8) -> Seq<char> {
    if sub == 0x00 {
        "TrafficSignal00"@
    } else if sub == 0x01 {
        "DeviceSignal01"@
    } else if sub == 0x02 {
        "TrafficSignal02"@
    } else if sub == 0x03 {
        "TrafficSignal03"@
    } else if sub == 0x04 {
        "TrafficSignal04"@
    } else if sub == 0x05 {
        "TrafficSignal05"@
    } else if sub == 0x06 {
        "TrafficSignal06"@
    } else if sub == 0x07 {
        "TrafficSignal07"@
    } else if sub == 0x08 {
        "TrafficSignal08"@
    } else if sub == 0x09 {
        "TrafficSignal09"@
    } else if sub == 0x0A {
        "CrossHole"@
    } else if sub == 0x0B {
        "3Light"@
    } else if sub == 0x0C {
        "4Light"@
    } else if sub == 0x0D {
        "JetFan2"@
    } else if sub == 0x0E {
        "JetFan3"@
    } else if sub == 0x0F {
        "JetFan2IL"@
    } else if sub == 0x10 {
        "Blower2"@
    } else if sub == 0x11 {
        "Blower1"@
    } else if sub == 0x12 {
        "Light2"@
    } else if sub == 0x13 {
        "Light1"@
    } else if sub == 0x14 {
        "Pump2"@
    } else if sub == 0x15 {
        "Pump1"@
    } else if sub == 0x16 {
        "Shutter"@
    } else if sub == 0x17 {
        "FireDoor1"@
    } else if sub == 0x18 {
        "FireDoor2"@
    } else if sub == 0x19 {
        "COVI"@
    } else if sub == 0x1A {
        "NO2"@
    } else if sub == 0x1B {
        "COVI+NO2"@
    } else if sub == 0x1C {
        "WindDirSpeed"@
    } else if sub == 0x1D {
        "HoleLight"@
    } else if sub == 0x1E {
        "OutLight"@
    } else if sub == 0x1F {
        "CarCheck"@
    } else if sub == 0x20 {
        "RS485-1"@
    } else if sub == 0x21 {
        "RS485-2"@
    } else if sub == 0x22 {
        "Position"@
    } else if sub == 0x23 {
        "ComInputMsg"@
    } else if sub == 0x24 {
        "ComOutputMsg"@
    } else if sub == 0x26 {
        "ComRequest"@
    } else if sub == 0x27 {
        "ComInputAns"@
    } else if sub == 0x28 {
        "ComOutputAns"@
    } else {
        "Unknown"@
    }
}

/// Name of a sub-command.
pub fn sub_name(sub: u8) -> (r: &'static str)
    ensures
        r@ == sub_label(sub),
{
    match sub {
        0x00 => "TrafficSignal00",
        0x01 => "DeviceSignal01",
        0x02 => "TrafficSignal02",
        0x03 => "TrafficSignal03",
        0x04 => "TrafficSignal04",
        0x05 => "TrafficSignal05",
        0x06 => "TrafficSignal06",
        0x07 => "TrafficSignal07",
        0x08 => "TrafficSignal08",
        0x09 => "TrafficSignal09",
        0x0A => "CrossHole",
        0x0B => "3Light",
        0x0C => "4Light",
        0x0D => "JetFan2",
        0x0E => "JetFan3",
        0x0F => "JetFan2IL",
        0x10 => "Blower2",
        0x11 => "Blower1",
        0x12 => "Light2",
        0x13 => "Light1",
        0x14 => "Pump2",
        0x15 => "Pump1",
        0x16 => "Shutter",
        0x17 => "FireDoor1",
        0x18 => "FireDoor2",
        0x19 => "COVI",
        0x1A => "NO2",
        0x1B => "COVI+NO2",
        0x1C => "WindDirSpeed",
        0x1D => "HoleLight",
        0x1E => "OutLight",
        0x1F => "CarCheck",
        0x20 => "RS485-1",
        0x21 => "RS485-2",
        0x22 => "Position",
        0x23 => "ComInputMsg",
        0x24 => "ComOutputMsg",
        0x26 => "ComRequest",
        0x27 => "ComInputAns",
        0x28 => "ComOutputAns",
        _ => "Unknown",
    }
}

/// Storage key of a sub-command.
pub open spec fn sub_key(sub: u8) -> Seq<char> {
    "cfg_"@ + hex(sub as nat, 2, false)
}

/// Storage key of a sub-command.
pub fn nvs_key_for(sub: u8) -> (r: String)
    ensures
        r@ == sub_key(sub),
{
    let mut s = "cfg_".to_owned();
    push_hex(&mut s, sub as u64, 2, false);
    s
}

// ---- Outcomes ----

/// What a command asks for.
pub enum LogicOutcome {
    /// Not a command of this kind, or too short to be one.
    Unhandled,
    /// Answered at once.
    Reply(heapless::Vec<u8, 256>),
    /// Store the blob of a sub-command, then `finish_store`.
    Store(u8, heapless::Vec<u8, 256>),
    /// Load the blob of a sub-command, then `finish_load`.
    Load(u8),
    /// Remove the blobs of all sub-commands up to `SUB_COM_OUTPUT_ANS`, then
    /// `finish_delete`.
    Erase,
}

/// An outcome as plain values.
pub enum LogicView {
    Unhandled,
    Reply(Seq<u8>),
    Store(u8, Seq<u8>),
    Load(u8),
    Erase,
}

impl View for LogicOutcome {
    type V = LogicView;

    open spec fn view(&self) -> LogicView {
        match self {
            LogicOutcome::Unhandled => LogicView::Unhandled,
            LogicOutcome::Reply(b) => LogicView::Reply(b.items()),
            LogicOutcome::Store(sub, b) => LogicView::Store(*sub, b.items()),
            LogicOutcome::Load(sub) => LogicView::Load(*sub),
            LogicOutcome::Erase => LogicView::Erase,
        }
    }
}

// ---- Replies ----

/// A reply without data.
pub open spec fn ack(cmd: u8, sub: u8, ok: bool) -> Seq<u8> {
    seq![
        cmd,
        sub,
        if ok {
            0u8
        } else {
            STATUS_FAILED
        },
    ]
}

fn build_ack(cmd: u8, sub: u8, ok: bool) -> (r: heapless::Vec<u8, 256>)
    ensures
        r.items() == ack(cmd, sub, ok),
{
    let mut rsp = new_response();
    let _ = try_push(&mut rsp, cmd);
    let _ = try_push(&mut rsp, sub);
    let status: u8 = if ok {
        0
    } else {
        STATUS_FAILED
    };
    let _ = try_push(&mut rsp, status);
    assert(rsp.items() =~= ack(cmd, sub, ok));
    rsp
}

/// The blob that stores settings.
pub open spec fn stored_blob(data: Seq<u8>) -> Seq<u8> {
    seq![CFG_VALID_FLAG, data.len() as u8] + data
}

/// The settings in a stored blob.
pub open spec fn stored_data(blob: Seq<u8>) -> Option<Seq<u8>> {
    if blob.len() < 2 || blob[0] != CFG_VALID_FLAG || blob.len() < 2 + blob[1] {
        None
    } else {
        Some(blob.subrange(2, 2 + blob[1]))
    }
}

/// Whether settings of a sub-command can be stored.
pub open spec fn storable(sub: u8) -> bool {
    sub <= SUB_POSITION || sub == SUB_COM_INPUT_MSG || sub == SUB_COM_OUTPUT_MSG || sub == SUB_COM_REQUEST
}

/// Writing of settings: the sub-command, then the settings.
pub open spec fn config_outcome(data: Seq<u8>) -> LogicView {
    if data.len() < 2 {
        LogicView::Unhandled
    } else if storable(data[0]) && data.len() - 1 <= MAX_STORED {
        LogicView::Store(data[0], stored_blob(data.skip(1)))
    } else {
        LogicView::Reply(ack(0xD0, data[0], false))
    }
}

/// Handles the writing of settings.
pub fn handle_logic_config(data: &[u8]) -> (r: LogicOutcome)
    ensures
        r@ == config_outcome(data@),
{
    if data.len() < 2 {
        return LogicOutcome::Unhandled;
    }
    let sub: u8 = data[0];
    let payload = slice_subrange(data, 1, data.len());
    assert(payload@ =~= data@.skip(1));
    if sub <= SUB_POSITION || sub == SUB_COM_INPUT_MSG || sub == SUB_COM_OUTPUT_MSG || sub == SUB_COM_REQUEST {
        let mut blob = new_response();
        let _ = try_push(&mut blob, CFG_VALID_FLAG);
        let _ = try_push(&mut blob, payload.len() as u8);
        if try_extend(&mut blob, payload) {
            assert(blob.items() =~= stored_blob(payload@));
            return LogicOutcome::Store(sub, blob);
        }
    }
    LogicOutcome::Reply(build_ack(0xD0, sub, false))
}

/// Answers the writing of settings after they were stored or not.
pub fn finish_store(sub: u8, stored: bool) -> (r: heapless::Vec<u8, 256>)
    ensures
        r.items() == ack(0xD0, sub, stored),
{
    build_ack(0xD0, sub, stored)
}

/// Handles the reading of settings.
pub fn handle_logic_retrieve(data: &[u8]) -> (r: LogicOutcome)
    ensures
        r@ == if data@.len() == 0 {
            LogicView::Unhandled
        } else {
            LogicView::Load(data@[0])
        },
{
    if data.len() == 0 {
        return LogicOutcome::Unhandled;
    }
    LogicOutcome::Load(data[0])
}

/// Answer to the reading of settings, given the blob that was found. Settings too
/// long for the reply are left out of it.
pub open spec fn load_reply(sub: u8, blob: Option<Seq<u8>>) -> Seq<u8> {
    match blob {
        Some(b) => match stored_data(b) {
            Some(data) => seq![0xD1u8, sub] + (if data.len() <= MAX_STORED {
                data
            } else {
                Seq::empty()
            }),
            None => ack(0xD1, sub, false),
        },
        None => ack(0xD1, sub, false),
    }
}

pub open spec fn blob_view(blob: Option<&[u8]>) -> Option<Seq<u8>> {
    match blob {
        Some(b) => Some(b@),
        None => None,
    }
}

/// Answers the reading of settings.
pub fn finish_load(sub: u8, blob: Option<&[u8]>) -> (r: heapless::Vec<u8, 256>)
    ensures
        r.items() == load_reply(sub, blob_view(blob)),
{
    if let Some(b) = blob {
        if b.len() >= 2 && b[0] == CFG_VALID_FLAG {
            let n: usize = b[1] as usize;
            if b.len() >= 2 + n {
                let data = slice_subrange(b, 2, 2 + n);
                assert(data@ =~= stored_data(b@)->0);
                let mut rsp = new_response();
                let _ = try_push(&mut rsp, 0xD1);
                let _ = try_push(&mut rsp, sub);
                let _ = try_extend(&mut rsp, data);
                assert(rsp.items() =~= load_reply(sub, blob_view(blob)));
                return rsp;
            }
        }
    }
    build_ack(0xD1, sub, false)
}

/// Handles the deletion of all settings.
pub fn handle_delete_config() -> (r: LogicOutcome)
    ensures
        r@ == LogicView::Erase,
{
    LogicOutcome::Erase
}

/// Answers the deletion of all settings.
pub fn finish_delete(success: bool) -> (r: heapless::Vec<u8, 256>)
    ensures
        r.items() == ack(0xD2, 0, success),
{
    build_ack(0xD2, 0, success)
}

/// The state of sixteen points, the first in the lowest bit of the first byte.
pub open spec fn io_bitmap(bits: u64) -> Seq<u8> {
    seq![(bits % 256) as u8, ((bits / 256) % 256) as u8]
}

/// Answer to a request for the state of the points: inputs, then outputs.
pub open spec fn points_reply(g: GatewayView) -> Seq<u8> {
    seq![0xD3u8, SUB_COM_INPUT_ANS] + io_bitmap(g.io.di) + seq![0xD3u8, SUB_COM_OUTPUT_ANS] + io_bitmap(g.io.do_)
}

/// Handles a request for the state of the points.
pub fn handle_com_request(gw: &Gateway) -> (r: LogicOutcome)
    ensures
        r@ == LogicView::Reply(points_reply(gw@)),
{
    let inputs: u64 = gw.io.di.load_bits();
    let outputs: u64 = gw.io.do_.load_bits();
    let all: [u8; 8] = [
        0xD3,
        SUB_COM_INPUT_ANS,
        (inputs % 256) as u8,
        ((inputs / 256) % 256) as u8,
        0xD3,
        SUB_COM_OUTPUT_ANS,
        (outputs % 256) as u8,
        ((outputs / 256) % 256) as u8,
    ];
    let mut rsp = new_response();
    let _ = try_extend(&mut rsp, all.as_slice());
    assert(rsp.items() =~= points_reply(gw@));
    LogicOutcome::Reply(rsp)
}

/// What a command of this kind asks for.
pub open spec fn logic_outcome(g: GatewayView, func: u8, data: Seq<u8>) -> LogicView {
    if func == 0xD0 {
        config_outcome(data)
    } else if func == 0xD1 {
        if data.len() == 0 {
            LogicView::Unhandled
        } else {
            LogicView::Load(data[0])
        }
    } else if func == 0xD2 {
        LogicView::Erase
    } else if func == 0xD3 {
        LogicView::Reply(points_reply(g))
    } else {
        LogicView::Unhandled
    }
}

/// Handles a command.
pub fn dispatch_logic_cmd(gw: &Gateway, func: u8, data: &[u8]) -> (r: LogicOutcome)
    ensures
        r@ == logic_outcome(gw@, func, data@),
{
    match func {
        0xD0 => handle_logic_config(data),
        0xD1 => handle_logic_retrieve(data),
        0xD2 => handle_delete_config(),
        0xD3 => handle_com_request(gw),
        _ => LogicOutcome::Unhandled,
    }
}

// ---- Laws ----

/// Settings that are stored read back as they were written.
pub proof fn law_stored_settings_read_back(data: Seq<u8>)
    requires
        config_outcome(data) is Store,
    ensures
        config_outcome(data) matches LogicView::Store(sub, blob) && load_reply(sub, Some(blob)) == seq![0xD1u8, data[0]]
            + data.skip(1),
{
    let blob = stored_blob(data.skip(1));
    assert(blob.subrange(2, 2 + blob[1]) =~= data.skip(1));
}

/// Bit `i` of the bitmap is point `i`.
pub proof fn law_bitmap_bits(bits: u64, i: int)
    requires
        0 <= i < 16,
    ensures
        crate::bits::packed_bit(io_bitmap(bits), i) == crate::bits::bit(bits, i),
{
    let b0 = ((bits % 256) as u8) as u64;
    let b1 = (((bits / 256) % 256) as u8) as u64;
    if i < 8 {
        let j = i as u64;
        assert((b0 >> j) & 1 == (bits >> j) & 1) by (bit_vector)
            requires
                b0 == bits % 256,
                j < 8,
        ;
    } else {
        let j = (i - 8) as u64;
        let k = i as u64;
        assert((b1 >> j) & 1 == (bits >> k) & 1) by (bit_vector)
            requires
                b1 == (bits / 256) % 256,
                j < 8,
                k == j + 8,
        ;
    }
}

} // verus!
