//! The on/off model: output 0 is switched and reported.

use crate::bits::{bit, get_bit, set_bit, with_bit};
use crate::blemesh::bindings::{
    EspBleMeshMsgCtx, EspBleMeshOp, OP_GEN_ONOFF_GET, OP_GEN_ONOFF_SET, OP_GEN_ONOFF_SET_UNACK, OP_GEN_ONOFF_STATUS,
};
use crate::bus::single::{Bus, BusView};
use vstd::prelude::*;

verus! {

/// Operations of the server model, closed by an empty one.
pub fn server_ops() -> (r: [EspBleMeshOp; 4])
    ensures
        r@ == seq![
            EspBleMeshOp { opcode: OP_GEN_ONOFF_GET, min_len: 0, param_cb: 0 },
            EspBleMeshOp { opcode: OP_GEN_ONOFF_SET, min_len: 2, param_cb: 0 },
            EspBleMeshOp { opcode: OP_GEN_ONOFF_SET_UNACK, min_len: 2, param_cb: 0 },
            EspBleMeshOp { opcode: 0, min_len: 0, param_cb: 0 },
        ],
{
    let r = [
        EspBleMeshOp { opcode: OP_GEN_ONOFF_GET, min_len: 0, param_cb: 0 },
        EspBleMeshOp { opcode: OP_GEN_ONOFF_SET, min_len: 2, param_cb: 0 },
        EspBleMeshOp { opcode: OP_GEN_ONOFF_SET_UNACK, min_len: 2, param_cb: 0 },
        EspBleMeshOp { opcode: 0, min_len: 0, param_cb: 0 },
    ];
    assert(r@ =~= seq![
        EspBleMeshOp { opcode: OP_GEN_ONOFF_GET, min_len: 0, param_cb: 0 },
        EspBleMeshOp { opcode: OP_GEN_ONOFF_SET, min_len: 2, param_cb: 0 },
        EspBleMeshOp { opcode: OP_GEN_ONOFF_SET_UNACK, min_len: 2, param_cb: 0 },
        EspBleMeshOp { opcode: 0, min_len: 0, param_cb: 0 },
    ]);
    r
}

/// Operations of the client model, closed by an empty one.
pub fn client_ops() -> (r: [EspBleMeshOp; 2])
    ensures
        r@ == seq![
            EspBleMeshOp { opcode: OP_GEN_ONOFF_STATUS, min_len: 1, param_cb: 0 },
            EspBleMeshOp { opcode: 0, min_len: 0, param_cb: 0 },
        ],
{
    let r = [
        EspBleMeshOp { opcode: OP_GEN_ONOFF_STATUS, min_len: 1, param_cb: 0 },
        EspBleMeshOp { opcode: 0, min_len: 0, param_cb: 0 },
    ];
    assert(r@ =~= seq![
        EspBleMeshOp { opcode: OP_GEN_ONOFF_STATUS, min_len: 1, param_cb: 0 },
        EspBleMeshOp { opcode: 0, min_len: 0, param_cb: 0 },
    ]);
    r
}

/// A message to be sent.
#[derive(Debug, Clone, Copy, PartialEq, Eq, Structural)]
pub struct StatusMessage {
    pub ctx: EspBleMeshMsgCtx,
    pub on: u8,
}

/// The state of output 0, as it is reported.
pub open spec fn reported(b: BusView) -> u8 {
    if bit(b.do_, 0) {
        1
    } else {
        0
    }
}

/// The bus with output 0 switched.
pub open spec fn switched(b: BusView, on: bool) -> BusView {
    BusView { do_: with_bit(b.do_, 0, on), ..b }
}

/// The state of output 0.
pub fn onoff_status(bus: &Bus) -> (r: u8)
    ensures
        r == reported(bus@),
{
    if get_bit(bus.do_.bits, 0) {
        1
    } else {
        0
    }
}

/// Switches output 0.
pub fn apply_onoff(bus: &mut Bus, value: bool)
    ensures
        final(bus)@ == switched(old(bus)@, value),
{
    bus.do_.bits = set_bit(bus.do_.bits, 0, value);
}

/// Whether an operation switches the output: a set with a value.
pub open spec fn switches(opcode: u32, msg: Seq<u8>) -> bool {
    (opcode == OP_GEN_ONOFF_SET || opcode == OP_GEN_ONOFF_SET_UNACK) && msg.len() >= 1
}

/// The bus after an operation.
pub open spec fn operated(b: BusView, opcode: u32, msg: Seq<u8>) -> BusView {
    if switches(opcode, msg) {
        switched(b, msg[0] != 0)
    } else {
        b
    }
}

/// Whether an operation is answered: a get, or a set that is to be acknowledged.
pub open spec fn is_answered(opcode: u32, msg: Seq<u8>) -> bool {
    opcode == OP_GEN_ONOFF_GET || (opcode == OP_GEN_ONOFF_SET && msg.len() >= 1)
}

/// Carries out an operation of the model. The answer goes out under the keys of the
/// message, to the address that the message went to.
pub fn handle_model_operation(
    bus: &mut Bus,
    opcode: u32,
    net_idx: u16,
    app_idx: u16,
    recv_dst: u16,
    msg: &[u8],
) -> (r: Option<StatusMessage>)
    ensures
        final(bus)@ == operated(old(bus)@, opcode, msg@),
        r == if is_answered(opcode, msg@) {
            Some(
                StatusMessage {
                    ctx: EspBleMeshMsgCtx { net_idx, app_idx, addr: recv_dst },
                    on: reported(operated(old(bus)@, opcode, msg@)),
                },
            )
        } else {
            None
        },
{
    let ctx = EspBleMeshMsgCtx::for_send(net_idx, app_idx, recv_dst);
    if opcode == OP_GEN_ONOFF_GET {
        return Some(StatusMessage { ctx, on: onoff_status(bus) });
    }
    if (opcode == OP_GEN_ONOFF_SET || opcode == OP_GEN_ONOFF_SET_UNACK) && msg.len() >= 1 {
        apply_onoff(bus, msg[0] != 0);
        if opcode == OP_GEN_ONOFF_SET {
            return Some(StatusMessage { ctx, on: onoff_status(bus) });
        }
    }
    None
}

/// Answers an operation of the model while the bus cannot be had: nothing is
/// switched, and the output is reported as off.
pub fn handle_without_bus(opcode: u32, net_idx: u16, app_idx: u16, recv_dst: u16, msg: &[u8]) -> (r: Option<
    StatusMessage,
>)
    ensures
        r == if is_answered(opcode, msg@) {
            Some(StatusMessage { ctx: EspBleMeshMsgCtx { net_idx, app_idx, addr: recv_dst }, on: 0 })
        } else {
            None
        },
{
    if opcode == OP_GEN_ONOFF_GET || (opcode == OP_GEN_ONOFF_SET && msg.len() >= 1) {
        Some(StatusMessage { ctx: EspBleMeshMsgCtx::for_send(net_idx, app_idx, recv_dst), on: 0 })
    } else {
        None
    }
}

/// A request to another node.
#[derive(Debug, Clone, Copy, PartialEq, Eq, Structural)]
pub struct SetMessage {
    pub ctx: EspBleMeshMsgCtx,
    pub on: u8,
    /// Number of the transaction.
    pub tid: u8,
}

/// The number after a transaction number; the last is followed by the first.
pub open spec fn next_tid(tid: u8) -> u8 {
    if tid == 0xFF {
        0
    } else {
        (tid + 1) as u8
    }
}

/// Makes a request that switches another node. `tid` is the number of the next
/// transaction.
pub fn send_onoff_set(tid: &mut u8, value: bool, dst_addr: u16, net_idx: u16, app_idx: u16) -> (r: SetMessage)
    ensures
        r == (SetMessage {
            ctx: EspBleMeshMsgCtx { net_idx, app_idx, addr: dst_addr },
            on: if value {
                1
            } else {
                0
            },
            tid: *old(tid),
        }),
        *final(tid) == next_tid(*old(tid)),
{
    let n: u8 = *tid;
    *tid = n.wrapping_add(1);
    let on: u8 = if value {
        1
    } else {
        0
    };
    SetMessage { ctx: EspBleMeshMsgCtx::for_send(net_idx, app_idx, dst_addr), on, tid: n }
}

/// After a set the reported state is what was set, and only output 0 changed.
pub proof fn law_set_is_reported(b: BusView, opcode: u32, msg: Seq<u8>, other: int)
    requires
        switches(opcode, msg),
        0 < other < 64,
    ensures
        reported(operated(b, opcode, msg)) == if msg[0] != 0 {
            1u8
        } else {
            0
        },
        bit(operated(b, opcode, msg).do_, other) == bit(b.do_, other),
{
    crate::bits::law_bit_of_with_bit(b.do_, 0, 0, msg[0] != 0);
    crate::bits::law_bit_of_with_bit(b.do_, 0, other, msg[0] != 0);
}


/// Opcode 0x8201 asks for the state; 0x8202 and 0x8203 set it where a value is given, of
/// which 0x8202 is answered. Any other operation does nothing.
pub proof fn law_operations_of_the_model(b: BusView, opcode: u32, msg: Seq<u8>)
    ensures
        is_answered(opcode, msg) <==> opcode == 0x8201 || (opcode == 0x8202 && msg.len() > 0),
        switches(opcode, msg) <==> (opcode == 0x8202 || opcode == 0x8203) && msg.len() > 0,
        !switches(opcode, msg) ==> operated(b, opcode, msg) == b,
        operated(b, opcode, msg) == (BusView { do_: operated(b, opcode, msg).do_, ..b }),
        reported(b) == (if bit(b.do_, 0) {
            1u8
        } else {
            0
        }),
{
}

/// Transaction numbers count up and round.
pub proof fn law_transactions_count_round(tid: u8)
    ensures
        next_tid(tid) == (tid + 1) % 256,
{
}

} // verus!
