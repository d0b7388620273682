//! State of the BLE link: the connection, its buffers, and advertising.

use crate::ble_at::frame::{ble_frame, build_frame, BLE_BINARY_PDU_MAX};
use crate::bounded::{
    clear_line, line_held, line_text, new_frame, new_line, new_queue, push_char, push_text, slice_of, take_first,
    try_extend, wipe, Items,
};
use crate::bytes::{hi, high, lo, low};
use crate::error::recovery::{after_failure, record_failure, Severity};
use crate::gateway::{Gateway, GatewayView};
use crate::text::{chars, find, index_of};
use vstd::prelude::*;
use vstd::utf8::encode_utf8;

verus! {

/// UUID of the service.
pub const SERVICE_UUID: &'static str = "4fafc201-1fb5-459e-8fcc-c5c9c331914b";

/// UUID of the characteristic that is read, written and notified.
pub const CHARACTERISTIC_UUID: &'static str = "beb5483e-36e1-4688-b7f5-ea07361b26a8";

/// UUID of the service as it goes over the air: last byte first.
pub const SERVICE_UUID_128: [u8; 16] = [
    0x4b, 0x91, 0x31, 0xc3, 0xc9, 0xc5, 0xcc, 0x8f, 0x9e, 0x45, 0xb5, 0x1f, 0x01, 0xc2, 0xaf, 0x4f,
];

/// UUID of the characteristic as it goes over the air: last byte first.
pub const CHARACTERISTIC_UUID_128: [u8; 16] = [
    0xa8, 0x26, 0x1b, 0x36, 0x07, 0xea, 0xf5, 0xb7, 0x88, 0x46, 0xe1, 0x36, 0x3e, 0x48, 0xb5, 0xbe,
];

/// Place of the service in the attribute table.
pub const IDX_SVC: usize = 0;

/// Place of the characteristic's declaration in the attribute table.
pub const IDX_CHAR_DECL: usize = 1;

/// Place of the characteristic's value in the attribute table.
pub const IDX_CHAR_VALUE: usize = 2;

/// Place of the characteristic's notification setting in the attribute table.
pub const IDX_CHAR_CCCD: usize = 3;

/// Length of the attribute table.
pub const ATTR_TABLE_LEN: usize = 4;

/// Interface number before registration.
pub const NO_INTERFACE: u8 = 0xFF;

/// Connection number without a connection.
pub const NO_CONNECTION: u16 = 0xFFFF;

/// Name that is advertised where none is set.
pub const DEFAULT_BLE_NAME: &'static str = "Mesh";

/// The BLE link.
pub struct BleLink {
    /// Handles of the attribute table; 0 where not assigned.
    pub handles: [u16; 4],
    pub gatts_if: u8,
    pub conn_id: u16,
    pub notify_enabled: bool,
    /// Text that was received and not yet carried out.
    pub line: heapless::String<512>,
    /// Text that waits to be sent.
    pub text: heapless::String<512>,
    /// Frames that wait to be sent.
    pub tx: heapless::Vec<u8, 2048>,
    /// The frame that is being received.
    pub rx: heapless::Vec<u8, 512>,
    pub pending_notify: bool,
    pub adv_active: bool,
    pub svc_started: bool,
    /// Heartbeats sent on connecting.
    pub connect_beats: u16,
    /// Heartbeats answered.
    pub beats: u16,
    /// Ticks without a connection.
    pub tick_div: u32,
    /// Ticks with a connection and nothing to send.
    pub beat_div: u16,
    /// Heartbeats sent on ticks.
    pub beat_seq: u16,
}

/// The BLE link as plain values.
#[verifier::ext_equal]
pub struct LinkView {
    pub handles: Seq<u16>,
    pub gatts_if: u8,
    pub conn_id: u16,
    pub notify_enabled: bool,
    pub line: Seq<char>,
    pub text: Seq<char>,
    pub tx: Seq<u8>,
    pub rx: Seq<u8>,
    pub pending_notify: bool,
    pub adv_active: bool,
    pub svc_started: bool,
    pub connect_beats: u16,
    pub beats: u16,
    pub tick_div: u32,
    pub beat_div: u16,
    pub beat_seq: u16,
}

impl View for BleLink {
    type V = LinkView;

    open spec fn view(&self) -> LinkView {
        LinkView {
            handles: self.handles@,
            gatts_if: self.gatts_if,
            conn_id: self.conn_id,
            notify_enabled: self.notify_enabled,
            line: line_held(self.line),
            text: line_held(self.text),
            tx: self.tx.items(),
            rx: self.rx.items(),
            pending_notify: self.pending_notify,
            adv_active: self.adv_active,
            svc_started: self.svc_started,
            connect_beats: self.connect_beats,
            beats: self.beats,
            tick_div: self.tick_div,
            beat_div: self.beat_div,
            beat_seq: self.beat_seq,
        }
    }
}

/// The link at power-on.
pub open spec fn link_start() -> LinkView {
    LinkView {
        handles: seq![0u16, 0, 0, 0],
        gatts_if: NO_INTERFACE,
        conn_id: NO_CONNECTION,
        notify_enabled: false,
        line: Seq::empty(),
        text: Seq::empty(),
        tx: Seq::empty(),
        rx: Seq::empty(),
        pending_notify: false,
        adv_active: false,
        svc_started: false,
        connect_beats: 0,
        beats: 0,
        tick_div: 0,
        beat_div: 0,
        beat_seq: 0,
    }
}

/// A count that starts again after its largest value.
pub open spec fn next_beat(n: u16) -> u16 {
    if n == 0xFFFF {
        0
    } else {
        (n + 1) as u16
    }
}

pub open spec fn next_tick(n: u32) -> u32 {
    if n == 0xFFFF_FFFF {
        0
    } else {
        (n + 1) as u32
    }
}

impl BleLink {
    pub fn new() -> (r: Self)
        ensures
            r@ == link_start(),
    {
        let r = BleLink {
            handles: [0u16; 4],
            gatts_if: NO_INTERFACE,
            conn_id: NO_CONNECTION,
            notify_enabled: false,
            line: new_line(),
            text: new_line(),
            tx: new_queue(),
            rx: new_frame(),
            pending_notify: false,
            adv_active: false,
            svc_started: false,
            connect_beats: 0,
            beats: 0,
            tick_div: 0,
            beat_div: 0,
            beat_seq: 0,
        };
        assert(r@ =~= link_start());
        r
    }
}

/// Whether a client is connected.
pub fn has_client(link: &BleLink) -> (r: bool)
    ensures
        r == (link@.conn_id != NO_CONNECTION),
{
    link.conn_id != NO_CONNECTION
}

/// Whether the client wants notifications.
pub fn notify_enabled(link: &BleLink) -> (r: bool)
    ensures
        r == link@.notify_enabled,
{
    link.notify_enabled
}

/// The interface number.
pub fn gatts_if_value(link: &BleLink) -> (r: u8)
    ensures
        r == link@.gatts_if,
{
    link.gatts_if
}

/// How many frames were dropped because the send queue was full.
pub fn binary_tx_drops(gw: &Gateway) -> (r: u32)
    ensures
        r == gw@.ble_tx_drops,
{
    gw.ble_tx_drops
}

/// Notes that the BLE name changed and is to be advertised anew.
pub fn notify_ble_name_changed(gw: &mut Gateway)
    ensures
        final(gw)@ == (GatewayView { ble_name_pending: true, ..old(gw)@ }),
{
    gw.ble_name_pending = true;
    assert(gw@ =~= (GatewayView { ble_name_pending: true, ..old(gw)@ }));
}

/// Number of the next heartbeat answered.
pub fn heartbeat_counter(link: &mut BleLink) -> (r: u16)
    ensures
        r == old(link)@.beats,
        final(link)@ == (LinkView { beats: next_beat(old(link)@.beats), ..old(link)@ }),
{
    let n: u16 = link.beats;
    link.beats = n.wrapping_add(1);
    n
}

// ---- Sending ----

/// The link and the shared state.
pub struct Ble {
    pub l: LinkView,
    pub g: GatewayView,
}

/// A frame put into the send queue. One that does not fit is dropped and counted,
/// and the first of every ten drops is a failure.
#[verifier::opaque]
pub open spec fn sent(l: LinkView, g: GatewayView, tx_id: u16, proto_id: u16, pdu: Seq<u8>, now: u64) -> Ble {
    let f = ble_frame(tx_id, proto_id, pdu);
    if l.tx.len() + f.len() <= 2048 {
        Ble { l: LinkView { tx: l.tx + f, ..l }, g }
    } else {
        let drops = next_tick(g.ble_tx_drops);
        Ble {
            l,
            g: GatewayView {
                ble_tx_drops: drops,
                recovery: if drops % 10 == 1 {
                    after_failure(g.recovery, Severity::Recoverable, now)
                } else {
                    g.recovery
                },
                ..g
            },
        }
    }
}

/// Puts a frame into the send queue.
pub fn send_ble_frame(link: &mut BleLink, gw: &mut Gateway, tx_id: u16, proto_id: u16, pdu_data: &[u8], now: u64)
    requires
        pdu_data@.len() <= 504,
    ensures
        final(link)@ == sent(old(link)@, old(gw)@, tx_id, proto_id, pdu_data@, now).l,
        final(gw)@ == sent(old(link)@, old(gw)@, tx_id, proto_id, pdu_data@, now).g,
{
    proof {
        reveal(sent);
    }
    let frame = build_frame(tx_id, proto_id, pdu_data);
    if !try_extend(&mut link.tx, slice_of(&frame)) {
        gw.ble_tx_drops = gw.ble_tx_drops.wrapping_add(1);
        if gw.ble_tx_drops % 10 == 1 {
            record_failure(&mut gw.recovery, Severity::Recoverable, now);
        }
    }
    assert(link@ =~= sent(old(link)@, old(gw)@, tx_id, proto_id, pdu_data@, now).l);
    assert(gw@ =~= sent(old(link)@, old(gw)@, tx_id, proto_id, pdu_data@, now).g);
}

/// The report of a change of the inputs.
pub open spec fn report_pdu(di: u64) -> Seq<u8> {
    seq![1u8, 0x94] + crate::ble_at::logic_handlers::io_bitmap(di)
}

/// Queues a report of the inputs.
pub fn send_di_status_report(link: &mut BleLink, gw: &mut Gateway, now: u64)
    ensures
        final(link)@ == sent(old(link)@, old(gw)@, 1, 0, report_pdu(old(gw)@.io.di), now).l,
        final(gw)@ == sent(old(link)@, old(gw)@, 1, 0, report_pdu(old(gw)@.io.di), now).g,
{
    let bits: u64 = gw.io.di.load_bits();
    let pdu: [u8; 4] = [1, 0x94, (bits % 256) as u8, ((bits / 256) % 256) as u8];
    assert(pdu@ =~= report_pdu(old(gw)@.io.di));
    send_ble_frame(link, gw, 1, 0, pdu.as_slice(), now);
}

// ---- Text ----

/// A byte as a character of its own.
pub open spec fn latin(b: u8) -> char {
    b as char
}

/// The line buffer after bytes were received; a byte that does not fit is lost.
pub open spec fn fed(line: Seq<char>, data: Seq<u8>, n: nat) -> Seq<char>
    decreases n,
{
    if n == 0 {
        line
    } else {
        let before = fed(line, data, (n - 1) as nat);
        if encode_utf8(before.push(latin(data[n - 1]))).len() <= 512 {
            before.push(latin(data[n - 1]))
        } else {
            before
        }
    }
}

/// Receives text.
pub fn feed_data(link: &mut BleLink, data: &[u8])
    ensures
        final(link)@ == (LinkView { line: fed(old(link)@.line, data@, data@.len()), ..old(link)@ }),
{
    let mut i: usize = 0;
    while i < data.len()
        invariant
            i <= data@.len(),
            link@ =~= (LinkView { line: fed(old(link)@.line, data@, i as nat), ..old(link)@ }),
        decreases data@.len() - i,
    {
        let _ = push_char(&mut link.line, data[i] as char);
        i += 1;
    }
}

/// Takes the text that waits to be sent.
pub fn take_response(link: &mut BleLink) -> (r: Option<String>)
    ensures
        r is Some <==> old(link)@.text.len() > 0,
        r is Some ==> r->0@ == old(link)@.text,
        final(link)@ == (LinkView { text: Seq::empty(), ..old(link)@ }),
{
    let s = line_text(&link.text).to_owned();
    if s.as_str().is_empty() {
        assert(link@ =~= (LinkView { text: Seq::empty(), ..old(link)@ }));
        None
    } else {
        clear_line(&mut link.text);
        assert(link@ =~= (LinkView { text: Seq::empty(), ..old(link)@ }));
        Some(s)
    }
}

/// A line without the carriage returns at its end.
pub open spec fn without_returns(s: Seq<char>) -> Seq<char>
    decreases s.len(),
{
    if s.len() > 0 && s.last() == '\r' {
        without_returns(s.drop_last())
    } else {
        s
    }
}

/// Takes the first whole line, without its line end.
pub fn take_line(link: &mut BleLink) -> (r: Option<Vec<char>>)
    ensures
        r is Some <==> old(link)@.line.contains('\n'),
        r is Some ==> r->0@ == without_returns(old(link)@.line.take(index_of(old(link)@.line, '\n'))) && final(link)@
            == (LinkView { line: old(link)@.line.skip(index_of(old(link)@.line, '\n') + 1), ..old(link)@ }),
        r is None ==> final(link)@ == old(link)@,
{
    let mut all = chars(line_text(&link.line));
    let n: usize = find(all.as_slice(), '\n');
    let ghost line = link@.line;
    if n >= all.len() {
        return None;
    }
    assert(line[n as int] == '\n');
    let count: usize = n + 1;
    let mut i: usize = 0;
    assert(line.skip(0) =~= line);
    while i < count
        invariant
            i <= count <= line.len(),
            line == old(link)@.line,
            link@ =~= (LinkView { line: line.skip(i as int), ..old(link)@ }),
        decreases count - i,
    {
        let _ = take_first(&mut link.line);
        i += 1;
        assert(line.skip(i - 1).skip(1) =~= line.skip(i as int));
    }
    all.truncate(n);
    assert(all@ =~= line.take(n as int));
    while all.len() > 0 && all[all.len() - 1] == '\r'
        invariant
            without_returns(all@) == without_returns(line.take(n as int)),
        decreases all@.len(),
    {
        assert(all@.last() == '\r');
        let ghost before = all@;
        let _ = all.pop();
        assert(all@ =~= before.drop_last());
    }
    Some(all)
}

/// The link with an answer to a text command in the send queue. An answer that is too
/// long for a frame, or for which the queue has no room, is dropped as a whole.
pub open spec fn text_queued(l: LinkView, text: Seq<char>) -> LinkView {
    let bytes = encode_utf8(text);
    let f = ble_frame(0, 0, bytes);
    if bytes.len() <= BLE_BINARY_PDU_MAX && l.tx.len() + f.len() <= 2048 {
        LinkView { tx: l.tx + f, ..l }
    } else {
        l
    }
}

/// Puts an answer to a text command into the send queue.
pub fn queue_text(link: &mut BleLink, text: &str)
    ensures
        final(link)@ == text_queued(old(link)@, text@),
{
    let bytes = text.as_bytes();
    if bytes.len() <= BLE_BINARY_PDU_MAX {
        let frame = build_frame(0, 0, bytes);
        let _ = try_extend(&mut link.tx, slice_of(&frame));
    }
    assert(link@ =~= text_queued(old(link)@, text@));
}

// ---- Connection events ----

/// Registration: the interface is noted, and the attribute table is to be created.
pub fn on_registered(link: &mut BleLink, success: bool, gatts_if: u8) -> (r: bool)
    ensures
        r == success,
        final(link)@ == if success {
            LinkView { gatts_if, ..old(link)@ }
        } else {
            old(link)@
        },
{
    if success {
        link.gatts_if = gatts_if;
    }
    success
}

/// Creation of the attribute table: the handles are noted; the result is the handle
/// of the service that is to be started.
pub fn on_table_created(link: &mut BleLink, success: bool, handles: &[u16]) -> (r: Option<u16>)
    ensures
        r is Some <==> success && handles@.len() > 0,
        r is Some ==> r->0 == handles@[0] && final(link)@ == (LinkView {
            handles: Seq::new(
                4,
                |i: int|
                    if i < handles@.len() {
                        handles@[i]
                    } else {
                        old(link)@.handles[i]
                    },
            ),
            ..old(link)@
        }),
        r is None ==> final(link)@ == old(link)@,
{
    if !success || handles.len() == 0 {
        return None;
    }
    let mut i: usize = 0;
    while i < ATTR_TABLE_LEN && i < handles.len()
        invariant
            i <= 4,
            i <= handles@.len(),
            forall|j: int|
                0 <= j < 4 ==> #[trigger] link@.handles[j] == if j < i {
                    handles@[j]
                } else {
                    old(link)@.handles[j]
                },
            link@ == (LinkView { handles: link@.handles, ..old(link)@ }),
        decreases 4 - i,
    {
        link.handles[i] = handles[i];
        i += 1;
    }
    assert(link@.handles =~= Seq::new(
        4,
        |j: int|
            if j < handles@.len() {
                handles@[j]
            } else {
                old(link)@.handles[j]
            },
    ));
    Some(handles[0])
}

/// Start of the service; the result says whether advertising is to be configured.
pub fn on_service_started(link: &mut BleLink, success: bool) -> (r: bool)
    ensures
        r == success,
        final(link)@ == (LinkView { svc_started: old(link)@.svc_started || success, ..old(link)@ }),
{
    if success {
        link.svc_started = true;
    }
    success
}

/// Refusal of a configuration of advertising: it is tried again on a later tick.
pub fn on_adv_refused(link: &mut BleLink)
    ensures
        final(link)@ == (LinkView { adv_active: false, ..old(link)@ }),
{
    link.adv_active = false;
}

/// Start of advertising.
pub fn on_adv_started(link: &mut BleLink, success: bool)
    ensures
        final(link)@ == (LinkView { adv_active: success, ..old(link)@ }),
{
    link.adv_active = success;
}

/// A heartbeat.
pub open spec fn beat_pdu(n: u16) -> Seq<u8> {
    seq![1u8, 0x11, hi(n), lo(n)]
}

pub(crate) fn beat_frame(n: u16) -> (r: heapless::Vec<u8, 512>)
    ensures
        r.items() == ble_frame(0, 0, beat_pdu(n)),
{
    let pdu: [u8; 4] = [1, 0x11, high(n), low(n)];
    assert(pdu@ =~= beat_pdu(n));
    build_frame(0, 0, pdu.as_slice())
}

/// The link after a client connected: a heartbeat is queued for it where it fits.
pub open spec fn connected(l: LinkView, gatts_if: u8, conn_id: u16) -> LinkView {
    let f = ble_frame(0, 0, beat_pdu(l.connect_beats));
    let m = LinkView { gatts_if, conn_id, connect_beats: next_beat(l.connect_beats), ..l };
    if l.tx.len() + f.len() <= 2048 {
        LinkView { tx: l.tx + f, pending_notify: true, ..m }
    } else {
        m
    }
}

/// A client connected.
pub fn on_connect(link: &mut BleLink, gatts_if: u8, conn_id: u16)
    ensures
        final(link)@ == connected(old(link)@, gatts_if, conn_id),
{
    link.conn_id = conn_id;
    link.gatts_if = gatts_if;
    let frame = beat_frame(link.connect_beats);
    link.connect_beats = link.connect_beats.wrapping_add(1);
    if try_extend(&mut link.tx, slice_of(&frame)) {
        link.pending_notify = true;
    }
    assert(link@ =~= connected(old(link)@, gatts_if, conn_id));
}

/// The link after the client left: nothing of what waited for it remains.
pub open spec fn disconnected(l: LinkView) -> LinkView {
    LinkView {
        conn_id: NO_CONNECTION,
        notify_enabled: false,
        tx: Seq::empty(),
        line: Seq::empty(),
        text: Seq::empty(),
        ..l
    }
}

/// The client left. Advertising is to be started again.
pub fn on_disconnect(link: &mut BleLink)
    ensures
        final(link)@ == disconnected(old(link)@),
{
    link.conn_id = NO_CONNECTION;
    link.notify_enabled = false;
    wipe(&mut link.tx);
    clear_line(&mut link.line);
    clear_line(&mut link.text);
    assert(link@ =~= disconnected(old(link)@));
}

// ---- Notifications ----

/// Where a notification goes.
#[derive(Debug, Clone, Copy, PartialEq, Eq, Structural)]
pub struct Target {
    pub gatts_if: u8,
    pub conn_id: u16,
    pub handle: u16,
}

/// Where notifications go, once there is a client, an interface and a handle.
pub open spec fn target_of(l: LinkView) -> Option<Target> {
    if l.conn_id == NO_CONNECTION || l.gatts_if == NO_INTERFACE || l.handles[IDX_CHAR_VALUE as int] == 0 {
        None
    } else {
        Some(Target { gatts_if: l.gatts_if, conn_id: l.conn_id, handle: l.handles[IDX_CHAR_VALUE as int] })
    }
}

/// Where notifications go.
pub fn target(link: &BleLink) -> (r: Option<Target>)
    ensures
        r == target_of(link@),
{
    if link.conn_id == NO_CONNECTION || link.gatts_if == NO_INTERFACE || link.handles[IDX_CHAR_VALUE] == 0 {
        None
    } else {
        Some(Target { gatts_if: link.gatts_if, conn_id: link.conn_id, handle: link.handles[IDX_CHAR_VALUE] })
    }
}

/// Takes the text that waits, where it can be sent now: the client wants
/// notifications and can be reached. Otherwise the text stays.
pub fn try_send_notify(link: &mut BleLink) -> (r: Option<(Target, String)>)
    ensures
        r is Some <==> old(link)@.notify_enabled && target_of(old(link)@) is Some && old(link)@.text.len() > 0,
        r matches Some(p) ==> Some(p.0) == target_of(old(link)@) && p.1@ == old(link)@.text,
        final(link)@ == if r is Some {
            LinkView { text: Seq::empty(), ..old(link)@ }
        } else {
            old(link)@
        },
{
    if !link.notify_enabled {
        return None;
    }
    let to = match target(link) {
        Some(t) => t,
        None => {
            return None;
        },
    };
    match take_response(link) {
        Some(s) => Some((to, s)),
        None => {
            assert(link@ =~= old(link)@);
            None
        },
    }
}

/// A text could not be sent: it waits again, where it still fits.
pub fn notify_failed(link: &mut BleLink, text: &str)
    ensures
        final(link)@ == if encode_utf8(old(link)@.text + text@).len() <= 512 {
            LinkView { text: old(link)@.text + text@, ..old(link)@ }
        } else {
            old(link)@
        },
{
    let _ = push_text(&mut link.text, text);
}

} // verus!
