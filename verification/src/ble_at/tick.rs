//! Writes of the client, and the work that is done every tick: advertising, text
//! commands, and sending.

use crate::ble_at::binary::{feed_effect, try_feed_binary_protocol, FrameOutcome, OutcomeView};
use crate::ble_at::frame::ble_frame;
use crate::ble_at::link::{
    beat_frame, beat_pdu, fed, feed_data, next_beat, next_tick, queue_text, take_line, target, target_of, text_queued,
    without_returns, BleLink, LinkView, Target, DEFAULT_BLE_NAME, IDX_CHAR_CCCD, IDX_CHAR_VALUE, NO_CONNECTION,
    NO_INTERFACE,
};
use crate::ble_at::ota_handlers::OtaInfo;
use crate::ble_at::parser::{line_effect, process_line};
use crate::ble_at::reply::{AtReply, AtRequest, ReplyView, RequestView};
use crate::bounded::{slice_of, wipe};
use crate::gateway::{Gateway, GatewayView};
use crate::text::{index_of, shown, until_zero};
use vstd::prelude::*;
use vstd::slice::slice_to_vec;

verus! {

// ---- Writes ----

/// What a write of the client asks for: whether to confirm it first, and what became
/// of the frame that it completed.
pub struct WriteOutcome {
    pub respond: bool,
    pub outcome: FrameOutcome,
}

/// What a write does.
pub struct WriteEffect {
    pub l: LinkView,
    pub g: GatewayView,
    pub respond: bool,
    pub out: OutcomeView,
}

/// What a write of the client does. One to the notification setting switches
/// notifications; one to the value is a piece of a frame, or text.
pub open spec fn write_effect(
    l: LinkView,
    g: GatewayView,
    handle: u16,
    need_rsp: bool,
    data: Seq<u8>,
    mac: Seq<u8>,
    now: u64,
) -> WriteEffect {
    let reachable = l.gatts_if != NO_INTERFACE;
    if handle == l.handles[IDX_CHAR_CCCD as int] && data.len() == 2 {
        WriteEffect {
            l: LinkView { notify_enabled: data[0] % 2 == 1, ..l },
            g,
            respond: need_rsp && reachable,
            out: OutcomeView::Done,
        }
    } else if handle == l.handles[IDX_CHAR_VALUE as int] && data.len() > 0 {
        if need_rsp && !reachable {
            WriteEffect { l, g, respond: false, out: OutcomeView::Done }
        } else {
            let e = feed_effect(l, g, data, mac, now);
            if e.out is Ignored {
                WriteEffect {
                    l: LinkView { line: fed(e.l.line, data, data.len()), ..e.l },
                    g: e.g,
                    respond: need_rsp,
                    out: OutcomeView::Done,
                }
            } else {
                WriteEffect { l: e.l, g: e.g, respond: need_rsp, out: e.out }
            }
        }
    } else {
        WriteEffect { l, g, respond: need_rsp && reachable, out: OutcomeView::Done }
    }
}

/// The client wrote to an attribute.
pub fn on_write(
    link: &mut BleLink,
    gw: &mut Gateway,
    handle: u16,
    need_rsp: bool,
    data: &[u8],
    mac: &[u8; 6],
    now: u64,
) -> (r: WriteOutcome)
    ensures
        ({
            let e = write_effect(old(link)@, old(gw)@, handle, need_rsp, data@, mac@, now);
            &&& r.respond == e.respond
            &&& r.outcome@ == e.out
            &&& final(link)@ == e.l
            &&& final(gw)@ == e.g
        }),
{
    let reachable: bool = link.gatts_if != NO_INTERFACE;
    if handle == link.handles[IDX_CHAR_CCCD] && data.len() == 2 {
        link.notify_enabled = data[0] % 2 == 1;
        return WriteOutcome { respond: need_rsp && reachable, outcome: FrameOutcome::Done };
    }
    if handle == link.handles[IDX_CHAR_VALUE] && data.len() > 0 {
        if need_rsp && !reachable {
            return WriteOutcome { respond: false, outcome: FrameOutcome::Done };
        }
        let outcome = try_feed_binary_protocol(link, gw, data, mac, now);
        return match outcome {
            FrameOutcome::Ignored => {
                feed_data(link, data);
                WriteOutcome { respond: need_rsp, outcome: FrameOutcome::Done }
            },
            o => WriteOutcome { respond: need_rsp, outcome: o },
        };
    }
    WriteOutcome { respond: need_rsp && reachable, outcome: FrameOutcome::Done }
}

// ---- Name ----

/// The name that is advertised: the configured one, or the default where there is
/// none.
pub open spec fn gap_name(g: GatewayView) -> Seq<char> {
    match g.config {
        Some(c) => {
            let name = shown(until_zero(c.ble_name));
            if name.len() > 0 {
                name
            } else {
                DEFAULT_BLE_NAME@
            }
        },
        None => DEFAULT_BLE_NAME@,
    }
}

/// The name that is to be set now.
pub fn update_gap_device_name(gw: &Gateway) -> (r: String)
    ensures
        r@ == gap_name(gw@),
{
    if let Some(s) = gw.config.snapshot.read() {
        let name = s.cfg.ble_name_str();
        if !name.as_str().is_empty() {
            return name;
        }
    }
    DEFAULT_BLE_NAME.to_owned()
}

/// The name was set. Once the service runs, advertising is to be configured anew, or
/// the old name stays on the air.
pub fn on_name_set(link: &mut BleLink) -> (r: bool)
    ensures
        r == old(link)@.svc_started,
        final(link)@ == (LinkView { adv_active: old(link)@.adv_active && !r, ..old(link)@ }),
{
    if link.svc_started {
        link.adv_active = false;
    }
    link.svc_started
}

// ---- Ticks ----

/// What advertising needs.
#[derive(Debug, Clone, Copy, PartialEq, Eq, Structural)]
pub struct AdvPlan {
    /// Stop it: it is started afresh from time to time.
    pub stop: bool,
    /// Configure it.
    pub configure: bool,
}

/// What advertising needs on a tick without a client: every 150 ticks it is stopped,
/// and while it is off it is configured every 50 ticks.
pub open spec fn adv_plan(l: LinkView) -> AdvPlan {
    if l.svc_started && l.conn_id == NO_CONNECTION {
        let stop = l.tick_div % 150 == 0 && l.adv_active;
        AdvPlan { stop, configure: (stop || !l.adv_active) && l.tick_div % 50 == 0 }
    } else {
        AdvPlan { stop: false, configure: false }
    }
}

/// The link after that part of a tick.
pub open spec fn adv_ticked(l: LinkView) -> LinkView {
    if l.svc_started && l.conn_id == NO_CONNECTION {
        LinkView { tick_div: next_tick(l.tick_div), adv_active: l.adv_active && !adv_plan(l).stop, ..l }
    } else {
        l
    }
}

fn tick_advertising(link: &mut BleLink) -> (r: AdvPlan)
    ensures
        r == adv_plan(old(link)@),
        final(link)@ == adv_ticked(old(link)@),
{
    if !link.svc_started || link.conn_id != NO_CONNECTION {
        return AdvPlan { stop: false, configure: false };
    }
    let tick: u32 = link.tick_div;
    link.tick_div = tick.wrapping_add(1);
    let stop: bool = tick % 150 == 0 && link.adv_active;
    if stop {
        link.adv_active = false;
    }
    AdvPlan { stop, configure: !link.adv_active && tick % 50 == 0 }
}

/// What goes out next: all that is queued, or else a heartbeat every 100 times.
pub open spec fn next_sent(l: LinkView) -> Option<Seq<u8>> {
    if l.tx.len() > 0 {
        Some(l.tx)
    } else if l.beat_div % 100 == 0 {
        Some(ble_frame(0, 0, beat_pdu(l.beat_seq)))
    } else {
        None
    }
}

/// The link after that went out.
pub open spec fn after_sent(l: LinkView) -> LinkView {
    if l.tx.len() > 0 {
        LinkView { tx: Seq::empty(), ..l }
    } else {
        LinkView {
            beat_div: next_beat(l.beat_div),
            beat_seq: if l.beat_div % 100 == 0 {
                next_beat(l.beat_seq)
            } else {
                l.beat_seq
            },
            ..l
        }
    }
}

pub open spec fn bytes_view(b: Option<Vec<u8>>) -> Option<Seq<u8>> {
    match b {
        Some(v) => Some(v@),
        None => None,
    }
}

/// Takes what goes out next.
pub fn next_notification(link: &mut BleLink) -> (r: Option<Vec<u8>>)
    ensures
        bytes_view(r) == next_sent(old(link)@),
        final(link)@ == after_sent(old(link)@),
{
    let queued = slice_of(&link.tx);
    if queued.len() > 0 {
        let data = slice_to_vec(queued);
        wipe(&mut link.tx);
        assert(link@ =~= after_sent(old(link)@));
        return Some(data);
    }
    let n: u16 = link.beat_div;
    link.beat_div = n.wrapping_add(1);
    if n % 100 != 0 {
        return None;
    }
    let frame = beat_frame(link.beat_seq);
    link.beat_seq = link.beat_seq.wrapping_add(1);
    Some(slice_to_vec(slice_of(&frame)))
}

/// Work for one tick.
pub struct TickPlan {
    pub adv: AdvPlan,
    /// Set this name, then `on_name_set`.
    pub name: Option<String>,
    /// Where notifications go.
    pub target: Option<Target>,
    /// Carry out this request of a command, then `finish_tick` with the reply to it.
    pub request: Option<AtRequest>,
    /// Send this.
    pub notify: Option<Vec<u8>>,
}

/// Work for one tick, as plain values.
pub struct PlanView {
    pub adv: AdvPlan,
    pub name: Option<Seq<char>>,
    pub target: Option<Target>,
    pub request: Option<RequestView>,
    pub notify: Option<Seq<u8>>,
}

impl View for TickPlan {
    type V = PlanView;

    open spec fn view(&self) -> PlanView {
        PlanView {
            adv: self.adv,
            name: match self.name {
                Some(s) => Some(s@),
                None => None,
            },
            target: self.target,
            request: match self.request {
                Some(r) => Some(r@),
                None => None,
            },
            notify: bytes_view(self.notify),
        }
    }
}

/// What a tick does.
pub struct TickEffect {
    pub l: LinkView,
    pub g: GatewayView,
    pub plan: PlanView,
}

/// The first line that was received, without its line end.
pub open spec fn first_line(l: LinkView) -> Seq<char> {
    without_returns(l.line.take(index_of(l.line, '\n')))
}

/// The link without the first line.
pub open spec fn line_taken(l: LinkView) -> LinkView {
    LinkView { line: l.line.skip(index_of(l.line, '\n') + 1), ..l }
}

/// The part of a tick with a client: a text command is carried out where one is
/// complete, and what is queued goes out. A command that needs something done outside
/// is answered before anything goes out.
pub open spec fn client_effect(l: LinkView, g: GatewayView, plan: PlanView, ota: OtaInfo) -> TickEffect {
    if l.line.contains('\n') {
        let m = line_taken(l);
        let e = line_effect(g, first_line(l), ota);
        match e.reply {
            ReplyView::Text(t) => {
                let q = text_queued(m, t);
                TickEffect { l: after_sent(q), g: e.g, plan: PlanView { notify: next_sent(q), ..plan } }
            },
            ReplyView::Request(r) => TickEffect { l: m, g: e.g, plan: PlanView { request: Some(r), ..plan } },
        }
    } else {
        TickEffect { l: after_sent(l), g, plan: PlanView { notify: next_sent(l), ..plan } }
    }
}

/// What a tick does.
pub open spec fn tick_effect(l: LinkView, g: GatewayView, ota: OtaInfo) -> TickEffect {
    let m = adv_ticked(l);
    let h = GatewayView { ble_name_pending: false, ..g };
    let plan = PlanView {
        adv: adv_plan(l),
        name: if g.ble_name_pending {
            Some(gap_name(g))
        } else {
            None
        },
        target: target_of(m),
        request: None,
        notify: None,
    };
    if target_of(m) is Some {
        client_effect(m, h, plan, ota)
    } else {
        TickEffect { l: m, g: h, plan }
    }
}

fn serve_client(link: &mut BleLink, gw: &mut Gateway, plan: TickPlan, ota: &OtaInfo) -> (r: TickPlan)
    requires
        plan.request is None,
        plan.notify is None,
    ensures
        r@ == client_effect(old(link)@, old(gw)@, plan@, *ota).plan,
        final(link)@ == client_effect(old(link)@, old(gw)@, plan@, *ota).l,
        final(gw)@ == client_effect(old(link)@, old(gw)@, plan@, *ota).g,
{
    let mut plan = plan;
    if let Some(line) = take_line(link) {
        match process_line(gw, line.as_slice(), ota) {
            AtReply::Text(t) => {
                queue_text(link, t.as_str());
            },
            AtReply::Request(q) => {
                plan.request = Some(q);
                return plan;
            },
        }
    }
    plan.notify = next_notification(link);
    plan
}

/// Does the work of a tick.
pub fn process_tick(link: &mut BleLink, gw: &mut Gateway, ota: &OtaInfo) -> (r: TickPlan)
    ensures
        r@ == tick_effect(old(link)@, old(gw)@, *ota).plan,
        final(link)@ == tick_effect(old(link)@, old(gw)@, *ota).l,
        final(gw)@ == tick_effect(old(link)@, old(gw)@, *ota).g,
{
    let adv = tick_advertising(link);
    let name = if gw.ble_name_pending {
        Some(update_gap_device_name(gw))
    } else {
        None
    };
    gw.ble_name_pending = false;
    assert(gw@ =~= (GatewayView { ble_name_pending: false, ..old(gw)@ }));
    let to = target(link);
    let plan = TickPlan { adv, name, target: to, request: None, notify: None };
    if to.is_some() {
        serve_client(link, gw, plan, ota)
    } else {
        plan
    }
}

/// Answers the request of a tick: the reply is queued, and what is queued goes out.
pub fn finish_tick(link: &mut BleLink, text: &str) -> (r: Option<Vec<u8>>)
    ensures
        bytes_view(r) == next_sent(text_queued(old(link)@, text@)),
        final(link)@ == after_sent(text_queued(old(link)@, text@)),
{
    queue_text(link, text);
    next_notification(link)
}

} // verus!
