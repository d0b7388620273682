//! Analogue outputs: set values as duty cycles.

use crate::bus::event_bus::{events_after, send_event, IoEvent};
use crate::bus::io_global::IoView;
use crate::bus::io_state::AoView;
use crate::gateway::{Gateway, GatewayView};
use vstd::prelude::*;

verus! {

/// Output period (ms).
pub const OUTPUT_PERIOD_MS: u64 = 100;

/// Driven channels.
pub const CHANNEL_COUNT: usize = 4;

/// Set value of full scale.
pub const SCALED_MAX: u32 = 10000;

/// Duty of full scale.
pub const DUTY_MAX: u32 = 4095;

/// The duty cycle of a set value.
pub open spec fn duty_of(scaled: u16) -> u32 {
    (scaled * DUTY_MAX / (SCALED_MAX as int)) as u32
}

/// The duty cycles that the channels were last driven with.
pub struct AoOutput {
    pub last_duty: [u32; 4],
}

/// Starts the output: no channel was driven yet.
pub fn start_output_task() -> (r: AoOutput)
    ensures
        r.last_duty@ == Seq::new(4, |ch: int| u32::MAX),
{
    let r = AoOutput { last_duty: [u32::MAX; 4] };
    assert(r.last_duty@ =~= Seq::new(4, |ch: int| u32::MAX));
    r
}

/// The duty cycles of all channels.
pub open spec fn duties(g: GatewayView) -> Seq<u32> {
    Seq::new(4, |ch: int| duty_of(g.io.ao.scaled[ch]))
}

/// A channel that is to be driven anew.
#[derive(Debug, Clone, Copy, PartialEq, Eq, Structural)]
pub struct DutyChange {
    pub ch: usize,
    pub duty: u32,
}

/// The channels among the first `n` whose duty cycle changed.
pub open spec fn duty_changes(last: Seq<u32>, new: Seq<u32>, n: nat) -> Seq<DutyChange>
    decreases n,
{
    if n == 0 {
        Seq::empty()
    } else {
        let before = duty_changes(last, new, (n - 1) as nat);
        if last[n - 1] != new[n - 1] {
            before.push(DutyChange { ch: (n - 1) as usize, duty: new[n - 1] })
        } else {
            before
        }
    }
}

/// The state after the outputs were computed.
pub open spec fn after_output(g: GatewayView) -> GatewayView {
    GatewayView {
        io: IoView { ao: AoView { duty: duties(g), ..g.io.ao }, ..g.io },
        events: events_after(g.events, IoEvent::AoUpdated),
        ..g
    }
}

/// Computes the outputs; the result lists the channels to be driven.
pub fn tick_ao_output(output: &mut AoOutput, gw: &mut Gateway) -> (r: Vec<DutyChange>)
    ensures
        r@ == duty_changes(old(output).last_duty@, duties(old(gw)@), 4),
        final(output).last_duty@ == duties(old(gw)@),
        final(gw)@ == after_output(old(gw)@),
{
    let ghost g = gw@;
    let mut out: Vec<DutyChange> = Vec::new();
    let mut ch: usize = 0;
    while ch < CHANNEL_COUNT
        invariant
            ch <= 4,
            g == old(gw)@,
            gw@ == (GatewayView { io: gw@.io, ..g }),
            gw@.io == (IoView { ao: gw@.io.ao, ..g.io }),
            gw@.io.ao.scaled == g.io.ao.scaled,
            g.io.ao.scaled.len() == 4,
            gw@.io.ao.duty.len() == 4,
            forall|j: int| 0 <= j < ch ==> #[trigger] gw@.io.ao.duty[j] == duties(g)[j],
            forall|j: int| 0 <= j < 4 ==> #[trigger] output.last_duty@[j] == if j < ch {
                duties(g)[j]
            } else {
                old(output).last_duty@[j]
            },
            out@ == duty_changes(old(output).last_duty@, duties(g), ch as nat),
        decreases 4 - ch,
    {
        let scaled: u16 = gw.io.ao.get_scaled(ch);
        let duty: u32 = (scaled as u32) * DUTY_MAX / SCALED_MAX;
        gw.io.ao.set_duty(ch, duty);
        if duty != output.last_duty[ch] {
            out.push(DutyChange { ch, duty });
            output.last_duty[ch] = duty;
        }
        ch += 1;
    }
    send_event(&mut gw.events, IoEvent::AoUpdated);
    assert(output.last_duty@ =~= duties(g));
    assert(gw@.io.ao.duty =~= duties(g));
    assert(gw@ =~= after_output(g));
    out
}

proof fn lemma_no_changes(s: Seq<u32>, n: nat)
    ensures
        duty_changes(s, s, n).len() == 0,
    decreases n,
{
    if n > 0 {
        lemma_no_changes(s, (n - 1) as nat);
    }
}

/// A tick right after another one drives nothing.
pub proof fn law_unchanged_outputs_rest(g: GatewayView)
    ensures
        duty_changes(duties(g), duties(after_output(g)), 4).len() == 0,
{
    assert(duties(after_output(g)) =~= duties(g));
    lemma_no_changes(duties(g), 4);
}

/// A set value within its range gives a duty cycle within its range, and full scale
/// gives full scale.
pub proof fn law_duty_range(scaled: u16)
    ensures
        scaled <= SCALED_MAX ==> duty_of(scaled) <= DUTY_MAX,
        duty_of(10000) == DUTY_MAX,
        duty_of(0) == 0,
{
}

} // verus!
