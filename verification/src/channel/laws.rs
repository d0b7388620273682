//! Laws of the analogue inputs and outputs.

use crate::channel::ai::{after_sample, average, mapped, quotient, sampled, scaled_value, sum_of, SamplerView};
use crate::channel::ao::{after_output, duties, duty_changes, duty_of, DutyChange};
use crate::channel::calib::{calibrated, highest, lowest, next_uncalibrated, uncalibrated};
use crate::device::DeviceCmd;
use crate::gateway::GatewayView;
use vstd::prelude::*;

verus! {

/// A quotient is the only number that brackets its dividend.
proof fn lemma_quotient(a: int, b: int)
    requires
        0 <= a,
        0 < b,
    ensures
        b * (a / b) <= a < b * (a / b + 1),
        0 <= a / b,
{
    vstd::arithmetic::div_mod::lemma_fundamental_div_mod(a, b);
    assert(b * (a / b + 1) == b * (a / b) + b) by (nonlinear_arith);
    assert(0 <= a / b) by (nonlinear_arith)
        requires
            0 <= a,
            0 < b,
    ;
}

// ---- Lines ----

/// Whether `x` lies between `a` and `b`, the ends among them.
pub open spec fn between(x: int, a: int, b: int) -> bool {
    a <= x <= b || b <= x <= a
}

pub open spec fn distance_of(a: int, b: int) -> int {
    if a < b {
        b - a
    } else {
        a - b
    }
}

/// A number between the ends of a line is mapped onto the line: the way from the first
/// output has the proportion of the way from the first input, rounded down to a whole
/// step. A number past an end is mapped to that end.
pub proof fn law_numbers_map_onto_the_line(x: u16, in_min: u16, in_max: u16, out_min: u16, out_max: u16)
    requires
        in_min != in_max,
    ensures
        ({
            let v = mapped(x, in_min, in_max, out_min, out_max);
            let run = distance_of(in_min as int, in_max as int);
            let rise = distance_of(out_min as int, out_max as int);
            let way = distance_of(in_min as int, x as int);
            let got = distance_of(out_min as int, v as int);
            &&& between(v as int, out_min as int, out_max as int)
            &&& between(x as int, in_min as int, in_max as int) ==> got * run <= way * rise < (got + 1) * run
            &&& x < in_min < in_max || x > in_min > in_max ==> v == out_min
            &&& x > in_max > in_min || x < in_max < in_min ==> v == out_max
        }),
{
    let (a, b, d) = (x - in_min, out_max - out_min, in_max - in_min);
    let run = distance_of(in_min as int, in_max as int);
    let rise = distance_of(out_min as int, out_max as int);
    let way = distance_of(in_min as int, x as int);
    let q = (way * rise) / run;
    assert(way * rise >= 0) by (nonlinear_arith)
        requires
            way >= 0,
            rise >= 0,
    ;
    assert(way * rise == a * b || way * rise == -(a * b)) by (nonlinear_arith)
        requires
            way == a || way == -a,
            rise == b || rise == -b,
    ;
    lemma_quotient(way * rise, run);
    assert((a * b < 0) == ((a < 0) != (b < 0) && a != 0 && b != 0)) by (nonlinear_arith);
    assert(q == 0 ==> quotient(a * b, d) == 0);
    assert(quotient(a * b, d) == q || quotient(a * b, d) == -q);
    if a == 0 || b == 0 {
        assert(a * b == 0) by (nonlinear_arith)
            requires
                a == 0 || b == 0,
        ;
        assert(q == 0);
    }
    assert(run * q == q * run && run * (q + 1) == (q + 1) * run) by (nonlinear_arith);
    if between(x as int, in_min as int, in_max as int) {
        assert(way * rise <= run * rise) by (nonlinear_arith)
            requires
                0 <= way <= run,
                rise >= 0,
        ;
        assert(q <= rise) by (nonlinear_arith)
            requires
                run * q <= run * rise,
                run > 0,
        ;
    } else if way >= run && (x > in_min) == (in_max > in_min) {
        assert(way * rise >= run * rise) by (nonlinear_arith)
            requires
                way >= run,
                rise >= 0,
        ;
        assert(q >= rise) by (nonlinear_arith)
            requires
                run * rise < run * (q + 1),
                run > 0,
        ;
    }
}

// ---- Inputs ----

/// The lower and the upper calibration register of a channel, 2280 and 2288 and on.
pub open spec fn calibration_registers(g: GatewayView, ch: int) -> (u16, u16) {
    match g.storage.snapshot {
        Some(s) => (s.holding_buf[2280 - 2176 + ch], s.holding_buf[2288 - 2176 + ch]),
        None => (0, 0),
    }
}

/// Without calibration the converter's range of 0 to 4095 stands for 4 to 20 mA: the
/// value in uA is on the line from 4000 to 20000, rounded down.
pub proof fn law_uncalibrated_input_is_a_current(g: GatewayView, v: SamplerView, ch: int)
    requires
        0 <= ch < 6,
        g.io.ai.raw.len() == 8,
        g.io.ai.scaled.len() == 8,
        calibration_registers(g, ch).0 == calibration_registers(g, ch).1,
        after_sample(g, v).io.ai.raw[ch] <= 4095,
    ensures
        ({
            let a = after_sample(g, v).io.ai.raw[ch];
            let i = after_sample(g, v).io.ai.scaled[ch];
            &&& 4000 <= i <= 20000
            &&& 4095 * (i - 4000) <= 16000 * a < 4095 * (i - 4000 + 1)
        }),
{
    let a = average(v, ch);
    lemma_quotient(16000 * a, 4095);
}

/// A larger average gives a larger current.
pub proof fn law_current_rises(a: u16, b: u16, calibration: u16)
    requires
        a < b <= 4095,
    ensures
        scaled_value(a, calibration, calibration) < scaled_value(b, calibration, calibration),
{
}

/// With a calibration the value is on the line that has 0 at the lower and 4095 at the
/// upper register, counted down from the upper end and held between the two.
pub proof fn law_calibrated_input_is_on_its_line(g: GatewayView, v: SamplerView, ch: int)
    requires
        0 <= ch < 6,
        g.io.ai.raw.len() == 8,
        g.io.ai.scaled.len() == 8,
        calibration_registers(g, ch).0 != calibration_registers(g, ch).1,
    ensures
        ({
            let a = after_sample(g, v).io.ai.raw[ch];
            let i = after_sample(g, v).io.ai.scaled[ch];
            let (lower, upper) = calibration_registers(g, ch);
            let run = distance_of(lower as int, upper as int);
            &&& i <= 4095
            &&& between(a as int, lower as int, upper as int) ==> (4095 - i) * run <= distance_of(
                upper as int,
                a as int,
            ) * 4095 < (4095 - i + 1) * run
            &&& a <= lower < upper || a >= lower > upper ==> i == 0
            &&& a >= upper > lower || a <= upper < lower ==> i == 4095
        }),
{
    let a = average(v, ch);
    let (lower, upper) = calibration_registers(g, ch);
    law_numbers_map_onto_the_line(a, upper, lower, 4095, 0);
    crate::channel::ai::law_ends_map_to_ends(upper, lower, 4095, 0);
}

/// A round of samples touches the six sampled channels and nothing else, and announces
/// itself.
pub proof fn law_sampling_touches_the_inputs_only(g: GatewayView, v: SamplerView)
    requires
        g.io.ai.raw.len() == 8,
        g.io.ai.scaled.len() == 8,
        g.events.len() < 32,
    ensures
        ({
            let s = after_sample(g, v);
            &&& s == (GatewayView { io: s.io, events: s.events, ..g })
            &&& s.io == (crate::bus::io_global::IoView { ai: s.io.ai, ..g.io })
            &&& s.io.ai.status == g.io.ai.status
            &&& forall|ch: int| 6 <= ch < 8 ==> #[trigger] s.io.ai.raw[ch] == g.io.ai.raw[ch]
            &&& forall|ch: int| 6 <= ch < 8 ==> #[trigger] s.io.ai.scaled[ch] == g.io.ai.scaled[ch]
            &&& s.events == g.events.push(crate::bus::event_bus::IoEvent::AiSampled)
        }),
{
}

/// The samples after the first `n` rounds.
pub open spec fn rounds_taken(rounds: Seq<Seq<u16>>, n: nat) -> SamplerView
    decreases n,
{
    if n == 0 {
        SamplerView { windows: Seq::new(6, |ch: int| Seq::new(8, |i: int| 0u16)), pos: 0, filled: 0 }
    } else {
        sampled(rounds_taken(rounds, (n - 1) as nat), rounds[n - 1])
    }
}

/// The value of a channel in the latest round before `n` whose number leaves `i` when
/// divided by eight; zero where there was none.
pub open spec fn latest_in_place(rounds: Seq<Seq<u16>>, n: nat, ch: int, i: int) -> u16
    decreases n,
{
    if n == 0 {
        0
    } else if (n - 1) % 8 == i {
        rounds[n - 1][ch]
    } else {
        latest_in_place(rounds, (n - 1) as nat, ch, i)
    }
}

/// The window of a channel holds its latest eight samples, or as many as there are.
pub proof fn law_window_holds_the_latest(rounds: Seq<Seq<u16>>, n: nat, ch: int)
    requires
        n <= rounds.len(),
        0 <= ch < 6,
    ensures
        ({
            let v = rounds_taken(rounds, n);
            &&& v.windows.len() == 6
            &&& v.windows[ch].len() == 8
            &&& v.pos == n % 8
            &&& v.filled == (if n < 8 {
                n as int
            } else {
                8
            })
            &&& forall|i: int| 0 <= i < 8 ==> #[trigger] v.windows[ch][i] == latest_in_place(rounds, n, ch, i)
        }),
    decreases n,
{
    if n > 0 {
        law_window_holds_the_latest(rounds, (n - 1) as nat, ch);
        assert((n - 1) % 8 + 1 < 8 ==> n % 8 == (n - 1) % 8 + 1);
        assert((n - 1) % 8 == 7 ==> n % 8 == 0);
    }
}

/// The filtered value of a channel is the mean of its latest eight samples, or of as
/// many as there are, rounded down.
pub proof fn law_filtered_value_is_the_mean(g: GatewayView, rounds: Seq<Seq<u16>>, n: nat, ch: int)
    requires
        1 <= n <= rounds.len(),
        0 <= ch < 6,
        g.io.ai.raw.len() == 8,
        forall|r: int| 0 <= r < n ==> (#[trigger] rounds[r]).len() == 6,
    ensures
        ({
            let a = after_sample(g, rounds_taken(rounds, n)).io.ai.raw[ch];
            let at = |i: int| latest_in_place(rounds, n, ch, i);
            let sum = at(0) + at(1) + at(2) + at(3) + at(4) + at(5) + at(6) + at(7);
            let count = if n < 8 {
                n as int
            } else {
                8
            };
            count * a <= sum < count * (a + 1)
        }),
{
    law_window_holds_the_latest(rounds, n, ch);
    let v = rounds_taken(rounds, n);
    let w = v.windows[ch];
    reveal_with_fuel(sum_of, 9);
    let sum = sum_of(w, 8);
    assert(sum == w[0] + w[1] + w[2] + w[3] + w[4] + w[5] + w[6] + w[7]);
    lemma_quotient(sum, v.filled);
    lemma_places_beyond(rounds, n, ch);
    assert(sum <= v.filled * 0xFFFF) by {
        if n < 8 {
            assert forall|i: int| n <= i < 8 implies w[i] == 0 by {
                assert(latest_in_place(rounds, n, ch, i) == 0);
            }
        }
    }
    assert(sum / v.filled <= 0xFFFF) by (nonlinear_arith)
        requires
            0 <= sum <= v.filled * 0xFFFF,
            v.filled >= 1,
    ;
}

proof fn lemma_places_beyond(rounds: Seq<Seq<u16>>, n: nat, ch: int)
    ensures
        forall|i: int| n <= i < 8 ==> #[trigger] latest_in_place(rounds, n, ch, i) == 0,
    decreases n,
{
    if n > 0 {
        lemma_places_beyond(rounds, (n - 1) as nat, ch);
        assert forall|i: int| n <= i < 8 implies #[trigger] latest_in_place(rounds, n, ch, i) == 0 by {
            assert(latest_in_place(rounds, (n - 1) as nat, ch, i) == 0);
            assert((n - 1) % 8 == n - 1);
        }
    }
}

// ---- Calibration ----

/// The channel that is calibrated is the first of eight whose two registers are both
/// zero; where there is none, nothing is calibrated.
pub proof fn law_first_channel_without_registers(g: GatewayView)
    ensures
        next_uncalibrated(g, 0) matches Some(k) ==> 0 <= k < 8 && calibration_registers(g, k) == (0u16, 0u16) && forall|
            j: int,
        | 0 <= j < k ==> #[trigger] calibration_registers(g, j) != (0u16, 0u16),
        next_uncalibrated(g, 0) is None ==> forall|j: int|
            0 <= j < 8 ==> #[trigger] calibration_registers(g, j) != (0u16, 0u16),
{
    crate::channel::calib::law_first_uncalibrated(g);
    assert forall|j: int| 0 <= j < 8 && #[trigger] calibration_registers(g, j) == (0u16, 0u16) implies uncalibrated(
        g,
        j,
    ) by {}
}

/// The samples of a calibration are summed up by the lowest and the highest of them.
pub proof fn law_ends_of_samples(samples: Seq<u16>, n: nat)
    requires
        n <= samples.len(),
    ensures
        forall|i: int| 0 <= i < n ==> lowest(samples, n) <= #[trigger] samples[i] <= highest(samples, n),
        n == 0 ==> lowest(samples, n) == 0xFFFF && highest(samples, n) == 0,
        n > 0 ==> exists|i: int| 0 <= i < n && #[trigger] samples[i] == lowest(samples, n),
        n > 0 ==> exists|i: int| 0 <= i < n && #[trigger] samples[i] == highest(samples, n),
    decreases n,
{
    if n > 0 {
        law_ends_of_samples(samples, (n - 1) as nat);
        assert(samples[n - 1] == lowest(samples, n) || lowest(samples, n) == lowest(samples, (n - 1) as nat));
        assert(samples[n - 1] == highest(samples, n) || highest(samples, n) == highest(samples, (n - 1) as nat));
        if n == 1 {
            assert(samples[0] == lowest(samples, n));
            assert(samples[0] == highest(samples, n));
        }
    }
}

/// A calibration stores its lower end from 506 to 804 at 2280 and on, and its upper end
/// from 2917 to 3215 at 2288 and on, marks the registers and asks for them to be
/// persisted. Other ends are not stored, and no other register changes.
pub proof fn law_calibration_stores_plausible_ends(g: GatewayView, ch: int, min: u16, max: u16)
    requires
        0 <= ch < 8,
        g.storage.snapshot is Some,
        g.storage.snapshot->0.holding_buf.len() == 2048,
        g.mailbox.len() < 32,
    ensures
        ({
            let before = g.storage.snapshot->0.holding_buf;
            let c = calibrated(g, ch, min, max);
            let after = c.storage.snapshot->0.holding_buf;
            let low_stored = 505 < min < 805;
            let high_stored = 2916 < max < 3216;
            &&& c.storage.snapshot is Some
            &&& after.len() == 2048
            &&& after[104 + ch] == if low_stored {
                min
            } else {
                before[104 + ch]
            }
            &&& after[112 + ch] == if high_stored {
                max
            } else {
                before[112 + ch]
            }
            &&& forall|i: int|
                0 <= i < 2048 && i != 104 + ch && i != 112 + ch ==> #[trigger] after[i] == before[i]
            &&& low_stored || high_stored ==> c.storage.holding_dirty && c.mailbox == g.mailbox.push(
                DeviceCmd::PersistHolding,
            )
            &&& !low_stored && !high_stored ==> c == g
        }),
{
}

// ---- Outputs ----

/// Set values of 0 to 10000 stand for duty cycles of 0 to 4095, rounded down.
pub proof fn law_duty_is_in_proportion(g: GatewayView, ch: int)
    requires
        0 <= ch < 4,
        g.io.ao.scaled.len() == 4,
    ensures
        ({
            let d = after_output(g).io.ao.duty[ch];
            &&& after_output(g).io.ao.duty.len() == 4
            &&& after_output(g).io.ao.scaled == g.io.ao.scaled
            &&& d == duties(g)[ch]
            &&& 10000 * d <= g.io.ao.scaled[ch] * 4095 < 10000 * (d + 1)
        }),
{
    lemma_quotient(g.io.ao.scaled[ch] * 4095, 10000);
    assert(g.io.ao.scaled[ch] * 4095 <= 65535 * 4095);
    assert(duty_of(g.io.ao.scaled[ch]) == g.io.ao.scaled[ch] * 4095 / 10000);
}

/// The channels that are driven are those whose duty cycle changed, each once, in
/// order and with the new duty cycle.
pub proof fn law_changed_outputs_are_driven(last: Seq<u32>, new: Seq<u32>, n: nat)
    requires
        n <= 4,
        last.len() == 4,
        new.len() == 4,
    ensures
        forall|ch: int|
            0 <= ch < n && last[ch] != new[ch] ==> duty_changes(last, new, n).contains(
                DutyChange { ch: ch as usize, duty: #[trigger] new[ch] },
            ),
        forall|i: int|
            0 <= i < duty_changes(last, new, n).len() ==> {
                let c = #[trigger] duty_changes(last, new, n)[i];
                c.ch < n && last[c.ch as int] != new[c.ch as int] && c.duty == new[c.ch as int]
            },
        forall|i: int, j: int|
            0 <= i < j < duty_changes(last, new, n).len() ==> (#[trigger] duty_changes(last, new, n)[i]).ch < (
            #[trigger] duty_changes(last, new, n)[j]).ch,
    decreases n,
{
    if n > 0 {
        let before = duty_changes(last, new, (n - 1) as nat);
        law_changed_outputs_are_driven(last, new, (n - 1) as nat);
        let now = duty_changes(last, new, n);
        assert forall|ch: int| 0 <= ch < n && last[ch] != new[ch] implies now.contains(
            DutyChange { ch: ch as usize, duty: #[trigger] new[ch] },
        ) by {
            let c = DutyChange { ch: ch as usize, duty: new[ch] };
            if ch == n - 1 {
                assert(now[now.len() - 1] == c);
            } else {
                assert(before.contains(c));
                let i = choose|i: int| 0 <= i < before.len() && before[i] == c;
                assert(now[i] == c);
            }
        }
    }
}

} // verus!
