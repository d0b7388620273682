//! Laws of the control-word executor.

use crate::bits::{bit, law_bit_of_replaced};
use crate::bus::io_global::IoView;
use crate::control_logic::table::LogicView;
use crate::control_logic::{
    acted, command_of, confirmed, control_index, control_written, feedback_at, feedback_of, feedback_of_controls, queued,
    refreshed, result_word, run_due, scope_of, scope_of_first, stored_table, taken_out, ticked, with_command,
    with_commands, without, Command, ControlView, Outputs, Scheduled, MAX_COMMANDS, MAX_SCHEDULED,
};
use vstd::prelude::*;

verus! {

/// Reading the table again changes nothing as long as the registers stay.
pub proof fn law_refresh_is_idempotent(c: ControlView, holding: Option<Seq<u16>>)
    ensures
        refreshed(refreshed(c, holding), holding) == refreshed(c, holding),
        c.table_generation != c.config_generation ==> refreshed(c, holding).table == stored_table(holding),
{
}

/// After the table was read again, a published word is zero until its channel
/// publishes a value.
pub proof fn law_refresh_clears_results(c: ControlView, holding: Option<Seq<u16>>, address: u16)
    requires
        c.table_generation != c.config_generation,
    ensures
        result_word(refreshed(c, holding), address) is Some ==> result_word(refreshed(c, holding), address)
            == Some(0u16),
{
}

/// A command switches on only outputs of its own record.
pub proof fn law_command_stays_in_scope(logic: LogicView, address: u16, value: u16)
    ensures
        command_of(logic, address, value) matches Some(c) ==> c.q_scope == scope_of(logic.q_points) && c.q_mask
            & !c.q_scope == 0,
{
    let scope = scope_of(logic.q_points);
    let k = control_index(logic.controls, value);
    let bits = logic.controls[k].q_bits;
    assert((bits & scope) & !scope == 0) by (bit_vector);
}

/// An action changes only the outputs of its mask.
pub proof fn law_action_stays_in_mask(o: Outputs, a: Scheduled, j: int)
    requires
        0 <= j < 64,
    ensures
        !bit(a.mask, j) ==> bit(acted(o, a).bits, j) == bit(o.bits, j),
        bit(a.mask, j) ==> bit(acted(o, a).bits, j) == bit(a.value, j),
{
    law_bit_of_replaced(o.bits, a.mask, a.value, j);
}

/// The command queue never exceeds its capacity.
pub proof fn law_queue_is_bounded(
    commands: Seq<Command>,
    entries: Seq<LogicView>,
    address: u16,
    value: u16,
    n: nat,
)
    requires
        commands.len() <= MAX_COMMANDS,
    ensures
        queued(commands, entries, address, value, n).len() <= MAX_COMMANDS,
    decreases n,
{
    if n > 0 {
        law_queue_is_bounded(commands, entries, address, value, (n - 1) as nat);
    }
}

proof fn lemma_without(s: Seq<Scheduled>, id: u16)
    ensures
        without(s, id).len() <= s.len(),
        forall|i: int| 0 <= i < without(s, id).len() ==> (#[trigger] without(s, id)[i]).logic_id != id,
    decreases s.len(),
{
    if s.len() > 0 {
        lemma_without(s.drop_last(), id);
    }
}

/// A command leaves at most its own two actions of its record waiting.
pub proof fn law_command_replaces_earlier(s: Seq<Scheduled>, c: Command, now: u64)
    ensures
        forall|i: int|
            0 <= i < with_command(s, c, now).len() && (#[trigger] with_command(s, c, now)[i]).logic_id
                == c.logic_id ==> i >= without(s, c.logic_id).len(),
        with_command(s, c, now).len() <= without(s, c.logic_id).len() + 2,
        s.len() <= MAX_SCHEDULED ==> with_command(s, c, now).len() <= MAX_SCHEDULED,
{
    lemma_without(s, c.logic_id);
}

proof fn lemma_with_commands_bounded(s: Seq<Scheduled>, commands: Seq<Command>, now: u64, n: nat)
    requires
        s.len() <= MAX_SCHEDULED,
    ensures
        with_commands(s, commands, now, n).len() <= MAX_SCHEDULED,
    decreases n,
{
    if n > 0 {
        lemma_with_commands_bounded(s, commands, now, (n - 1) as nat);
        law_command_replaces_earlier(with_commands(s, commands, now, (n - 1) as nat), commands[n - 1], now);
    }
}

proof fn lemma_run_due(s: Seq<Scheduled>, i: int, now: u64, o: Outputs)
    requires
        0 <= i <= s.len(),
        forall|j: int| 0 <= j < i ==> (#[trigger] s[j]).due_ms > now,
    ensures
        ({
            let rest = run_due(s, i, now, o).0;
            &&& rest.len() <= s.len()
            &&& forall|j: int| 0 <= j < rest.len() ==> (#[trigger] rest[j]).due_ms > now
            &&& forall|j: int| 0 <= j < rest.len() ==> s.contains(#[trigger] rest[j])
            &&& forall|a: Scheduled| a.due_ms > now && #[trigger] s.contains(a) ==> rest.contains(a)
        }),
    decreases s.len() - i,
{
    if i < s.len() {
        if s[i].due_ms <= now {
            let t = taken_out(s, i);
            assert forall|j: int| 0 <= j < i implies (#[trigger] t[j]).due_ms > now by {
                assert(t[j] == s[j]);
            }
            lemma_run_due(t, i, now, acted(o, s[i]));
            let rest = run_due(t, i, now, acted(o, s[i])).0;
            assert forall|a: Scheduled| t.contains(a) implies #[trigger] s.contains(a) by {
                let j = choose|j: int| 0 <= j < t.len() && t[j] == a;
                if j == i {
                    assert(s[s.len() - 1] == a);
                } else {
                    assert(s[j] == a);
                }
            }
            assert forall|j: int| 0 <= j < rest.len() implies s.contains(#[trigger] rest[j]) by {
                assert(t.contains(rest[j]));
            }
            assert forall|a: Scheduled| a.due_ms > now && #[trigger] s.contains(a) implies rest.contains(a) by {
                let j = choose|j: int| 0 <= j < s.len() && s[j] == a;
                if j == s.len() - 1 {
                    assert(j != i);
                    assert(t[i] == a);
                } else {
                    assert(t[j] == a);
                }
                assert(t.contains(a));
            }
        } else {
            lemma_run_due(s, i + 1, now, o);
        }
    } else {
        assert forall|j: int| 0 <= j < s.len() implies s.contains(#[trigger] s[j]) by {}
    }
}

/// A run leaves no due action waiting, drops none that is not due, empties the
/// command queue, and keeps the number of waiting actions within its limit.
pub proof fn law_tick_carries_out_what_is_due(
    c: ControlView,
    holding: Option<Seq<u16>>,
    io: IoView,
    notify: bool,
    now: u64,
)
    requires
        c.scheduled is Some,
        c.scheduled->0.len() <= MAX_SCHEDULED,
    ensures
        ({
            let t = ticked(c, holding, io, notify, now);
            let planned = with_commands(c.scheduled->0, c.commands, now, c.commands.len());
            &&& t.control.commands.len() == 0
            &&& t.control.scheduled is Some
            &&& t.control.scheduled->0.len() <= MAX_SCHEDULED
            &&& forall|j: int|
                0 <= j < t.control.scheduled->0.len() ==> (#[trigger] t.control.scheduled->0[j]).due_ms > now
            &&& forall|a: Scheduled|
                a.due_ms > now && #[trigger] planned.contains(a) ==> t.control.scheduled->0.contains(a)
        }),
{
    let planned = with_commands(c.scheduled->0, c.commands, now, c.commands.len());
    let p = crate::control_logic::published_at(refreshed(c, holding), io.ai.scaled, now);
    assert(p.commands == c.commands && p.scheduled == c.scheduled);
    lemma_with_commands_bounded(c.scheduled->0, c.commands, now, c.commands.len());
    lemma_run_due(planned, 0, now, Outputs { bits: io.do_, transient: p.transient, notify });
}

/// A run changes no output unless an action is due.
pub proof fn law_idle_tick_keeps_outputs(
    c: ControlView,
    holding: Option<Seq<u16>>,
    io: IoView,
    notify: bool,
    now: u64,
)
    requires
        c.commands.len() == 0,
        c.scheduled matches Some(s) ==> forall|j: int| 0 <= j < s.len() ==> (#[trigger] s[j]).due_ms > now,
    ensures
        ticked(c, holding, io, notify, now).outputs.bits == io.do_,
        ticked(c, holding, io, notify, now).outputs.notify == notify,
{
    match c.scheduled {
        Some(s) => {
            let p = crate::control_logic::published_at(refreshed(c, holding), io.ai.scaled, now);
            lemma_nothing_due(s, 0, now, Outputs { bits: io.do_, transient: p.transient, notify });
        },
        None => {},
    }
}

proof fn lemma_nothing_due(s: Seq<Scheduled>, i: int, now: u64, o: Outputs)
    requires
        0 <= i <= s.len(),
        forall|j: int| 0 <= j < s.len() ==> (#[trigger] s[j]).due_ms > now,
    ensures
        run_due(s, i, now, o) == (s, o),
    decreases s.len() - i,
{
    if i < s.len() {
        lemma_nothing_due(s, i + 1, now, o);
    }
}

// ---- Delay and pulse ----

/// The action with which a command that is taken at `now` switches its outputs: after
/// the delay.
pub open spec fn switch_on(c: Command, now: u64) -> Scheduled {
    Scheduled {
        logic_id: c.logic_id,
        due_ms: if now + c.delay_ms < 0xFFFF_FFFF_FFFF_FFFF {
            (now + c.delay_ms) as u64
        } else {
            0xFFFF_FFFF_FFFF_FFFF
        },
        mask: c.q_scope,
        value: c.q_mask,
        transient: c.pulse_ms != 0,
    }
}

/// The action with which a pulse of a command that is taken at `now` ends: after the
/// delay and the pulse.
pub open spec fn switch_off(c: Command, now: u64) -> Scheduled {
    Scheduled {
        logic_id: c.logic_id,
        due_ms: if now + c.delay_ms + c.pulse_ms < 0xFFFF_FFFF_FFFF_FFFF {
            (now + c.delay_ms + c.pulse_ms) as u64
        } else {
            0xFFFF_FFFF_FFFF_FFFF
        },
        mask: c.q_scope,
        value: 0,
        transient: false,
    }
}

/// Whether one of the first `n` commands is of the record.
pub open spec fn commanded(commands: Seq<Command>, n: int, id: u16) -> bool {
    exists|k: int| 0 <= k < n && (#[trigger] commands[k]).logic_id == id
}

/// Whether an action comes from command `k`, the last of its record among the first `n`.
pub open spec fn comes_from(a: Scheduled, commands: Seq<Command>, n: int, k: int, now: u64) -> bool {
    &&& 0 <= k < n
    &&& a == switch_on(commands[k], now) || (commands[k].pulse_ms != 0 && a == switch_off(commands[k], now))
    &&& forall|m: int| k < m < n ==> (#[trigger] commands[m]).logic_id != commands[k].logic_id
}

/// Whether an action waits once the first `n` commands were taken: it waited before, and
/// no command of its record was taken, or it comes from the last command of its record.
pub open spec fn waits(a: Scheduled, s: Seq<Scheduled>, commands: Seq<Command>, n: int, now: u64) -> bool {
    ||| s.contains(a) && !commanded(commands, n, a.logic_id)
    ||| exists|k: int| #[trigger] comes_from(a, commands, n, k, now)
}

proof fn lemma_without_keeps(s: Seq<Scheduled>, id: u16, a: Scheduled)
    ensures
        without(s, id).contains(a) <==> s.contains(a) && a.logic_id != id,
    decreases s.len(),
{
    if s.len() > 0 {
        let front = s.drop_last();
        lemma_without_keeps(front, id, a);
        assert(s =~= front.push(s.last()));
        lemma_contains_push(front, s.last(), a);
        lemma_contains_push(without(front, id), s.last(), a);
    }
}

proof fn lemma_contains_push(s: Seq<Scheduled>, x: Scheduled, a: Scheduled)
    ensures
        s.push(x).contains(a) <==> s.contains(a) || a == x,
{
    if s.contains(a) {
        let j = choose|j: int| 0 <= j < s.len() && s[j] == a;
        assert(s.push(x)[j] == a);
    }
    assert(s.push(x)[s.len() as int] == x);
    if s.push(x).contains(a) && a != x {
        let j = choose|j: int| 0 <= j < s.push(x).len() && s.push(x)[j] == a;
        assert(s[j] == a);
    }
}

proof fn lemma_command(s: Seq<Scheduled>, c: Command, now: u64, a: Scheduled)
    requires
        s.len() <= 62,
    ensures
        with_command(s, c, now).contains(a) <==> (s.contains(a) && a.logic_id != c.logic_id) || a == switch_on(c, now)
            || (c.pulse_ms != 0 && a == switch_off(c, now)),
        with_command(s, c, now).len() <= s.len() + 2,
{
    let rest = without(s, c.logic_id);
    lemma_without(s, c.logic_id);
    lemma_without_keeps(s, c.logic_id, a);
    lemma_contains_push(rest, switch_on(c, now), a);
    lemma_contains_push(rest.push(switch_on(c, now)), switch_off(c, now), a);
    if c.pulse_ms != 0 {
        assert(with_command(s, c, now) =~= rest.push(switch_on(c, now)).push(switch_off(c, now)));
    } else {
        assert(with_command(s, c, now) =~= rest.push(switch_on(c, now)));
    }
}

proof fn lemma_planned(s: Seq<Scheduled>, commands: Seq<Command>, now: u64, n: nat, a: Scheduled)
    requires
        n <= commands.len(),
        s.len() + 2 * n <= 64,
    ensures
        with_commands(s, commands, now, n).contains(a) <==> waits(a, s, commands, n as int, now),
        with_commands(s, commands, now, n).len() <= s.len() + 2 * n,
    decreases n,
{
    if n > 0 {
        let m = (n - 1) as nat;
        let before = with_commands(s, commands, now, m);
        let c = commands[n - 1];
        lemma_planned(s, commands, now, m, a);
        lemma_command(before, c, now, a);
        let on = switch_on(c, now);
        let off = switch_off(c, now);
        if a == on || (c.pulse_ms != 0 && a == off) {
            assert(comes_from(a, commands, n as int, n - 1, now));
        } else if a.logic_id == c.logic_id {
            assert(commanded(commands, n as int, a.logic_id)) by {
                assert(commands[n - 1].logic_id == a.logic_id);
            }
            assert forall|k: int| !#[trigger] comes_from(a, commands, n as int, k, now) by {
                if 0 <= k < n - 1 && commands[k].logic_id == a.logic_id {
                    assert(commands[n - 1].logic_id == commands[k].logic_id);
                }
            }
        } else {
            assert(commanded(commands, n as int, a.logic_id) <==> commanded(commands, m as int, a.logic_id)) by {
                if commanded(commands, n as int, a.logic_id) {
                    let k = choose|k: int| 0 <= k < n && (#[trigger] commands[k]).logic_id == a.logic_id;
                    assert(k != n - 1);
                }
            }
            assert forall|k: int|
                #[trigger] comes_from(a, commands, n as int, k, now) <==> comes_from(a, commands, m as int, k, now) by {
                if comes_from(a, commands, m as int, k, now) {
                    assert forall|q: int| k < q < n implies (#[trigger] commands[q]).logic_id
                        != commands[k].logic_id by {}
                }
            }
            if exists|k: int| #[trigger] comes_from(a, commands, m as int, k, now) {
                let k = choose|k: int| #[trigger] comes_from(a, commands, m as int, k, now);
                assert(comes_from(a, commands, n as int, k, now));
            }
            if exists|k: int| #[trigger] comes_from(a, commands, n as int, k, now) {
                let k = choose|k: int| #[trigger] comes_from(a, commands, n as int, k, now);
                assert(comes_from(a, commands, m as int, k, now));
            }
        }
    } else {
        assert(!commanded(commands, 0, a.logic_id));
        assert forall|k: int| !#[trigger] comes_from(a, commands, 0, k, now) by {}
    }
}

/// A run takes the queued commands at its own time: while there is room, the actions
/// that wait afterwards are the earlier ones of records without a command, and those of
/// the last command of each record, due after exactly its delay, and for a pulse after
/// its delay and its pulse. What is due by then no longer waits.
pub proof fn law_commands_wait_for_their_delay(
    c: ControlView,
    holding: Option<Seq<u16>>,
    io: IoView,
    notify: bool,
    now: u64,
    a: Scheduled,
)
    requires
        c.scheduled is Some,
        c.scheduled->0.len() + 2 * c.commands.len() <= 64,
    ensures
        ({
            let t = ticked(c, holding, io, notify, now).control;
            &&& t.scheduled is Some
            &&& t.scheduled->0.contains(a) <==> a.due_ms > now && waits(
                a,
                c.scheduled->0,
                c.commands,
                c.commands.len() as int,
                now,
            )
        }),
{
    let n = c.commands.len();
    let s = c.scheduled->0;
    let planned = with_commands(s, c.commands, now, n);
    let p = crate::control_logic::published_at(refreshed(c, holding), io.ai.scaled, now);
    assert(p.commands == c.commands && p.scheduled == c.scheduled);
    lemma_planned(s, c.commands, now, n, a);
    let o = Outputs { bits: io.do_, transient: p.transient, notify };
    lemma_run_due(planned, 0, now, o);
    let rest = run_due(planned, 0, now, o).0;
    if rest.contains(a) {
        let j = choose|j: int| 0 <= j < rest.len() && rest[j] == a;
        assert(planned.contains(rest[j]));
    }
}

/// Whether a due action among `s` switches output `j`.
pub open spec fn is_switched(s: Seq<Scheduled>, now: u64, j: int) -> bool {
    exists|a: Scheduled| #[trigger] s.contains(a) && a.due_ms <= now && bit(a.mask, j)
}

proof fn lemma_no_points(j: int)
    ensures
        !bit(0, j),
{
    if 0 <= j < 64 {
        let y = j as u64;
        assert((0u64 >> y) & 1 == 0) by (bit_vector);
    }
}

proof fn lemma_acted(o: Outputs, a: Scheduled, j: int)
    requires
        0 <= j < 64,
    ensures
        bit(a.mask, j) ==> bit(acted(o, a).bits, j) == bit(a.value, j) && bit(acted(o, a).transient, j) == a.transient,
        !bit(a.mask, j) ==> bit(acted(o, a).bits, j) == bit(o.bits, j) && bit(acted(o, a).transient, j) == bit(
            o.transient,
            j,
        ),
{
    law_bit_of_replaced(o.bits, a.mask, a.value, j);
    law_bit_of_replaced(
        o.transient,
        a.mask,
        if a.transient {
            a.mask
        } else {
            0
        },
        j,
    );
    lemma_no_points(j);
}

proof fn lemma_taken_out(s: Seq<Scheduled>, i: int, a: Scheduled)
    requires
        0 <= i < s.len(),
    ensures
        s.contains(a) <==> taken_out(s, i).contains(a) || a == s[i],
{
    let t = taken_out(s, i);
    if t.contains(a) {
        let j = choose|j: int| 0 <= j < t.len() && t[j] == a;
        assert(j == i ==> s[s.len() - 1] == a);
        assert(j != i ==> s[j] == a);
    }
    if s.contains(a) && a != s[i] {
        let j = choose|j: int| 0 <= j < s.len() && s[j] == a;
        if j == s.len() - 1 {
            assert(t[i] == a);
        } else {
            assert(t[j] == a);
        }
    }
}

proof fn lemma_run_due_outputs(s: Seq<Scheduled>, i: int, now: u64, o: Outputs, j: int)
    requires
        0 <= i <= s.len(),
        0 <= j < 64,
        forall|k: int| 0 <= k < i ==> (#[trigger] s[k]).due_ms > now,
    ensures
        ({
            let out = run_due(s, i, now, o).1;
            &&& !is_switched(s, now, j) ==> bit(out.bits, j) == bit(o.bits, j) && bit(out.transient, j) == bit(
                o.transient,
                j,
            )
            &&& is_switched(s, now, j) ==> exists|a: Scheduled|
                #[trigger] s.contains(a) && a.due_ms <= now && bit(a.mask, j) && bit(out.bits, j) == bit(a.value, j)
                    && bit(out.transient, j) == a.transient
            &&& out.notify <==> o.notify || exists|a: Scheduled| #[trigger] s.contains(a) && a.due_ms <= now
        }),
    decreases s.len() - i,
{
    if i < s.len() {
        if s[i].due_ms <= now {
            let x = s[i];
            let t = taken_out(s, i);
            let o2 = acted(o, x);
            assert forall|k: int| 0 <= k < i implies (#[trigger] t[k]).due_ms > now by {
                assert(t[k] == s[k]);
            }
            lemma_run_due_outputs(t, i, now, o2, j);
            lemma_acted(o, x, j);
            assert(s.contains(x));
            assert forall|a: Scheduled| #[trigger] s.contains(a) <==> t.contains(a) || a == x by {
                lemma_taken_out(s, i, a);
            }
            let out = run_due(t, i, now, o2).1;
            if is_switched(t, now, j) {
                let a = choose|a: Scheduled|
                    #[trigger] t.contains(a) && a.due_ms <= now && bit(a.mask, j) && bit(out.bits, j) == bit(
                        a.value,
                        j,
                    ) && bit(out.transient, j) == a.transient;
                assert(s.contains(a));
            }
        } else {
            lemma_run_due_outputs(s, i + 1, now, o, j);
        }
    } else {
        assert forall|a: Scheduled| #[trigger] s.contains(a) implies a.due_ms > now by {
            let k = choose|k: int| 0 <= k < s.len() && s[k] == a;
            assert(s[k].due_ms > now);
        }
    }
}

/// A run switches an output only on behalf of an action that is due, and then as the
/// action says: a command that is taken at this time counts only where it has no delay.
/// The outputs wait to be driven exactly where some action was due.
pub proof fn law_outputs_follow_what_is_due(
    c: ControlView,
    holding: Option<Seq<u16>>,
    io: IoView,
    notify: bool,
    now: u64,
    j: int,
)
    requires
        c.scheduled is Some,
        c.scheduled->0.len() + 2 * c.commands.len() <= 64,
        0 <= j < 64,
    ensures
        ({
            let out = ticked(c, holding, io, notify, now).outputs;
            let left = ticked(c, holding, io, notify, now).control.transient;
            let n = c.commands.len() as int;
            let due = |a: Scheduled| a.due_ms <= now && waits(a, c.scheduled->0, c.commands, n, now);
            &&& (forall|a: Scheduled| #[trigger] due(a) ==> !bit(a.mask, j)) ==> bit(out.bits, j) == bit(io.do_, j)
                && bit(left, j) == bit(c.transient, j)
            &&& (exists|a: Scheduled| #[trigger] due(a) && bit(a.mask, j)) ==> exists|a: Scheduled|
                #[trigger] due(a) && bit(a.mask, j) && bit(out.bits, j) == bit(a.value, j) && bit(left, j)
                    == a.transient
            &&& out.notify <==> notify || exists|a: Scheduled| #[trigger] due(a)
        }),
{
    let n = c.commands.len();
    let s = c.scheduled->0;
    let planned = with_commands(s, c.commands, now, n);
    let p = crate::control_logic::published_at(refreshed(c, holding), io.ai.scaled, now);
    assert(p.commands == c.commands && p.scheduled == c.scheduled && p.transient == c.transient);
    let o = Outputs { bits: io.do_, transient: p.transient, notify };
    lemma_run_due_outputs(planned, 0, now, o, j);
    let out = run_due(planned, 0, now, o).1;
    let due = |a: Scheduled| a.due_ms <= now && waits(a, s, c.commands, n as int, now);
    assert forall|a: Scheduled| #[trigger] due(a) <==> planned.contains(a) && a.due_ms <= now by {
        lemma_planned(s, c.commands, now, n, a);
    }
    if exists|a: Scheduled| #[trigger] due(a) && bit(a.mask, j) {
        let a = choose|a: Scheduled| #[trigger] due(a) && bit(a.mask, j);
        assert(planned.contains(a));
        assert(is_switched(planned, now, j));
        let b = choose|a: Scheduled|
            #[trigger] planned.contains(a) && a.due_ms <= now && bit(a.mask, j) && bit(out.bits, j) == bit(
                a.value,
                j,
            ) && bit(out.transient, j) == a.transient;
        assert(due(b));
    } else if is_switched(planned, now, j) {
        let a = choose|a: Scheduled| #[trigger] planned.contains(a) && a.due_ms <= now && bit(a.mask, j);
        assert(due(a));
    }
    if exists|a: Scheduled| #[trigger] planned.contains(a) && a.due_ms <= now {
        let a = choose|a: Scheduled| #[trigger] planned.contains(a) && a.due_ms <= now;
        assert(due(a));
    }
    if exists|a: Scheduled| #[trigger] due(a) {
        let a = choose|a: Scheduled| #[trigger] due(a);
        assert(planned.contains(a));
    }
}

/// A command on an executor in which nothing waits, over time: the outputs keep until
/// the delay is over, then take the command's values, and at the end of its pulse go
/// off. Outputs that are not of the record keep all the time.
pub proof fn law_delay_then_pulse(
    c: ControlView,
    holding: Option<Seq<u16>>,
    io: IoView,
    notify: bool,
    start: u64,
    now: u64,
    j: int,
)
    requires
        c.scheduled == Some(Seq::<Scheduled>::empty()),
        c.commands.len() == 1,
        c.commands[0].delay_ms > 0,
        start + c.commands[0].delay_ms + c.commands[0].pulse_ms < 0xFFFF_FFFF_FFFF_FFFF,
        start < now,
        0 <= j < 64,
    ensures
        ({
            let cmd = c.commands[0];
            let first = ticked(c, holding, io, notify, start);
            let then = ticked(
                first.control,
                holding,
                IoView { do_: first.outputs.bits, ..io },
                first.outputs.notify,
                now,
            );
            &&& bit(first.outputs.bits, j) == bit(io.do_, j)
            &&& bit(then.outputs.bits, j) == if !bit(cmd.q_scope, j) || now < start + cmd.delay_ms {
                bit(io.do_, j)
            } else if cmd.pulse_ms == 0 || now < start + cmd.delay_ms + cmd.pulse_ms {
                bit(cmd.q_mask, j)
            } else {
                false
            }
        }),
{
    let cmd = c.commands[0];
    let on = switch_on(cmd, start);
    let off = switch_off(cmd, start);
    let none = Seq::<Scheduled>::empty();
    let p = crate::control_logic::published_at(refreshed(c, holding), io.ai.scaled, start);
    assert(p.commands == c.commands && p.scheduled == c.scheduled && p.transient == c.transient);
    assert(without(none, cmd.logic_id) =~= none);
    assert(with_commands(none, c.commands, start, 0) == none);
    let planned = with_commands(none, c.commands, start, 1);
    assert(planned == with_command(none, cmd, start));
    if cmd.pulse_ms > 0 {
        assert(planned =~= seq![on, off]);
    } else {
        assert(planned =~= seq![on]);
    }
    let o = Outputs { bits: io.do_, transient: p.transient, notify };
    lemma_nothing_due(planned, 0, start, o);
    let first = ticked(c, holding, io, notify, start);
    assert(first.outputs.bits == io.do_);
    assert(first.control.scheduled == Some(planned));
    let io2 = IoView { do_: first.outputs.bits, ..io };
    let p2 = crate::control_logic::published_at(refreshed(first.control, holding), io2.ai.scaled, now);
    assert(p2.commands.len() == 0 && p2.scheduled == Some(planned));
    let o2 = Outputs { bits: io2.do_, transient: p2.transient, notify: first.outputs.notify };
    assert(with_commands(planned, p2.commands, now, 0) == planned);
    lemma_acted(o2, on, j);
    lemma_acted(acted(o2, on), off, j);
    lemma_no_points(j);
    if now < start + cmd.delay_ms {
        lemma_nothing_due(planned, 0, now, o2);
    } else {
        let t = taken_out(planned, 0);
        let o3 = acted(o2, on);
        assert(run_due(planned, 0, now, o2) == run_due(t, 0, now, o3));
        if cmd.pulse_ms > 0 {
            assert(t =~= seq![off]);
            if now < start + cmd.delay_ms + cmd.pulse_ms {
                lemma_nothing_due(t, 0, now, o3);
            } else {
                assert(taken_out(t, 0) =~= none);
                assert(run_due(t, 0, now, o3) == run_due(none, 0, now, acted(o3, off)));
                assert(run_due(none, 0, now, acted(o3, off)).1 == acted(o3, off));
            }
        } else {
            assert(t =~= none);
            assert(run_due(t, 0, now, o3).1 == o3);
        }
    }
}

/// Sixty-four actions can wait. Where all places are taken by other records a command
/// is lost, and where one is free its pulse has no end.
pub proof fn law_full_list_drops_actions(s: Seq<Scheduled>, c: Command, now: u64, a: Scheduled)
    requires
        forall|i: int| 0 <= i < s.len() ==> (#[trigger] s[i]).logic_id != c.logic_id,
    ensures
        s.len() == 64 ==> (with_command(s, c, now).contains(a) <==> s.contains(a)),
        s.len() == 63 ==> (with_command(s, c, now).contains(a) <==> s.contains(a) || a == switch_on(c, now)),
{
    lemma_without_others(s, c.logic_id);
    lemma_contains_push(s, switch_on(c, now), a);
    if s.len() == 63 {
        assert(with_command(s, c, now) =~= s.push(switch_on(c, now)));
    }
}

proof fn lemma_without_others(s: Seq<Scheduled>, id: u16)
    requires
        forall|i: int| 0 <= i < s.len() ==> (#[trigger] s[i]).logic_id != id,
    ensures
        without(s, id) == s,
    decreases s.len(),
{
    if s.len() > 0 {
        assert forall|i: int| 0 <= i < s.len() - 1 implies (#[trigger] s.drop_last()[i]).logic_id != id by {
            assert(s[i].logic_id != id);
        }
        lemma_without_others(s.drop_last(), id);
        assert(s[s.len() - 1].logic_id != id);
        assert(s.drop_last().push(s.last()) =~= s);
    }
}

/// Before start-up a run drops the queued commands and switches nothing.
pub proof fn law_nothing_is_switched_before_start(
    c: ControlView,
    holding: Option<Seq<u16>>,
    io: IoView,
    notify: bool,
    now: u64,
)
    requires
        c.scheduled is None,
    ensures
        ticked(c, holding, io, notify, now).control.commands.len() == 0,
        ticked(c, holding, io, notify, now).control.scheduled is None,
        ticked(c, holding, io, notify, now).outputs.bits == io.do_,
        ticked(c, holding, io, notify, now).outputs.notify == notify,
{
}

// ---- Control and feedback words ----

proof fn lemma_single_point(j: int, k: int)
    requires
        0 <= j < 64,
        0 <= k < 64,
    ensures
        bit(1u64 << (k as u64), j) <==> j == k,
{
    let (x, y) = (k as u64, j as u64);
    assert(x < 64 && y < 64 ==> ((((1u64 << x) >> y) & 1 == 1) <==> x == y)) by (bit_vector);
}

proof fn lemma_either(a: u64, b: u64, j: int)
    ensures
        bit(a | b, j) <==> bit(a, j) || bit(b, j),
        bit(a & b, j) <==> bit(a, j) && bit(b, j),
{
    if 0 <= j < 64 {
        let y = j as u64;
        assert(((a | b) >> y) & 1 == 1 <==> ((a >> y) & 1 == 1 || (b >> y) & 1 == 1)) by (bit_vector);
        assert(((a & b) >> y) & 1 == 1 <==> ((a >> y) & 1 == 1 && (b >> y) & 1 == 1)) by (bit_vector);
    }
}

/// The map of a list of points has exactly the points of the list, counted from 1.
pub proof fn law_scope_is_the_points(points: Seq<u8>, n: nat, j: int)
    requires
        n <= points.len(),
        0 <= j < 64,
    ensures
        bit(scope_of_first(points, n), j) <==> exists|k: int| 0 <= k < n && #[trigger] points[k] == j + 1,
        n == points.len() ==> scope_of(points) == scope_of_first(points, n),
    decreases n,
{
    if n > 0 {
        let m = (n - 1) as nat;
        law_scope_is_the_points(points, m, j);
        let p = points[n - 1];
        let before = scope_of_first(points, m);
        if p != 0 && p <= 64 {
            lemma_either(before, 1u64 << ((p - 1) as u64), j);
            lemma_single_point(j, p - 1);
        }
        if p == j + 1 {
            assert(points[n - 1] == j + 1);
        }
        if exists|k: int| 0 <= k < m && #[trigger] points[k] == j + 1 {
            let k = choose|k: int| 0 <= k < m && #[trigger] points[k] == j + 1;
            assert(0 <= k < n && points[k] == j + 1);
        }
    } else {
        lemma_no_points(j);
    }
}

/// A word written to the control register of a controllable record gives a command for
/// the first of its controls with that value: the scope is the record's outputs, of
/// which those of the control go on. Delay and pulse are the record's.
pub proof fn law_control_word_gives_its_command(logic: LogicView, address: u16, value: u16, k: int, j: int)
    requires
        0 <= k < logic.controls.len(),
        logic.controls[k].value == value,
        forall|i: int| 0 <= i < k ==> (#[trigger] logic.controls[i]).value != value,
        0 <= j < 64,
    ensures
        logic.controllable && logic.control_addr == address <==> command_of(logic, address, value) is Some,
        command_of(logic, address, value) matches Some(c) ==> {
            &&& c.logic_id == logic.logic_id
            &&& c.delay_ms == logic.delay_ms
            &&& c.pulse_ms == logic.pulse_ms
            &&& bit(c.q_scope, j) <==> exists|i: int| 0 <= i < logic.q_points.len() && #[trigger] logic.q_points[i] == j + 1
            &&& bit(c.q_mask, j) <==> bit(c.q_scope, j) && bit(logic.controls[k].q_bits, j)
        },
{
    crate::control_logic::lemma_control_index(logic.controls, value, k);
    law_scope_is_the_points(logic.q_points, logic.q_points.len(), j);
    lemma_either(logic.controls[k].q_bits, scope_of(logic.q_points), j);
}

/// A word that is none of a record's control values gives no command.
pub proof fn law_other_words_give_no_command(logic: LogicView, address: u16, value: u16)
    requires
        forall|i: int| 0 <= i < logic.controls.len() ==> (#[trigger] logic.controls[i]).value != value,
    ensures
        command_of(logic, address, value) is None,
{
    crate::control_logic::lemma_control_index(logic.controls, value, logic.controls.len() as int);
}

proof fn lemma_queued(commands: Seq<Command>, entries: Seq<LogicView>, address: u16, value: u16, n: nat)
    requires
        n <= entries.len(),
        commands.len() + n <= 64,
    ensures
        ({
            let q = queued(commands, entries, address, value, n);
            &&& commands.len() <= q.len() <= commands.len() + n
            &&& q.take(commands.len() as int) == commands
            &&& forall|i: int|
                0 <= i < n && #[trigger] command_of(entries[i], address, value) is Some ==> exists|m: int|
                    commands.len() <= m < q.len() && #[trigger] q[m] == command_of(entries[i], address, value)->0
            &&& forall|m: int|
                commands.len() <= m < q.len() ==> exists|i: int|
                    0 <= i < n && #[trigger] command_of(entries[i], address, value) == Some(#[trigger] q[m])
        }),
    decreases n,
{
    let q = queued(commands, entries, address, value, n);
    if n > 0 {
        let m = (n - 1) as nat;
        lemma_queued(commands, entries, address, value, m);
        let before = queued(commands, entries, address, value, m);
        assert(q.take(commands.len() as int) =~= commands);
        assert forall|i: int| 0 <= i < n && #[trigger] command_of(entries[i], address, value) is Some implies exists|
            m: int,
        | commands.len() <= m < q.len() && #[trigger] q[m] == command_of(entries[i], address, value)->0 by {
            if i < n - 1 {
                let w = choose|w: int|
                    commands.len() <= w < before.len() && #[trigger] before[w] == command_of(
                        entries[i],
                        address,
                        value,
                    )->0;
                assert(q[w] == before[w]);
            } else {
                assert(q[q.len() - 1] == command_of(entries[i], address, value)->0);
            }
        }
        assert forall|w: int| commands.len() <= w < q.len() implies exists|i: int|
            0 <= i < n && #[trigger] command_of(entries[i], address, value) == Some(#[trigger] q[w]) by {
            if w < before.len() {
                let i = choose|i: int|
                    0 <= i < m && #[trigger] command_of(entries[i], address, value) == Some(before[w]);
                assert(command_of(entries[i], address, value) == Some(q[w]));
            } else {
                assert(command_of(entries[n - 1], address, value) == Some(q[w]));
            }
        }
    } else {
        assert(q.take(commands.len() as int) =~= commands);
    }
}

/// A written control word queues the commands of all records that have one for it,
/// behind those that wait already, and nothing else.
pub proof fn law_control_word_reaches_every_record(
    c: ControlView,
    holding: Option<Seq<u16>>,
    address: u16,
    value: u16,
)
    requires
        c.table_generation == c.config_generation,
        c.commands.len() + c.table.entries.len() <= 64,
    ensures
        ({
            let q = control_written(c, holding, address, value).commands;
            let entries = c.table.entries;
            &&& control_written(c, holding, address, value) == (ControlView { commands: q, ..c })
            &&& c.commands.len() <= q.len()
            &&& q.take(c.commands.len() as int) == c.commands
            &&& forall|i: int|
                0 <= i < entries.len() && #[trigger] command_of(entries[i], address, value) is Some ==> exists|m: int|
                    c.commands.len() <= m < q.len() && #[trigger] q[m] == command_of(entries[i], address, value)->0
            &&& forall|m: int|
                c.commands.len() <= m < q.len() ==> exists|i: int|
                    0 <= i < entries.len() && #[trigger] command_of(entries[i], address, value) == Some(#[trigger] q[m])
        }),
{
    lemma_queued(c.commands, c.table.entries, address, value, c.table.entries.len());
}

/// Whether point `j` is one of a list, counted from 1.
pub open spec fn listed(points: Seq<u8>, j: int) -> bool {
    exists|k: int| 0 <= k < points.len() && #[trigger] points[k] == j + 1
}

/// Whether the points show a control of a record: its inputs, or its outputs where it
/// names no input, are on, and the other points of the record's list are off.
pub open spec fn shows_control(e: LogicView, k: int, di: u64, do_: u64) -> bool {
    if e.controls[k].i_bits != 0 {
        forall|j: int| #![trigger bit(di, j)] 0 <= j < 64 ==> (bit(e.controls[k].i_bits, j) <==> bit(di, j) && listed(e.i_points, j))
    } else {
        forall|j: int| #![trigger bit(do_, j)] 0 <= j < 64 ==> (bit(e.controls[k].q_bits, j) <==> bit(do_, j) && listed(e.q_points, j))
    }
}

proof fn lemma_same_points_from(a: u64, b: u64, n: u64)
    requires
        n < 64,
        forall|j: int| 0 <= j < 64 ==> bit(a, j) == bit(b, j),
    ensures
        a >> n == b >> n,
    decreases 64 - n,
{
    assert(bit(a, n as int) == bit(b, n as int));
    if n == 63 {
        assert((a >> 63u64) == (a >> 63u64) & 1 && (a >> 63u64) <= 1) by (bit_vector);
        assert((b >> 63u64) == (b >> 63u64) & 1 && (b >> 63u64) <= 1) by (bit_vector);
    } else {
        let m = (n + 1) as u64;
        lemma_same_points_from(a, b, m);
        assert((a >> n) == ((a >> m) << 1u64) | ((a >> n) & 1) && (a >> n) & 1 <= 1) by (bit_vector)
            requires
                n < 63,
                m == n + 1,
        ;
        assert((b >> n) == ((b >> m) << 1u64) | ((b >> n) & 1) && (b >> n) & 1 <= 1) by (bit_vector)
            requires
                n < 63,
                m == n + 1,
        ;
    }
}

/// Maps with the same points are the same.
proof fn lemma_same_points(a: u64, b: u64)
    requires
        forall|j: int| 0 <= j < 64 ==> bit(a, j) == bit(b, j),
    ensures
        a == b,
{
    lemma_same_points_from(a, b, 0);
    assert(a >> 0u64 == a && b >> 0u64 == b) by (bit_vector);
}

proof fn lemma_masked(points: Seq<u8>, map: u64, want: u64)
    ensures
        map & scope_of(points) == want <==> forall|j: int|
            #![trigger bit(map, j)]
            0 <= j < 64 ==> (bit(want, j) <==> bit(map, j) && listed(points, j)),
{
    let got = map & scope_of(points);
    assert forall|j: int| 0 <= j < 64 implies (#[trigger] bit(got, j) <==> bit(map, j) && listed(points, j)) by {
        lemma_either(map, scope_of(points), j);
        law_scope_is_the_points(points, points.len(), j);
    }
    if got == want {
        assert forall|j: int| #![trigger bit(map, j)] 0 <= j < 64 implies (bit(want, j) <==> bit(map, j) && listed(points, j)) by {
            assert(bit(got, j) == bit(want, j));
        }
    }
    if forall|j: int| #![trigger bit(map, j)] 0 <= j < 64 ==> (bit(want, j) <==> bit(map, j) && listed(points, j)) {
        assert forall|j: int| 0 <= j < 64 implies bit(got, j) == bit(want, j) by {
            assert(bit(map, j) == bit(map, j));
        }
        lemma_same_points(got, want);
    }
}

proof fn lemma_confirmed(e: LogicView, k: int, di: u64, do_: u64)
    requires
        0 <= k < e.controls.len(),
    ensures
        confirmed(e.controls[k], scope_of(e.i_points), scope_of(e.q_points), di, do_) <==> shows_control(e, k, di, do_),
{
    lemma_masked(e.i_points, di, e.controls[k].i_bits);
    lemma_masked(e.q_points, do_, e.controls[k].q_bits);
}

proof fn lemma_feedback_of_controls(e: LogicView, k: int, di: u64, do_: u64)
    requires
        0 <= k <= e.controls.len(),
    ensures
        ({
            let f = feedback_of_controls(e.controls, k, scope_of(e.i_points), scope_of(e.q_points), di, do_);
            &&& f is None ==> forall|m: int| k <= m < e.controls.len() ==> !#[trigger] shows_control(e, m, di, do_)
            &&& f is Some ==> exists|m: int|
                k <= m < e.controls.len() && #[trigger] shows_control(e, m, di, do_) && f == Some(e.controls[m].feedback)
                    && forall|q: int| k <= q < m ==> !#[trigger] shows_control(e, q, di, do_)
        }),
    decreases e.controls.len() - k,
{
    if k < e.controls.len() {
        lemma_confirmed(e, k, di, do_);
        lemma_feedback_of_controls(e, k + 1, di, do_);
    }
}

/// Whether control `k` of record `i` is the one reported at a register: the first that
/// the points show among those of the records that report there.
pub open spec fn reported_at(entries: Seq<LogicView>, i: int, k: int, address: u16, di: u64, do_: u64) -> bool {
    &&& 0 <= i < entries.len()
    &&& entries[i].feedback_addr == address
    &&& 0 <= k < entries[i].controls.len()
    &&& shows_control(entries[i], k, di, do_)
    &&& forall|m: int| 0 <= m < k ==> !#[trigger] shows_control(entries[i], m, di, do_)
    &&& forall|h: int, m: int|
        0 <= h < i && entries[h].feedback_addr == address && 0 <= m < entries[h].controls.len()
            ==> !#[trigger] shows_control(entries[h], m, di, do_)
}

proof fn lemma_feedback_of(entries: Seq<LogicView>, n: int, address: u16, di: u64, do_: u64)
    requires
        0 <= n <= entries.len(),
        forall|h: int, m: int|
            0 <= h < n && entries[h].feedback_addr == address && 0 <= m < entries[h].controls.len()
                ==> !#[trigger] shows_control(entries[h], m, di, do_),
    ensures
        ({
            let f = feedback_of(entries, n, address, di, do_);
            &&& f is None ==> forall|h: int, m: int|
                0 <= h < entries.len() && entries[h].feedback_addr == address && 0 <= m < entries[h].controls.len()
                    ==> !#[trigger] shows_control(entries[h], m, di, do_)
            &&& f is Some ==> exists|i: int, k: int|
                #[trigger] reported_at(entries, i, k, address, di, do_) && f == Some(entries[i].controls[k].feedback)
        }),
    decreases entries.len() - n,
{
    if n < entries.len() {
        let e = entries[n];
        lemma_feedback_of_controls(e, 0, di, do_);
        let own = feedback_of_controls(e.controls, 0, scope_of(e.i_points), scope_of(e.q_points), di, do_);
        if e.feedback_addr == address && own is Some {
            let k = choose|m: int|
                0 <= m < e.controls.len() && #[trigger] shows_control(e, m, di, do_) && own == Some(
                    e.controls[m].feedback,
                ) && forall|q: int| 0 <= q < m ==> !#[trigger] shows_control(e, q, di, do_);
            assert(reported_at(entries, n, k, address, di, do_));
        } else {
            lemma_feedback_of(entries, n + 1, address, di, do_);
        }
    }
}

/// A register reports the feedback of the first control that the points show among
/// those of the records that report there, and nothing where they show none.
pub proof fn law_feedback_reports_what_the_points_show(
    c: ControlView,
    holding: Option<Seq<u16>>,
    io: IoView,
    address: u16,
)
    requires
        c.table_generation == c.config_generation,
    ensures
        ({
            let f = feedback_at(c, holding, io, address);
            let entries = c.table.entries;
            &&& f is None ==> forall|h: int, m: int|
                0 <= h < entries.len() && entries[h].feedback_addr == address && 0 <= m < entries[h].controls.len()
                    ==> !#[trigger] shows_control(entries[h], m, io.di, io.do_)
            &&& f is Some ==> exists|i: int, k: int|
                #[trigger] reported_at(entries, i, k, address, io.di, io.do_) && f == Some(
                    entries[i].controls[k].feedback,
                )
        }),
{
    lemma_feedback_of(c.table.entries, 0, address, io.di, io.do_);
}

} // verus!
