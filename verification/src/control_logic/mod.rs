//! Control-word executor: interlocked outputs with delay and pulse, feedback
//! words, and published analogue values.

use crate::bits::{mask_replace, replaced};
use crate::bounded::slice_of;
use crate::bus::io_global::{IoBundle, IoView};
use crate::bus::io_state::channel;
use crate::bus::storage_state::{storage_read, zero_words, StorageState, StorageStateView};
use crate::sync::MpscRing;
use vstd::prelude::*;

pub use table::{
    analog_destination_is_valid, bit_words, parse_table, AnalogChannel, ControlSpec, IoLogic, LogicTable, CONFIG_BASE,
    HOLDING_BASE,
};

pub mod analog;
pub mod laws;
pub mod table;
pub mod table_laws;

use table::{result_index, result_place, table_empty, table_of, LogicView, TableView};

verus! {

/// Most actions that wait at a time.
pub const MAX_SCHEDULED: usize = 64;

/// Capacity of the command queue.
pub const MAX_COMMANDS: usize = 64;

/// Period of publishing analogue values (ms).
pub const ANALOG_PERIOD_MS: u64 = 100;

/// A command that a control word gave.
#[derive(Clone, Copy, Debug, PartialEq, Eq, Structural)]
pub struct Command {
    pub logic_id: u16,
    /// Outputs of the record.
    pub q_scope: u64,
    /// Outputs to switch on; the others of the scope go off.
    pub q_mask: u64,
    pub delay_ms: u32,
    pub pulse_ms: u32,
}

/// An output action that waits.
#[derive(Clone, Copy, Debug, PartialEq, Eq, Structural)]
pub struct Scheduled {
    pub logic_id: u16,
    pub due_ms: u64,
    pub mask: u64,
    pub value: u64,
    /// Whether the outputs are on for a pulse only.
    pub transient: bool,
}

/// State of the executor.
pub struct ControlState {
    pub table: LogicTable,
    /// Raised by every change of the table registers.
    pub config_generation: u32,
    /// Generation that `table` was read from.
    pub table_generation: u32,
    pub commands: MpscRing<Command, 64>,
    /// The waiting actions; `None` before start-up.
    pub scheduled: Option<Vec<Scheduled>>,
    /// Outputs that are on for a pulse only.
    pub transient: u64,
    pub analog_values: [u16; 352],
    pub analog_valid: [bool; 352],
    /// Raised by two with every publication; odd while one is under way.
    pub analog_version: u32,
    pub last_analog_ms: u32,
}

/// The state as plain values.
#[verifier::ext_equal]
pub struct ControlView {
    pub table: TableView,
    pub config_generation: u32,
    pub table_generation: u32,
    pub commands: Seq<Command>,
    pub scheduled: Option<Seq<Scheduled>>,
    pub transient: u64,
    pub values: Seq<u16>,
    pub valid: Seq<bool>,
    pub version: u32,
    pub last_analog_ms: u32,
}

pub open spec fn scheduled_view(s: Option<Vec<Scheduled>>) -> Option<Seq<Scheduled>> {
    match s {
        Some(v) => Some(v@),
        None => None,
    }
}

impl View for ControlState {
    type V = ControlView;

    open spec fn view(&self) -> ControlView {
        ControlView {
            table: self.table@,
            config_generation: self.config_generation,
            table_generation: self.table_generation,
            commands: self.commands@,
            scheduled: scheduled_view(self.scheduled),
            transient: self.transient,
            values: self.analog_values@,
            valid: self.analog_valid@,
            version: self.analog_version,
            last_analog_ms: self.last_analog_ms,
        }
    }
}

/// The state before start-up.
pub open spec fn control_start() -> ControlView {
    ControlView {
        table: table_empty(),
        config_generation: 1,
        table_generation: 0,
        commands: Seq::empty(),
        scheduled: None,
        transient: 0,
        values: zero_words(352),
        valid: Seq::new(352, |i: int| false),
        version: 0,
        last_analog_ms: 0,
    }
}

impl ControlState {
    pub fn new() -> (r: Self)
        ensures
            r@ == control_start(),
    {
        let r = ControlState {
            table: LogicTable::default(),
            config_generation: 1,
            table_generation: 0,
            commands: MpscRing::new(),
            scheduled: None,
            transient: 0,
            analog_values: [0u16; 352],
            analog_valid: [false; 352],
            analog_version: 0,
            last_analog_ms: 0,
        };
        assert(r@ =~= control_start());
        r
    }
}

// ---- Table ----

/// The register buffer of a storage state.
pub open spec fn holding_of(s: StorageStateView) -> Option<Seq<u16>> {
    match s.snapshot {
        Some(v) => Some(v.holding_buf),
        None => None,
    }
}

/// The table that the registers hold; without storage there is none.
pub open spec fn stored_table(holding: Option<Seq<u16>>) -> TableView {
    match holding {
        Some(w) => table_of(w),
        None => table_empty(),
    }
}

/// The words that channels publish to.
pub open spec fn covered(channels: Seq<AnalogChannel>) -> Seq<bool> {
    Seq::new(352, |i: int| exists|k: int| 0 <= k < channels.len() && (#[trigger] channels[k]).covers(i))
}

/// The state with the table read again, if the registers changed since it was
/// read. The published words are then those of the new channels, all zero.
pub open spec fn refreshed(c: ControlView, holding: Option<Seq<u16>>) -> ControlView {
    if c.table_generation == c.config_generation {
        c
    } else {
        let t = stored_table(holding);
        ControlView {
            table: t,
            table_generation: c.config_generation,
            values: zero_words(352),
            valid: covered(t.analog),
            version: c.version.wrapping_add(2),
            ..c
        }
    }
}

/// Marks the channels' words as published, all zero.
fn publish_analog_ranges(control: &mut ControlState, channels: &Vec<AnalogChannel>)
    ensures
        final(control)@ == (ControlView {
            values: zero_words(352),
            valid: covered(channels@),
            version: old(control)@.version.wrapping_add(2),
            ..old(control)@
        }),
{
    control.analog_version = control.analog_version.wrapping_add(1);
    control.analog_values = [0u16; 352];
    let mut valid: [bool; 352] = [false; 352];
    let mut k: usize = 0;
    while k < channels.len()
        invariant
            k <= channels@.len(),
            forall|i: int|
                0 <= i < 352 ==> (#[trigger] valid@[i] <==> exists|j: int|
                    0 <= j < k && (#[trigger] channels@[j]).covers(i)),
        decreases channels@.len() - k,
    {
        let c: AnalogChannel = channels[k];
        let ghost before = valid@;
        if analog_destination_is_valid(c) {
            match result_index(c.destination) {
                Some(start) => {
                    valid[start] = true;
                    if c.has_engineering_range() {
                        valid[start + 1] = true;
                    }
                },
                None => {},
            }
        }
        assert forall|i: int| 0 <= i < 352 implies (#[trigger] valid@[i] <==> before[i] || c.covers(i)) by {}
        assert forall|i: int| 0 <= i < 352 implies (#[trigger] valid@[i] <==> exists|j: int|
            0 <= j < k + 1 && (#[trigger] channels@[j]).covers(i)) by {
            if c.covers(i) {
                assert(channels@[k as int].covers(i));
            }
            if before[i] {
                let j = choose|j: int| 0 <= j < k && (#[trigger] channels@[j]).covers(i);
                assert(channels@[j].covers(i));
            }
        }
        k += 1;
    }
    control.analog_valid = valid;
    control.analog_version = control.analog_version.wrapping_add(1);
    assert(control@.values =~= zero_words(352));
    assert(control@.valid =~= covered(channels@));
    assert(control@ =~= (ControlView {
        values: zero_words(352),
        valid: covered(channels@),
        version: old(control)@.version.wrapping_add(2),
        ..old(control)@
    }));
}

/// Reads the table again if the registers changed.
pub fn refresh_table(control: &mut ControlState, storage: &StorageState)
    ensures
        final(control)@ == refreshed(old(control)@, holding_of(storage@)),
{
    let generation: u32 = control.config_generation;
    if control.table_generation == generation {
        return;
    }
    let table: LogicTable = match storage_read(storage) {
        Some(s) => parse_table(s.holding_buf.as_slice()),
        None => LogicTable::default(),
    };
    assert(table@ == stored_table(holding_of(storage@)));
    publish_analog_ranges(control, &table.analog_channels);
    control.table = table;
    control.table_generation = generation;
    assert(control@ =~= refreshed(old(control)@, holding_of(storage@)));
}

/// Starts the executor.
pub fn init(control: &mut ControlState, storage: &StorageState)
    ensures
        final(control)@ == refreshed(
            ControlView { scheduled: Some(Seq::<Scheduled>::empty()), ..old(control)@ },
            holding_of(storage@),
        ),
{
    control.scheduled = Some(Vec::new());
    assert(scheduled_view(control.scheduled) == Some(Seq::<Scheduled>::empty()));
    refresh_table(control, storage);
}

/// Notes that the table registers changed.
pub fn mark_config_changed(control: &mut ControlState)
    ensures
        final(control)@ == (ControlView {
            config_generation: old(control)@.config_generation.wrapping_add(1),
            ..old(control)@
        }),
{
    control.config_generation = control.config_generation.wrapping_add(1);
}

/// Outputs that are on for a pulse only.
pub fn transient_mask(control: &ControlState) -> (r: u64)
    ensures
        r == control@.transient,
{
    control.transient
}

// ---- Published analogue values ----

/// The published word at a register, if a channel publishes there.
pub open spec fn result_word(c: ControlView, address: u16) -> Option<u16> {
    match result_place(address) {
        Some(i) => if c.valid[i] {
            Some(c.values[i])
        } else {
            None
        },
        None => None,
    }
}

/// The published word at a register.
pub fn analog_result_word(control: &ControlState, address: u16) -> (r: Option<u16>)
    ensures
        r == result_word(control@, address),
{
    match result_index(address) {
        Some(i) => if control.analog_valid[i] {
            Some(control.analog_values[i])
        } else {
            None
        },
        None => None,
    }
}

/// Version of the published words.
pub fn analog_result_version(control: &ControlState) -> (r: u32)
    ensures
        r == control@.version,
{
    control.analog_version
}

/// The published words after one channel published the value of its input.
pub open spec fn with_result(values: Seq<u16>, c: AnalogChannel, ai: Seq<u16>) -> Seq<u16> {
    if c.destined() && c.reference != 0 {
        let words = c.published(channel(ai, c.source as int));
        let at = result_place(c.destination)->0;
        if words.len() == 2 {
            values.update(at, words[0]).update(at + 1, words[1])
        } else {
            values.update(at, words[0])
        }
    } else {
        values
    }
}

/// The published words after the first `n` channels published.
pub open spec fn with_results(values: Seq<u16>, channels: Seq<AnalogChannel>, ai: Seq<u16>, n: nat) -> Seq<u16>
    decreases n,
{
    if n == 0 {
        values
    } else {
        with_result(with_results(values, channels, ai, (n - 1) as nat), channels[n - 1], ai)
    }
}

/// The state after all channels published.
pub open spec fn analog_updated(c: ControlView, ai: Seq<u16>) -> ControlView {
    if c.table.analog.len() == 0 {
        c
    } else {
        ControlView {
            values: with_results(c.values, c.table.analog, ai, c.table.analog.len()),
            version: c.version.wrapping_add(2),
            ..c
        }
    }
}

/// Publishes the value of every channel.
fn update_analog_results(control: &mut ControlState, io: &IoBundle)
    ensures
        final(control)@ == analog_updated(old(control)@, io@.ai.scaled),
{
    let n: usize = control.table.analog_channels.len();
    if n == 0 {
        return;
    }
    control.analog_version = control.analog_version.wrapping_add(1);
    let mut values: [u16; 352] = control.analog_values;
    let mut k: usize = 0;
    while k < n
        invariant
            k <= n,
            n == control.table.analog_channels@.len(),
            values@ == with_results(
                old(control)@.values,
                control.table.analog_channels@,
                io@.ai.scaled,
                k as nat,
            ),
        decreases n - k,
    {
        let c: AnalogChannel = control.table.analog_channels[k];
        if analog_destination_is_valid(c) && c.reference != 0 {
            let raw: u16 = io.ai.get_scaled(c.source as usize);
            let (words, count): ([u16; 2], usize) = c.encode(raw);
            match result_index(c.destination) {
                Some(start) => {
                    assert(words@.take(count as int)[0] == words@[0]);
                    values[start] = words[0];
                    if count == 2 {
                        assert(words@.take(count as int)[1] == words@[1]);
                        values[start + 1] = words[1];
                    }
                },
                None => {},
            }
        }
        k += 1;
    }
    control.analog_values = values;
    control.analog_version = control.analog_version.wrapping_add(1);
    assert(control@ =~= analog_updated(old(control)@, io@.ai.scaled));
}

// ---- Commands and feedback ----

/// The map of the first `n` points of a list.
pub open spec fn scope_of_first(points: Seq<u8>, n: nat) -> u64
    decreases n,
{
    if n == 0 {
        0
    } else {
        let before = scope_of_first(points, (n - 1) as nat);
        let p = points[n - 1];
        if p == 0 || p > 64 {
            before
        } else {
            before | (1u64 << ((p - 1) as u64))
        }
    }
}

/// The map of a list of point numbers, counted from 1.
pub open spec fn scope_of(points: Seq<u8>) -> u64 {
    scope_of_first(points, points.len())
}

/// The map of a list of point numbers.
pub fn point_scope(points: &[u8]) -> (r: u64)
    ensures
        r == scope_of(points@),
{
    let mut mask: u64 = 0;
    let mut i: usize = 0;
    while i < points.len()
        invariant
            i <= points@.len(),
            mask == scope_of_first(points@, i as nat),
        decreases points@.len() - i,
    {
        let p: u8 = points[i];
        if p != 0 && p <= 64 {
            mask = mask | (1u64 << ((p - 1) as u64));
        }
        i += 1;
    }
    mask
}

/// Place of the first control with the given value, or the length.
pub open spec fn control_index(controls: Seq<ControlSpec>, value: u16) -> int
    decreases controls.len(),
{
    if controls.len() == 0 || controls[0].value == value {
        0
    } else {
        1 + control_index(controls.drop_first(), value)
    }
}

pub(crate) proof fn lemma_control_index(controls: Seq<ControlSpec>, value: u16, n: int)
    requires
        0 <= n <= controls.len(),
        forall|i: int| 0 <= i < n ==> (#[trigger] controls[i]).value != value,
        n == controls.len() || controls[n].value == value,
    ensures
        control_index(controls, value) == n,
    decreases n,
{
    if n > 0 {
        assert(controls[0].value != value);
        assert forall|i: int| 0 <= i < n - 1 implies (#[trigger] controls.drop_first()[i]).value != value by {
            assert(controls[i + 1].value != value);
        }
        lemma_control_index(controls.drop_first(), value, n - 1);
    }
}

/// The command that a record gives for a written control word.
pub open spec fn command_of(logic: LogicView, address: u16, value: u16) -> Option<Command> {
    let k = control_index(logic.controls, value);
    if !logic.controllable || logic.control_addr != address || k >= logic.controls.len() {
        None
    } else {
        Some(
            Command {
                logic_id: logic.logic_id,
                q_scope: scope_of(logic.q_points),
                q_mask: logic.controls[k].q_bits & scope_of(logic.q_points),
                delay_ms: logic.delay_ms,
                pulse_ms: logic.pulse_ms,
            },
        )
    }
}

/// The command that a record gives for a written control word.
pub fn command_for_logic(logic: &IoLogic, address: u16, value: u16) -> (r: Option<Command>)
    ensures
        r == command_of(logic@, address, value),
{
    let mut k: usize = 0;
    while k < logic.controls.len() && logic.controls[k].value != value
        invariant
            k <= logic.controls@.len(),
            forall|i: int| 0 <= i < k ==> (#[trigger] logic.controls@[i]).value != value,
        decreases logic.controls@.len() - k,
    {
        k += 1;
    }
    proof {
        lemma_control_index(logic.controls@, value, k as int);
    }
    if !logic.controllable || logic.control_addr != address || k >= logic.controls.len() {
        return None;
    }
    let scope: u64 = point_scope(slice_of(&logic.q_points));
    Some(
        Command {
            logic_id: logic.logic_id,
            q_scope: scope,
            q_mask: logic.controls[k].q_bits & scope,
            delay_ms: logic.delay_ms,
            pulse_ms: logic.pulse_ms,
        },
    )
}

/// The command queue after the first `n` records saw a written control word. A
/// full queue drops commands.
pub open spec fn queued(
    commands: Seq<Command>,
    entries: Seq<LogicView>,
    address: u16,
    value: u16,
    n: nat,
) -> Seq<Command>
    decreases n,
{
    if n == 0 {
        commands
    } else {
        let before = queued(commands, entries, address, value, (n - 1) as nat);
        match command_of(entries[n - 1], address, value) {
            Some(c) => if before.len() < MAX_COMMANDS {
                before.push(c)
            } else {
                before
            },
            None => before,
        }
    }
}

/// The state after a control word was written.
pub open spec fn control_written(
    c: ControlView,
    holding: Option<Seq<u16>>,
    address: u16,
    value: u16,
) -> ControlView {
    let t = refreshed(c, holding);
    ControlView { commands: queued(t.commands, t.table.entries, address, value, t.table.entries.len()), ..t }
}

/// Queues the commands that a written control word gives.
pub fn on_control_word_written(control: &mut ControlState, storage: &StorageState, address: u16, value: u16)
    ensures
        final(control)@ == control_written(old(control)@, holding_of(storage@), address, value),
{
    refresh_table(control, storage);
    let ghost t = control@;
    let n: usize = control.table.entries.len();
    let mut k: usize = 0;
    while k < n
        invariant
            k <= n,
            n == control.table.entries@.len(),
            t == refreshed(old(control)@, holding_of(storage@)),
            control@ == (ControlView {
                commands: queued(t.commands, t.table.entries, address, value, k as nat),
                ..t
            }),
        decreases n - k,
    {
        assert(control.table.entries@[k as int]@ == t.table.entries[k as int]);
        match command_for_logic(&control.table.entries[k], address, value) {
            Some(command) => {
                let _ = control.commands.try_enqueue(command);
            },
            None => {},
        }
        k += 1;
        assert(control@ =~= (ControlView {
            commands: queued(t.commands, t.table.entries, address, value, k as nat),
            ..t
        }));
    }
}

/// Whether the points confirm a control.
pub open spec fn confirmed(control: ControlSpec, i_scope: u64, q_scope: u64, di: u64, do_: u64) -> bool {
    if control.i_bits != 0 {
        di & i_scope == control.i_bits
    } else {
        do_ & q_scope == control.q_bits
    }
}

/// Feedback of the first confirmed control from `k` on.
pub open spec fn feedback_of_controls(
    controls: Seq<ControlSpec>,
    k: int,
    i_scope: u64,
    q_scope: u64,
    di: u64,
    do_: u64,
) -> Option<u16>
    decreases controls.len() - k,
{
    if k >= controls.len() {
        None
    } else if confirmed(controls[k], i_scope, q_scope, di, do_) {
        Some(controls[k].feedback)
    } else {
        feedback_of_controls(controls, k + 1, i_scope, q_scope, di, do_)
    }
}

/// Feedback at a register: that of the first confirmed control of the first
/// record from `k` on that reports there and has one.
pub open spec fn feedback_of(entries: Seq<LogicView>, k: int, address: u16, di: u64, do_: u64) -> Option<u16>
    decreases entries.len() - k,
{
    if k >= entries.len() {
        None
    } else {
        let e = entries[k];
        let own = feedback_of_controls(e.controls, 0, scope_of(e.i_points), scope_of(e.q_points), di, do_);
        if e.feedback_addr == address && own is Some {
            own
        } else {
            feedback_of(entries, k + 1, address, di, do_)
        }
    }
}

fn feedback_from_controls(
    controls: &Vec<ControlSpec>,
    i_scope: u64,
    q_scope: u64,
    di_bits: u64,
    do_bits: u64,
) -> (r: Option<u16>)
    ensures
        r == feedback_of_controls(controls@, 0, i_scope, q_scope, di_bits, do_bits),
{
    let mut k: usize = 0;
    while k < controls.len()
        invariant
            k <= controls@.len(),
            feedback_of_controls(controls@, 0, i_scope, q_scope, di_bits, do_bits) == feedback_of_controls(
                controls@,
                k as int,
                i_scope,
                q_scope,
                di_bits,
                do_bits,
            ),
        decreases controls@.len() - k,
    {
        let c: ControlSpec = controls[k];
        let matched: bool = if c.i_bits != 0 {
            di_bits & i_scope == c.i_bits
        } else {
            do_bits & q_scope == c.q_bits
        };
        if matched {
            return Some(c.feedback);
        }
        k += 1;
    }
    None
}

/// Feedback at a register.
pub fn feedback_from_table(table: &LogicTable, address: u16, di_bits: u64, do_bits: u64) -> (r: Option<u16>)
    ensures
        r == feedback_of(table@.entries, 0, address, di_bits, do_bits),
{
    let n: usize = table.entries.len();
    let mut k: usize = 0;
    while k < n
        invariant
            k <= n,
            n == table.entries@.len(),
            feedback_of(table@.entries, 0, address, di_bits, do_bits) == feedback_of(
                table@.entries,
                k as int,
                address,
                di_bits,
                do_bits,
            ),
        decreases n - k,
    {
        let e = &table.entries[k];
        assert(table@.entries[k as int] == e@);
        if e.feedback_addr == address {
            let i_scope: u64 = point_scope(slice_of(&e.i_points));
            let q_scope: u64 = point_scope(slice_of(&e.q_points));
            let own: Option<u16> = feedback_from_controls(&e.controls, i_scope, q_scope, di_bits, do_bits);
            if own.is_some() {
                return own;
            }
        }
        k += 1;
    }
    None
}

/// Feedback at a register, from the current table.
pub open spec fn feedback_at(c: ControlView, holding: Option<Seq<u16>>, io: IoView, address: u16) -> Option<u16> {
    feedback_of(refreshed(c, holding).table.entries, 0, address, io.di, io.do_)
}

/// Feedback at a register. Reads the table again if the registers changed.
pub fn feedback_word(control: &mut ControlState, storage: &StorageState, io: &IoBundle, address: u16) -> (r:
    Option<u16>)
    ensures
        r == feedback_at(old(control)@, holding_of(storage@), io@, address),
        final(control)@ == refreshed(old(control)@, holding_of(storage@)),
{
    refresh_table(control, storage);
    feedback_from_table(&control.table, address, io.di.load_bits(), io.do_.load_bits())
}

// ---- Scheduling ----

/// The outputs, those of them that are on for a pulse only, and whether they wait
/// to be driven.
pub struct Outputs {
    pub bits: u64,
    pub transient: u64,
    pub notify: bool,
}

/// The outputs after an action.
pub open spec fn acted(o: Outputs, a: Scheduled) -> Outputs {
    Outputs {
        bits: replaced(o.bits, a.mask, a.value),
        transient: replaced(
            o.transient,
            a.mask,
            if a.transient {
                a.mask
            } else {
                0
            },
        ),
        notify: true,
    }
}

/// The waiting actions without those of a record.
pub open spec fn without(s: Seq<Scheduled>, id: u16) -> Seq<Scheduled>
    decreases s.len(),
{
    if s.len() == 0 {
        s
    } else if s.last().logic_id == id {
        without(s.drop_last(), id)
    } else {
        without(s.drop_last(), id).push(s.last())
    }
}

/// A time, held at the end of time.
pub open spec fn later(t: u64, by: u32) -> u64 {
    if t + by > u64::MAX {
        u64::MAX
    } else {
        (t + by) as u64
    }
}

/// The waiting actions after a command: it replaces those of its record. A pulse
/// is followed by switching the outputs off. What does not fit is dropped.
pub open spec fn with_command(s: Seq<Scheduled>, c: Command, now: u64) -> Seq<Scheduled> {
    let due = later(now, c.delay_ms);
    let rest = without(s, c.logic_id);
    let on = Scheduled {
        logic_id: c.logic_id,
        due_ms: due,
        mask: c.q_scope,
        value: c.q_mask,
        transient: c.pulse_ms > 0,
    };
    let off = Scheduled {
        logic_id: c.logic_id,
        due_ms: later(due, c.pulse_ms),
        mask: c.q_scope,
        value: 0,
        transient: false,
    };
    let first = if rest.len() < MAX_SCHEDULED {
        rest.push(on)
    } else {
        rest
    };
    if c.pulse_ms > 0 && first.len() < MAX_SCHEDULED {
        first.push(off)
    } else {
        first
    }
}

/// The waiting actions after the first `n` commands.
pub open spec fn with_commands(s: Seq<Scheduled>, commands: Seq<Command>, now: u64, n: nat) -> Seq<Scheduled>
    decreases n,
{
    if n == 0 {
        s
    } else {
        with_command(with_commands(s, commands, now, (n - 1) as nat), commands[n - 1], now)
    }
}

/// The actions with `i` taken out and the last one in its place.
pub open spec fn taken_out(s: Seq<Scheduled>, i: int) -> Seq<Scheduled> {
    s.update(i, s.last()).drop_last()
}

/// The actions that still wait, and the outputs, after the due actions from `i`
/// on were carried out.
pub open spec fn run_due(s: Seq<Scheduled>, i: int, now: u64, o: Outputs) -> (Seq<Scheduled>, Outputs)
    decreases s.len() - i,
{
    if i < 0 || i >= s.len() {
        (s, o)
    } else if s[i].due_ms <= now {
        run_due(taken_out(s, i), i, now, acted(o, s[i]))
    } else {
        run_due(s, i + 1, now, o)
    }
}

fn retain_others(s: &Vec<Scheduled>, id: u16) -> (r: Vec<Scheduled>)
    ensures
        r@ == without(s@, id),
{
    let mut out: Vec<Scheduled> = Vec::new();
    let mut i: usize = 0;
    assert(s@.take(0) =~= Seq::<Scheduled>::empty());
    while i < s.len()
        invariant
            i <= s@.len(),
            out@ == without(s@.take(i as int), id),
        decreases s@.len() - i,
    {
        proof {
            assert(s@.take(i + 1).drop_last() =~= s@.take(i as int));
            assert(s@.take(i + 1).last() == s@[i as int]);
        }
        if s[i].logic_id != id {
            out.push(s[i]);
        }
        i += 1;
    }
    assert(s@.take(s@.len() as int) =~= s@);
    out
}

fn time_after(t: u64, by: u32) -> (r: u64)
    ensures
        r == later(t, by),
{
    t.saturating_add(by as u64)
}

fn schedule(s: &Vec<Scheduled>, c: Command, now: u64) -> (r: Vec<Scheduled>)
    ensures
        r@ == with_command(s@, c, now),
{
    let due: u64 = time_after(now, c.delay_ms);
    let mut out = retain_others(s, c.logic_id);
    if out.len() < MAX_SCHEDULED {
        out.push(
            Scheduled {
                logic_id: c.logic_id,
                due_ms: due,
                mask: c.q_scope,
                value: c.q_mask,
                transient: c.pulse_ms > 0,
            },
        );
    }
    if c.pulse_ms > 0 && out.len() < MAX_SCHEDULED {
        out.push(
            Scheduled {
                logic_id: c.logic_id,
                due_ms: time_after(due, c.pulse_ms),
                mask: c.q_scope,
                value: 0,
                transient: false,
            },
        );
    }
    out
}

/// Result of one run of the executor: its state and the outputs.
pub struct Ticked {
    pub control: ControlView,
    pub outputs: Outputs,
}

/// The state after the periodic publication, if it is time for one.
pub open spec fn published_at(c: ControlView, ai: Seq<u16>, now: u64) -> ControlView {
    if now - c.last_analog_ms >= ANALOG_PERIOD_MS {
        ControlView { last_analog_ms: (now % 0x1_0000_0000) as u32, ..analog_updated(c, ai) }
    } else {
        c
    }
}

/// One run of the executor at a given time.
pub open spec fn ticked(c: ControlView, holding: Option<Seq<u16>>, io: IoView, notify: bool, now: u64) -> Ticked {
    let p = published_at(refreshed(c, holding), io.ai.scaled, now);
    let o = Outputs { bits: io.do_, transient: p.transient, notify };
    let q = ControlView { commands: Seq::empty(), ..p };
    match p.scheduled {
        None => Ticked { control: q, outputs: o },
        Some(s) => {
            let (rest, out) = run_due(with_commands(s, p.commands, now, p.commands.len()), 0, now, o);
            Ticked { control: ControlView { scheduled: Some(rest), transient: out.transient, ..q }, outputs: out }
        },
    }
}

fn apply_output(io: &mut IoBundle, transient: &mut u64, notify: &mut bool, a: Scheduled)
    ensures
        final(io)@ == (IoView { do_: replaced(old(io)@.do_, a.mask, a.value), ..old(io)@ }),
        *final(transient) == replaced(
            *old(transient),
            a.mask,
            if a.transient {
                a.mask
            } else {
                0
            },
        ),
        *final(notify),
{
    io.do_.mask_replace(a.mask, a.value);
    *notify = true;
    if a.transient {
        *transient = mask_replace(*transient, a.mask, a.mask);
    } else {
        *transient = mask_replace(*transient, a.mask, 0);
    }
}

fn drain_commands(control: &mut ControlState, now: u64) -> (r: Option<Vec<Scheduled>>)
    ensures
        scheduled_view(r) == (match old(control)@.scheduled {
            Some(s) => Some(with_commands(s, old(control)@.commands, now, old(control)@.commands.len())),
            None => None,
        }),
        final(control)@ == (ControlView { commands: Seq::empty(), scheduled: None, ..old(control)@ }),
{
    let mut waiting: Option<Vec<Scheduled>> = None;
    let ghost all = control@.commands;
    let ghost first = control@.scheduled;
    match control.scheduled.take() {
        Some(v) => {
            waiting = Some(v);
        },
        None => {},
    }
    let ghost rest_state = ControlView { scheduled: None, ..old(control)@ };
    let ghost mut done: nat = 0;
    assert(all.skip(0) =~= all);
    assert(control@ =~= ControlView { commands: all.skip(0), ..rest_state });
    loop
        invariant
            done <= all.len(),
            first == old(control)@.scheduled,
            all == old(control)@.commands,
            rest_state == (ControlView { scheduled: None, ..old(control)@ }),
            control@ == (ControlView { commands: all.skip(done as int), ..rest_state }),
            scheduled_view(waiting) == (match first {
                Some(s) => Some(with_commands(s, all, now, done)),
                None => None,
            }),
        ensures
            done == all.len(),
        decreases all.len() - done,
    {
        match control.commands.dequeue() {
            None => {
                break;
            },
            Some(command) => {
                waiting = match waiting {
                    Some(v) => Some(schedule(&v, command, now)),
                    None => None,
                };
                proof {
                    assert(all.skip(done as int).drop_first() =~= all.skip(done as int + 1));
                    done = done + 1;
                    assert(control@ =~= ControlView { commands: all.skip(done as int), ..rest_state });
                }
            },
        }
    }
    assert(all.skip(all.len() as int) =~= Seq::<Command>::empty());
    waiting
}

/// Runs the executor: reads a changed table, publishes analogue values every
/// 100 ms, schedules the queued commands and carries out the due actions.
pub fn tick(control: &mut ControlState, storage: &StorageState, io: &mut IoBundle, notify: &mut bool, now: u64)
    ensures
        ({
            let t = ticked(old(control)@, holding_of(storage@), old(io)@, *old(notify), now);
            &&& final(control)@ == t.control
            &&& final(io)@ == (IoView { do_: t.outputs.bits, ..old(io)@ })
            &&& *final(notify) == t.outputs.notify
        }),
{
    refresh_table(control, storage);
    let last: u64 = control.last_analog_ms as u64;
    if now >= last && now - last >= ANALOG_PERIOD_MS {
        update_analog_results(control, io);
        control.last_analog_ms = (now % 0x1_0000_0000) as u32;
    }
    let ghost p = control@;
    assert(p =~= published_at(refreshed(old(control)@, holding_of(storage@)), io@.ai.scaled, now));
    let waiting = drain_commands(control, now);
    match waiting {
        None => {
            assert(control@ =~= ControlView { commands: Seq::empty(), ..p });
        },
        Some(mut list) => {
            let ghost start = list@;
            let ghost o = Outputs { bits: old(io)@.do_, transient: p.transient, notify: *old(notify) };
            let mut transient: u64 = control.transient;
            let mut i: usize = 0;
            while i < list.len()
                invariant
                    i <= list@.len(),
                    io@ == (IoView { do_: io@.do_, ..old(io)@ }),
                    run_due(start, 0, now, o) == run_due(
                        list@,
                        i as int,
                        now,
                        Outputs { bits: io@.do_, transient, notify: *notify },
                    ),
                decreases list@.len() - i,
            {
                if list[i].due_ms <= now {
                    let ghost before = list@;
                    let action: Scheduled = list.swap_remove(i);
                    assert(list@ =~= taken_out(before, i as int));
                    apply_output(io, &mut transient, notify, action);
                } else {
                    i += 1;
                }
            }
            control.scheduled = Some(list);
            control.transient = transient;
            assert(control@ =~= ticked(old(control)@, holding_of(storage@), old(io)@, *old(notify), now).control);
        },
    }
}

} // verus!
