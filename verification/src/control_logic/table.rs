//! The control-logic table in the registers from 2300 on.
//!
//! The first word is the number of records, followed by the offset of each
//! record and of the end of the last one, all counted from register 2300. A
//! record is an IO record, a list of analogue channels, or a serial-port record
//! that ends in such a list. Nothing is read past the end of a record.

use crate::bounded::{new_points, try_push, Items};
use crate::bytes::{hi, high, lo, low};
use crate::config::regs;
use vstd::prelude::*;
use vstd::slice::slice_subrange;

verus! {

/// First register of the table.
pub const CONFIG_BASE: u16 = 2300;

/// First register of the buffer that holds the table.
pub const HOLDING_BASE: u16 = regs::HOLD_PXX_BASE;

/// Place of the table in the buffer.
pub const TABLE_INDEX: usize = 124;

/// Most records that are read.
pub const MAX_LOGICS: usize = 32;

/// Most analogue channels that are kept.
pub const MAX_ANALOG_CHANNELS: usize = 64;

/// Monitor words that a channel can publish to.
pub const MONITOR_RESULT_COUNT: usize = 128;

/// User words that a channel can publish to.
pub const USER_RESULT_COUNT: usize = 224;

/// All words that a channel can publish to.
pub const ANALOG_RESULT_COUNT: usize = 352;

/// One control value of an IO record.
#[derive(Clone, Copy, Debug, PartialEq, Eq, Structural)]
pub struct ControlSpec {
    /// Control word that selects it.
    pub value: u16,
    /// Feedback word that it is reported as.
    pub feedback: u16,
    /// Outputs that it switches on.
    pub q_bits: u64,
    /// Inputs that confirm it; 0 means that the outputs confirm it.
    pub i_bits: u64,
}

/// An IO record.
#[derive(Debug)]
pub struct IoLogic {
    pub logic_id: u16,
    pub controllable: bool,
    pub control_addr: u16,
    pub feedback_addr: u16,
    pub q_points: heapless::Vec<u8, 64>,
    pub i_points: heapless::Vec<u8, 64>,
    pub delay_ms: u32,
    pub pulse_ms: u32,
    pub controls: Vec<ControlSpec>,
}

/// An analogue channel and where its value is published.
#[derive(Clone, Copy, Debug, PartialEq, Eq, Structural)]
pub struct AnalogChannel {
    pub source: u8,
    pub destination: u16,
    pub minimum: u16,
    pub maximum: u16,
    pub unit_minimum: u16,
    pub unit_maximum: u16,
    /// Full scale of the input: 10 V or 20 mA.
    pub reference: u16,
}

/// The table.
#[derive(Debug)]
pub struct LogicTable {
    pub entries: Vec<IoLogic>,
    pub analog_channels: Vec<AnalogChannel>,
}

/// An IO record as plain values.
#[verifier::ext_equal]
pub struct LogicView {
    pub logic_id: u16,
    pub controllable: bool,
    pub control_addr: u16,
    pub feedback_addr: u16,
    pub q_points: Seq<u8>,
    pub i_points: Seq<u8>,
    pub delay_ms: u32,
    pub pulse_ms: u32,
    pub controls: Seq<ControlSpec>,
}

/// The table as plain values.
#[verifier::ext_equal]
pub struct TableView {
    pub entries: Seq<LogicView>,
    pub analog: Seq<AnalogChannel>,
}

impl View for IoLogic {
    type V = LogicView;

    open spec fn view(&self) -> LogicView {
        LogicView {
            logic_id: self.logic_id,
            controllable: self.controllable,
            control_addr: self.control_addr,
            feedback_addr: self.feedback_addr,
            q_points: self.q_points.items(),
            i_points: self.i_points.items(),
            delay_ms: self.delay_ms,
            pulse_ms: self.pulse_ms,
            controls: self.controls@,
        }
    }
}

/// The records as plain values.
pub open spec fn logic_views(entries: Seq<IoLogic>) -> Seq<LogicView> {
    Seq::new(entries.len(), |i: int| entries[i]@)
}

impl View for LogicTable {
    type V = TableView;

    open spec fn view(&self) -> TableView {
        TableView { entries: logic_views(self.entries@), analog: self.analog_channels@ }
    }
}

pub open spec fn table_empty() -> TableView {
    TableView { entries: Seq::empty(), analog: Seq::empty() }
}

impl Default for LogicTable {
    fn default() -> (r: Self)
        ensures
            r@ == table_empty(),
    {
        let r = LogicTable { entries: Vec::new(), analog_channels: Vec::new() };
        assert(r@ =~= table_empty());
        r
    }
}

// ---- Words ----

/// The word at `i`, if there is one.
pub open spec fn word_at(w: Seq<u16>, i: int) -> Option<u16> {
    if 0 <= i < w.len() {
        Some(w[i])
    } else {
        None
    }
}

/// The word at `i`, or a default.
pub open spec fn word_or(w: Seq<u16>, i: int, d: u16) -> u16 {
    if 0 <= i < w.len() {
        w[i]
    } else {
        d
    }
}

/// Words that hold `bytes` bytes.
pub open spec fn width(bytes: u8) -> int {
    (bytes + 1) / 2
}

fn get(w: &[u16], i: usize) -> (r: Option<u16>)
    ensures
        r == word_at(w@, i as int),
{
    if i < w.len() {
        Some(w[i])
    } else {
        None
    }
}

fn get_or(w: &[u16], i: usize, d: u16) -> (r: u16)
    ensures
        r == word_or(w@, i as int, d),
{
    if i < w.len() {
        w[i]
    } else {
        d
    }
}

fn width_of(bytes: u8) -> (r: usize)
    ensures
        r == width(bytes),
        r <= 128,
{
    (bytes as usize + 1) / 2
}

/// A product of a count and a width, both small.
proof fn lemma_product(i: int, n: int, w: int)
    requires
        0 <= i <= n <= 255,
        0 <= w <= 128,
    ensures
        0 <= i * w <= n * w <= 32640,
        (i + 1) * w == i * w + w,
{
    assert(0 <= i * w && i * w <= n * w && n * w <= 32640 && (i + 1) * w == i * w + w) by (nonlinear_arith)
        requires
            0 <= i <= n <= 255,
            0 <= w <= 128,
    ;
}

// ---- Analogue channels ----

/// Place of a register among the words that a channel can publish to.
pub open spec fn result_place(address: u16) -> Option<int> {
    if address < 128 {
        Some(address as int)
    } else if regs::HOLD_USER_BASE <= address < regs::HOLD_USER_BASE + 224 {
        Some(128 + (address - regs::HOLD_USER_BASE))
    } else {
        None
    }
}

pub fn result_index(address: u16) -> (r: Option<usize>)
    ensures
        r is Some <==> result_place(address) is Some,
        r is Some ==> r->0 == result_place(address)->0 && r->0 < 352,
{
    if (address as usize) < MONITOR_RESULT_COUNT {
        return Some(address as usize);
    }
    if address < regs::HOLD_USER_BASE {
        return None;
    }
    let index: usize = (address - regs::HOLD_USER_BASE) as usize;
    if index < USER_RESULT_COUNT {
        Some(MONITOR_RESULT_COUNT + index)
    } else {
        None
    }
}

impl AnalogChannel {
    /// Whether values are converted to engineering units.
    pub open spec fn ranged(self) -> bool {
        self.maximum > self.minimum && self.unit_maximum > self.unit_minimum
    }

    /// Words that the channel publishes.
    pub open spec fn span(self) -> int {
        if self.ranged() {
            2
        } else {
            1
        }
    }

    /// Whether the words that it publishes lie in one area.
    pub open spec fn destined(self) -> bool {
        &&& result_place(self.destination) is Some
        &&& self.destination + self.span() - 1 <= 0xFFFF
        &&& result_place((self.destination + self.span() - 1) as u16) == Some(
            result_place(self.destination)->0 + self.span() - 1,
        )
    }

    /// Whether the channel publishes to place `i`.
    pub open spec fn covers(self, i: int) -> bool {
        self.destined() && result_place(self.destination)->0 <= i < result_place(self.destination)->0
            + self.span()
    }

    pub fn has_engineering_range(self) -> (r: bool)
        ensures
            r == self.ranged(),
    {
        self.maximum > self.minimum && self.unit_maximum > self.unit_minimum
    }
}

/// Whether the words of a channel lie in one area.
pub fn analog_destination_is_valid(channel: AnalogChannel) -> (r: bool)
    ensures
        r == channel.destined(),
{
    let words: u16 = if channel.has_engineering_range() {
        2
    } else {
        1
    };
    if channel.destination > 0xFFFF - (words - 1) {
        return false;
    }
    let last: u16 = channel.destination + (words - 1);
    match (result_index(channel.destination), result_index(last)) {
        (Some(a), Some(b)) => b >= a && b - a + 1 == words as usize,
        _ => false,
    }
}

/// The channel of the record words from `at` on, if they describe one.
pub open spec fn channel_at(w: Seq<u16>, at: int) -> Option<AnalogChannel> {
    let number = word_or(w, at, 0);
    if number == 0 || number > 16 || at + 4 >= w.len() {
        None
    } else {
        let c = AnalogChannel {
            source: ((number - 1) / 2) as u8,
            destination: w[at + 4],
            minimum: w[at + 2],
            maximum: w[at + 3],
            unit_minimum: word_or(w, at + 6, 0),
            unit_maximum: word_or(w, at + 7, 20),
            reference: if number % 2 == 0 {
                10
            } else {
                20
            },
        };
        if c.destined() {
            Some(c)
        } else {
            None
        }
    }
}

/// The channels after the first `n` of a list were added.
pub open spec fn add_channels(
    known: Seq<AnalogChannel>,
    w: Seq<u16>,
    start: int,
    size: int,
    n: nat,
) -> Seq<AnalogChannel>
    decreases n,
{
    if n == 0 {
        known
    } else {
        let before = add_channels(known, w, start, size, (n - 1) as nat);
        match channel_at(w, start + (n - 1) * size) {
            Some(c) => if before.len() < 64 {
                before.push(c)
            } else {
                before
            },
            None => before,
        }
    }
}

/// The channels after the list with the given header was added. The header holds
/// the bytes of an entry and the number of entries.
pub open spec fn with_channels(known: Seq<AnalogChannel>, w: Seq<u16>, header: int) -> Seq<AnalogChannel> {
    match word_at(w, header) {
        Some(h) => if hi(h) / 2 < 6 {
            known
        } else {
            add_channels(known, w, header + 1, (hi(h) / 2) as int, lo(h) as nat)
        },
        None => known,
    }
}

fn read_channel(w: &[u16], at: usize) -> (r: Option<AnalogChannel>)
    requires
        at + 7 <= usize::MAX,
    ensures
        r == channel_at(w@, at as int),
{
    let number: u16 = get_or(w, at, 0);
    if number == 0 || number > 16 {
        return None;
    }
    if at + 4 >= w.len() {
        return None;
    }
    let parsed = AnalogChannel {
        source: ((number - 1) / 2) as u8,
        destination: w[at + 4],
        minimum: w[at + 2],
        maximum: w[at + 3],
        unit_minimum: get_or(w, at + 6, 0),
        unit_maximum: get_or(w, at + 7, 20),
        reference: if number % 2 == 0 {
            10
        } else {
            20
        },
    };
    if analog_destination_is_valid(parsed) {
        Some(parsed)
    } else {
        None
    }
}

/// Adds the channels of a list.
pub fn parse_channels(w: &[u16], header: usize, target: &mut Vec<AnalogChannel>)
    requires
        header + 40_000 <= usize::MAX,
    ensures
        final(target)@ == with_channels(old(target)@, w@, header as int),
{
    let head: u16 = match get(w, header) {
        Some(h) => h,
        None => {
            return;
        },
    };
    let size: usize = (high(head) / 2) as usize;
    let count: usize = low(head) as usize;
    if size < 6 {
        return;
    }
    let start: usize = header + 1;
    let mut i: usize = 0;
    while i < count
        invariant
            i <= count <= 255,
            size <= 128,
            start + 39_999 <= usize::MAX,
            target@ == add_channels(old(target)@, w@, start as int, size as int, i as nat),
        decreases count - i,
    {
        proof {
            lemma_product(i as int, count as int, size as int);
        }
        match read_channel(w, start + i * size) {
            Some(c) => {
                if target.len() < MAX_ANALOG_CHANNELS {
                    target.push(c);
                }
            },
            None => {},
        }
        i += 1;
    }
}

/// Place of the channel list of a serial-port record after `n` function blocks.
pub open spec fn after_functions(w: Seq<u16>, cursor: int, n: nat) -> Option<int>
    decreases n,
{
    if n == 0 {
        Some(cursor)
    } else {
        match word_at(w, cursor + 3) {
            Some(h) => {
                let next = cursor + 4 + (hi(h) / 2) * lo(h);
                if hi(h) == 0 || hi(h) % 2 != 0 || next > w.len() {
                    None
                } else {
                    after_functions(w, next, (n - 1) as nat)
                }
            },
            None => None,
        }
    }
}

/// Place of the channel list of a serial-port record.
pub open spec fn channel_header(w: Seq<u16>, start: int) -> Option<int> {
    match word_at(w, start + 5) {
        Some(h) => if hi(h) != 6 {
            None
        } else {
            after_functions(w, start + 6, lo(h) as nat)
        },
        None => None,
    }
}

/// Finds the channel list of a serial-port record.
pub fn rs485_channel_header(w: &[u16], start: usize) -> (r: Option<usize>)
    requires
        start + 5 <= usize::MAX,
        w@.len() + 40_000 <= usize::MAX,
    ensures
        r is Some <==> channel_header(w@, start as int) is Some,
        r is Some ==> r->0 == channel_header(w@, start as int)->0 && r->0 <= w@.len(),
{
    let head: u16 = match get(w, start + 5) {
        Some(h) => h,
        None => {
            return None;
        },
    };
    if high(head) != 6 {
        return None;
    }
    let count: usize = low(head) as usize;
    let mut cursor: usize = start + 6;
    let mut left: usize = count;
    while left > 0
        invariant
            left <= count,
            w@.len() + 40_000 <= usize::MAX,
            cursor <= w@.len(),
            channel_header(w@, start as int) == after_functions(w@, cursor as int, left as nat),
        decreases left,
    {
        let block: u16 = match get(w, cursor + 3) {
            Some(h) => h,
            None => {
                return None;
            },
        };
        let bytes: u8 = high(block);
        if bytes == 0 || bytes % 2 != 0 {
            return None;
        }
        let items: usize = low(block) as usize;
        let size: usize = (bytes / 2) as usize;
        proof {
            lemma_product(items as int, items as int, size as int);
            assert(items * size == size * items) by (nonlinear_arith);
        }
        let next: usize = cursor + 4 + size * items;
        if next > w.len() {
            return None;
        }
        cursor = next;
        left -= 1;
    }
    Some(cursor)
}

// ---- IO records ----

/// The map of up to four words, the first one lowest. Words past the end of the
/// record are missing.
pub open spec fn bits_of_words(w: Seq<u16>, start: int, count: int) -> u64 {
    ((if count > 0 {
        word_or(w, start, 0) as int
    } else {
        0
    }) + (if count > 1 {
        word_or(w, start + 1, 0) * 0x1_0000
    } else {
        0
    }) + (if count > 2 {
        word_or(w, start + 2, 0) * 0x1_0000_0000
    } else {
        0
    }) + (if count > 3 {
        word_or(w, start + 3, 0) * 0x1_0000_0000_0000
    } else {
        0
    })) as u64
}

/// Reads a map of up to four words.
pub fn bit_words(w: &[u16], start: usize, count: usize) -> (r: u64)
    requires
        start + 3 <= usize::MAX,
    ensures
        r == bits_of_words(w@, start as int, count as int),
{
    let mut r: u64 = 0;
    if count > 0 {
        r = get_or(w, start, 0) as u64;
    }
    if count > 1 {
        r = r + (get_or(w, start + 1, 0) as u64) * 0x1_0000;
    }
    if count > 2 {
        r = r + (get_or(w, start + 2, 0) as u64) * 0x1_0000_0000;
    }
    if count > 3 {
        r = r + (get_or(w, start + 3, 0) as u64) * 0x1_0000_0000_0000;
    }
    r
}

/// The first `n` points of a list: the last word of each entry, where it is a
/// point number. At most 64 are kept, and entries of one word hold none.
pub open spec fn point_list(w: Seq<u16>, start: int, size: int, n: nat) -> Seq<u8>
    decreases n,
{
    if n == 0 {
        Seq::empty()
    } else {
        let before = point_list(w, start, size, (n - 1) as nat);
        let point = word_or(w, start + (n - 1) * size + size - 1, 0);
        if size >= 2 && 1 <= point <= 64 && before.len() < 64 {
            before.push(point as u8)
        } else {
            before
        }
    }
}

fn read_points(w: &[u16], start: usize, size: usize, count: usize) -> (r: heapless::Vec<u8, 64>)
    requires
        start + 40_000 <= usize::MAX,
        size <= 128,
        count <= 255,
    ensures
        r.items() == point_list(w@, start as int, size as int, count as nat),
{
    let mut points = new_points();
    let mut i: usize = 0;
    while i < count
        invariant
            i <= count <= 255,
            size <= 128,
            start + 40_000 <= usize::MAX,
            points.items() == point_list(w@, start as int, size as int, i as nat),
        decreases count - i,
    {
        proof {
            lemma_product(i as int, count as int, size as int);
        }
        if size >= 2 {
            let point: u16 = get_or(w, start + i * size + size - 1, 0);
            if 1 <= point && point <= 64 {
                let _ = try_push(&mut points, point as u8);
            }
        }
        i += 1;
    }
    points
}

/// The control value that starts at `at`.
pub open spec fn control_at(w: Seq<u16>, at: int, size: int) -> ControlSpec {
    ControlSpec {
        value: w[at],
        feedback: word_or(w, at + 1, 0),
        q_bits: bits_of_words(w, at + 3, (size - 4) / 2),
        i_bits: bits_of_words(w, at + 3 + (size - 4) / 2, (size - 4) / 2),
    }
}

/// The first `n` control values of a list, as far as the record reaches.
pub open spec fn control_list(w: Seq<u16>, start: int, size: int, n: nat) -> Seq<ControlSpec>
    decreases n,
{
    if n == 0 {
        Seq::empty()
    } else {
        let before = control_list(w, start, size, (n - 1) as nat);
        let at = start + (n - 1) * size;
        if at < w.len() {
            before.push(control_at(w, at, size))
        } else {
            before
        }
    }
}

fn read_controls(w: &[u16], start: usize, size: usize, count: usize) -> (r: Vec<ControlSpec>)
    requires
        start + 40_000 <= usize::MAX,
        6 <= size <= 128,
        count <= 255,
    ensures
        r@ == control_list(w@, start as int, size as int, count as nat),
{
    let mut controls: Vec<ControlSpec> = Vec::new();
    let map_words: usize = (size - 4) / 2;
    let mut i: usize = 0;
    while i < count
        invariant
            i <= count <= 255,
            6 <= size <= 128,
            start + 40_000 <= usize::MAX,
            map_words == (size - 4) / 2,
            controls@ == control_list(w@, start as int, size as int, i as nat),
        decreases count - i,
    {
        proof {
            lemma_product(i as int, count as int, size as int);
        }
        let at: usize = start + i * size;
        if at < w.len() {
            controls.push(
                ControlSpec {
                    value: w[at],
                    feedback: get_or(w, at + 1, 0),
                    q_bits: bit_words(w, at + 3, map_words),
                    i_bits: bit_words(w, at + 3 + map_words, map_words),
                },
            );
        }
        i += 1;
    }
    controls
}

/// Seconds as milliseconds, at most 65535.
pub open spec fn seconds_ms(s: u16) -> u32 {
    if s * 1000 > 0xFFFF {
        0xFFFF
    } else {
        (s * 1000) as u32
    }
}

fn millis(s: u16) -> (r: u32)
    ensures
        r == seconds_ms(s),
{
    let ms: u32 = (s as u32) * 1000;
    if ms > 0xFFFF {
        0xFFFF
    } else {
        ms
    }
}

/// Places of the parts of an IO record that starts at `base`: the input list, the
/// address list, the control list, and the delay and pulse times.
pub struct IoLayout {
    pub i_header: int,
    pub address_header: int,
    pub control_header: int,
    pub tail: int,
}

/// Where the list with header `h` at `at` ends.
pub open spec fn list_end(at: int, h: u16) -> int {
    at + 1 + width(hi(h)) * lo(h)
}

/// The places of the parts of an IO record, if they all lie in the record.
pub open spec fn io_layout(w: Seq<u16>, base: int) -> Option<IoLayout> {
    if base + 4 >= w.len() {
        None
    } else {
        let i_header = list_end(base + 4, w[base + 4]);
        if i_header >= w.len() {
            None
        } else {
            let address_header = list_end(i_header, w[i_header]);
            if address_header >= w.len() || width(hi(w[address_header])) == 0 || lo(w[address_header]) < 2 {
                None
            } else {
                let control_header = list_end(address_header, w[address_header]);
                if control_header >= w.len() || width(hi(w[control_header])) < 6 || lo(w[control_header]) == 0 {
                    None
                } else {
                    let tail = list_end(control_header, w[control_header]);
                    if tail + 1 >= w.len() {
                        None
                    } else {
                        Some(IoLayout { i_header, address_header, control_header, tail })
                    }
                }
            }
        }
    }
}

/// The IO record that starts at `base`, if it is complete.
pub open spec fn io_record(w: Seq<u16>, base: int, id: u16, controllable: bool) -> Option<LogicView> {
    match io_layout(w, base) {
        None => None,
        Some(l) => Some(
            LogicView {
                logic_id: id,
                controllable,
                control_addr: word_or(w, l.address_header + 1, 0),
                feedback_addr: word_or(w, l.address_header + 1 + width(hi(w[l.address_header])), 0),
                q_points: point_list(w, base + 5, width(hi(w[base + 4])), lo(w[base + 4]) as nat),
                i_points: point_list(w, l.i_header + 1, width(hi(w[l.i_header])), lo(w[l.i_header]) as nat),
                delay_ms: seconds_ms(w[l.tail]),
                pulse_ms: seconds_ms(w[l.tail + 1]),
                controls: control_list(
                    w,
                    l.control_header + 1,
                    width(hi(w[l.control_header])),
                    lo(w[l.control_header]) as nat,
                ),
            },
        ),
    }
}

fn list_end_of(at: usize, h: u16) -> (r: usize)
    requires
        at + 40_000 <= usize::MAX,
    ensures
        r == list_end(at as int, h),
        r <= at + 32641,
{
    let size: usize = width_of(high(h));
    let count: usize = low(h) as usize;
    proof {
        lemma_product(count as int, count as int, size as int);
        assert(count * size == size * count) by (nonlinear_arith);
    }
    at + 1 + size * count
}

fn read_io_record(w: &[u16], base: usize, id: u16, controllable: bool) -> (r: Option<IoLogic>)
    requires
        base + 4 <= usize::MAX,
        w@.len() + 40_001 <= usize::MAX,
    ensures
        r is Some <==> io_record(w@, base as int, id, controllable) is Some,
        r is Some ==> r->0@ == io_record(w@, base as int, id, controllable)->0,
{
    let n: usize = w.len();
    if base + 4 >= n {
        return None;
    }
    let q_head: u16 = w[base + 4];
    let i_header: usize = list_end_of(base + 4, q_head);
    if i_header >= n {
        return None;
    }
    let i_head: u16 = w[i_header];
    let address_header: usize = list_end_of(i_header, i_head);
    if address_header >= n {
        return None;
    }
    let address_head: u16 = w[address_header];
    let address_size: usize = width_of(high(address_head));
    if address_size == 0 || low(address_head) < 2 {
        return None;
    }
    let control_header: usize = list_end_of(address_header, address_head);
    if control_header >= n {
        return None;
    }
    let control_head: u16 = w[control_header];
    let control_size: usize = width_of(high(control_head));
    if control_size < 6 || low(control_head) == 0 {
        return None;
    }
    let tail: usize = list_end_of(control_header, control_head);
    if tail + 1 >= n {
        return None;
    }
    let q_points = read_points(w, base + 5, width_of(high(q_head)), low(q_head) as usize);
    let i_points = read_points(w, i_header + 1, width_of(high(i_head)), low(i_head) as usize);
    let controls = read_controls(w, control_header + 1, control_size, low(control_head) as usize);
    Some(
        IoLogic {
            logic_id: id,
            controllable,
            control_addr: get_or(w, address_header + 1, 0),
            feedback_addr: get_or(w, address_header + 1 + address_size, 0),
            q_points,
            i_points,
            delay_ms: millis(w[tail]),
            pulse_ms: millis(w[tail + 1]),
            controls,
        },
    )
}

// ---- The table ----

/// Start and end of record `i` in the buffer, if the record lies in it.
pub open spec fn record_bounds(words: Seq<u16>, i: int) -> Option<(int, int)> {
    match (word_at(words, 125 + i), word_at(words, 126 + i)) {
        (Some(start), Some(end)) => if start < end && CONFIG_BASE + end <= 0xFFFF && end + 124 <= words.len() {
            Some((start + 124, end + 124))
        } else {
            None
        },
        _ => None,
    }
}

/// The table with record `i` added.
pub open spec fn with_record(t: TableView, words: Seq<u16>, i: int) -> TableView {
    match record_bounds(words, i) {
        None => t,
        Some((start, end)) => {
            let w = words.take(end);
            let kind = lo(w[start]);
            if kind == 3 {
                TableView { analog: with_channels(t.analog, w, start + 4), ..t }
            } else if kind == 4 {
                match channel_header(w, start) {
                    Some(header) => TableView { analog: with_channels(t.analog, w, header), ..t },
                    None => t,
                }
            } else if kind == 1 || kind == 5 {
                match io_record(w, start, i as u16, kind == 1) {
                    Some(entry) => TableView { entries: t.entries.push(entry), ..t },
                    None => t,
                }
            } else {
                t
            }
        },
    }
}

/// The table after the first `n` records.
pub open spec fn records(words: Seq<u16>, n: nat) -> TableView
    decreases n,
{
    if n == 0 {
        table_empty()
    } else {
        with_record(records(words, (n - 1) as nat), words, n - 1)
    }
}

/// The table that a register buffer holds.
pub open spec fn table_of(words: Seq<u16>) -> TableView {
    match word_at(words, 124) {
        None => table_empty(),
        Some(count) => records(
            words,
            if count > 32 {
                32
            } else {
                count as nat
            },
        ),
    }
}

fn bounds_of(words: &[u16], i: usize) -> (r: Option<(usize, usize)>)
    requires
        i < 32,
    ensures
        r is Some <==> record_bounds(words@, i as int) is Some,
        r matches Some(p) ==> record_bounds(words@, i as int) == Some((p.0 as int, p.1 as int)),
{
    let start: u16 = match get(words, TABLE_INDEX + 1 + i) {
        Some(v) => v,
        None => {
            return None;
        },
    };
    let end: u16 = match get(words, TABLE_INDEX + 2 + i) {
        Some(v) => v,
        None => {
            return None;
        },
    };
    if start >= end || end > 0xFFFF - CONFIG_BASE || end as usize + TABLE_INDEX > words.len() {
        return None;
    }
    Some((start as usize + TABLE_INDEX, end as usize + TABLE_INDEX))
}

/// Adds record `i`.
fn parse_record(words: &[u16], i: usize, table: &mut LogicTable)
    requires
        i < 32,
    ensures
        final(table)@ == with_record(old(table)@, words@, i as int),
{
    let (start, end): (usize, usize) = match bounds_of(words, i) {
        Some(b) => b,
        None => {
            return;
        },
    };
    let w = slice_subrange(words, 0, end);
    assert(w@ =~= words@.take(end as int));
    let kind: u8 = low(w[start]);
    if kind == 3 {
        parse_channels(w, start + 4, &mut table.analog_channels);
        assert(table@ =~= with_record(old(table)@, words@, i as int));
    } else if kind == 4 {
        match rs485_channel_header(w, start) {
            Some(header) => {
                parse_channels(w, header, &mut table.analog_channels);
            },
            None => {},
        }
        assert(table@ =~= with_record(old(table)@, words@, i as int));
    } else if kind == 1 || kind == 5 {
        match read_io_record(w, start, i as u16, kind == 1) {
            Some(entry) => {
                table.entries.push(entry);
            },
            None => {},
        }
        assert(table@ =~= with_record(old(table)@, words@, i as int));
    }
}

/// Reads the table out of the register buffer.
pub fn parse_table(words: &[u16]) -> (r: LogicTable)
    ensures
        r@ == table_of(words@),
        r@.entries.len() <= MAX_LOGICS,
        r@.analog.len() <= MAX_ANALOG_CHANNELS,
        forall|i: int| 0 <= i < r@.analog.len() ==> (#[trigger] r@.analog[i]).destined(),
        forall|i: int|
            0 <= i < r@.analog.len() ==> (#[trigger] r@.analog[i]).reference == 10 || r@.analog[i].reference == 20,
{
    let mut table = LogicTable::default();
    let count: u16 = match get(words, TABLE_INDEX) {
        Some(v) => v,
        None => {
            return table;
        },
    };
    let count: usize = if count as usize > MAX_LOGICS {
        MAX_LOGICS
    } else {
        count as usize
    };
    let mut i: usize = 0;
    while i < count
        invariant
            i <= count <= 32,
            table@ == records(words@, i as nat),
        decreases count - i,
    {
        parse_record(words, i, &mut table);
        i += 1;
    }
    proof {
        lemma_records(words@, count as nat);
    }
    table
}

// ---- Properties ----

/// All channels of a list have a place, and one of the two references.
pub open spec fn channels_sound(s: Seq<AnalogChannel>) -> bool {
    &&& s.len() <= 64
    &&& forall|i: int|
        0 <= i < s.len() ==> (#[trigger] s[i]).destined() && (s[i].reference == 10 || s[i].reference == 20)
}

proof fn lemma_add_channels(known: Seq<AnalogChannel>, w: Seq<u16>, start: int, size: int, n: nat)
    requires
        channels_sound(known),
    ensures
        channels_sound(add_channels(known, w, start, size, n)),
    decreases n,
{
    if n > 0 {
        lemma_add_channels(known, w, start, size, (n - 1) as nat);
    }
}

proof fn lemma_records(words: Seq<u16>, n: nat)
    ensures
        records(words, n).entries.len() <= n,
        channels_sound(records(words, n).analog),
    decreases n,
{
    if n > 0 {
        lemma_records(words, (n - 1) as nat);
        let t = records(words, (n - 1) as nat);
        match record_bounds(words, n - 1) {
            Some((start, end)) => {
                let w = words.take(end);
                let kind = lo(w[start]);
                if kind == 3 {
                    let h = w[start + 4];
                    lemma_add_channels(t.analog, w, start + 5, (hi(h) / 2) as int, lo(h) as nat);
                } else if kind == 4 {
                    match channel_header(w, start) {
                        Some(header) => {
                            let h = w[header];
                            lemma_add_channels(t.analog, w, header + 1, (hi(h) / 2) as int, lo(h) as nat);
                        },
                        None => {},
                    }
                }
            },
            None => {},
        }
    }
}

/// A table has at most 32 records and 64 channels, and each channel publishes
/// into one area.
pub proof fn law_table_is_bounded(words: Seq<u16>)
    ensures
        table_of(words).entries.len() <= 32,
        channels_sound(table_of(words).analog),
{
    match word_at(words, 124) {
        Some(count) => {
            lemma_records(
                words,
                if count > 32 {
                    32
                } else {
                    count as nat
                },
            );
        },
        None => {},
    }
}

/// A record is read from its own words: what lies past its end does not matter.
pub proof fn law_record_ends_where_it_says(t: TableView, a: Seq<u16>, b: Seq<u16>, i: int)
    requires
        0 <= i,
        record_bounds(b, i) == record_bounds(a, i),
        record_bounds(a, i) matches Some(p) ==> a.take(p.1) == b.take(p.1),
    ensures
        with_record(t, a, i) == with_record(t, b, i),
{
}

/// A channel that publishes two words never straddles the monitor and the user
/// area.
pub proof fn law_channel_stays_in_one_area(c: AnalogChannel, i: int, j: int)
    requires
        c.covers(i),
        c.covers(j),
    ensures
        i < 128 <==> j < 128,
        0 <= i < 352,
{
}

} // verus!
