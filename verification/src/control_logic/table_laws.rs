//! Laws of the control-logic table and of the published values.

use crate::bus::io_global::IoView;
use crate::control_logic::analog::{doubled, law_single_is_nearest, nearest_hundredth, single_of_hundredths};
use crate::control_logic::table::{
    add_channels, after_functions, bits_of_words, channel_at, channel_header, control_list, io_record, point_list,
    record_bounds, records, result_place, table_of, with_channels, with_record, AnalogChannel, ControlSpec, TableView,
};
use crate::control_logic::{analog_updated, covered, refreshed, result_word, ticked, with_result, with_results, ControlView};
use vstd::arithmetic::power2::{lemma2_to64, lemma_pow2_unfold, pow2};
use vstd::prelude::*;

verus! {

// ---- Analogue channels ----

/// Whether a channel publishes two words, in engineering units.
pub open spec fn takes_two(c: AnalogChannel) -> bool {
    c.maximum > c.minimum && c.unit_maximum > c.unit_minimum
}

/// Whether the words of a channel lie in the registers 0 to 127 or in 4000 to 4223.
pub open spec fn has_place(c: AnalogChannel) -> bool {
    let last = c.destination + (if takes_two(c) {
        1int
    } else {
        0
    });
    last < 128 || (4000 <= c.destination && last < 4224)
}

/// Whether the words from `at` on describe a channel: channels 2k+1 and 2k+2 read input
/// k, the former against 20 mA, the latter against 10 V.
pub open spec fn describes(w: Seq<u16>, at: int, c: AnalogChannel) -> bool {
    &&& 0 <= at
    &&& at + 4 < w.len()
    &&& 1 <= w[at] <= 16
    &&& 2 * c.source + 1 <= w[at] <= 2 * c.source + 2
    &&& c.reference == (if w[at] == 2 * c.source + 1 {
        20
    } else {
        10int
    })
    &&& c.minimum == w[at + 2]
    &&& c.maximum == w[at + 3]
    &&& c.destination == w[at + 4]
    &&& has_place(c)
}

/// The words of a list entry are its channel number, two limits, a register and two
/// units; the units are 0 and 20 where the record ends before them. An entry with
/// another number, or without a place for its words, is left out.
pub proof fn law_entry_describes_its_channel(w: Seq<u16>, at: int)
    requires
        0 <= at,
    ensures
        ({
            let r = channel_at(w, at);
            &&& r matches Some(c) ==> {
                &&& describes(w, at, c)
                &&& c.source < 8
                &&& at + 6 < w.len() ==> c.unit_minimum == w[at + 6]
                &&& at + 6 >= w.len() ==> c.unit_minimum == 0
                &&& at + 7 < w.len() ==> c.unit_maximum == w[at + 7]
                &&& at + 7 >= w.len() ==> c.unit_maximum == 20
            }
            &&& r is None ==> at + 4 >= w.len() || w[at] == 0 || w[at] > 16 || forall|c: AnalogChannel|
                c.minimum == w[at + 2] && c.maximum == w[at + 3] && c.destination == w[at + 4] && c.unit_minimum == (
                if at + 6 < w.len() {
                    w[at + 6]
                } else {
                    0
                }) && c.unit_maximum == (if at + 7 < w.len() {
                    w[at + 7]
                } else {
                    20
                }) ==> !#[trigger] has_place(c)
        }),
{
}

/// The two channel numbers of an input read the same input, and other numbers read
/// another one.
pub proof fn law_two_numbers_share_an_input(v: Seq<u16>, a: int, w: Seq<u16>, b: int)
    requires
        0 <= a,
        0 <= b,
        channel_at(v, a) is Some,
        channel_at(w, b) is Some,
    ensures
        channel_at(v, a)->0.source == channel_at(w, b)->0.source <==> (v[a] + 1) / 2 == (w[b] + 1) / 2,
        v[a] < w[b] ==> channel_at(v, a)->0.source <= channel_at(w, b)->0.source,
{
}

proof fn lemma_channels_added(known: Seq<AnalogChannel>, w: Seq<u16>, start: int, size: int, n: nat)
    requires
        known.len() + n <= 64,
    ensures
        ({
            let r = add_channels(known, w, start, size, n);
            &&& known.len() <= r.len() <= known.len() + n
            &&& r.take(known.len() as int) == known
            &&& forall|k: int|
                0 <= k < n && #[trigger] channel_at(w, start + k * size) is Some ==> exists|m: int|
                    known.len() <= m < r.len() && #[trigger] r[m] == channel_at(w, start + k * size)->0
            &&& forall|m: int|
                known.len() <= m < r.len() ==> exists|k: int|
                    0 <= k < n && #[trigger] channel_at(w, start + k * size) == Some(#[trigger] r[m])
        }),
    decreases n,
{
    let r = add_channels(known, w, start, size, n);
    if n > 0 {
        let before = add_channels(known, w, start, size, (n - 1) as nat);
        lemma_channels_added(known, w, start, size, (n - 1) as nat);
        assert(r.take(known.len() as int) =~= known);
        assert forall|k: int| 0 <= k < n && #[trigger] channel_at(w, start + k * size) is Some implies exists|m: int|
            known.len() <= m < r.len() && #[trigger] r[m] == channel_at(w, start + k * size)->0 by {
            if k < n - 1 {
                let m = choose|m: int|
                    known.len() <= m < before.len() && #[trigger] before[m] == channel_at(w, start + k * size)->0;
                assert(r[m] == before[m]);
            } else {
                assert(r[r.len() - 1] == channel_at(w, start + k * size)->0);
            }
        }
        assert forall|m: int| known.len() <= m < r.len() implies exists|k: int|
            0 <= k < n && #[trigger] channel_at(w, start + k * size) == Some(#[trigger] r[m]) by {
            if m < before.len() {
                let k = choose|k: int|
                    0 <= k < n - 1 && #[trigger] channel_at(w, start + k * size) == Some(before[m]);
                assert(channel_at(w, start + k * size) == Some(r[m]));
            } else {
                assert(channel_at(w, start + (n - 1) * size) == Some(r[m]));
            }
        }
    } else {
        assert(r.take(known.len() as int) =~= known);
    }
}

/// A channel list adds the channels of its entries behind those that are known. Its
/// header has the bytes of an entry, twelve at least, and the number of entries.
pub proof fn law_channel_list_adds_its_entries(known: Seq<AnalogChannel>, w: Seq<u16>, header: int)
    requires
        0 <= header < w.len(),
        known.len() + w[header] % 256 <= 64,
    ensures
        ({
            let r = with_channels(known, w, header);
            let size = w[header] as int / 512;
            let n = w[header] % 256;
            &&& size < 6 ==> r == known
            &&& size >= 6 ==> {
                &&& known.len() <= r.len()
                &&& r.take(known.len() as int) == known
                &&& forall|k: int|
                    0 <= k < n && #[trigger] channel_at(w, header + 1 + k * size) is Some ==> exists|m: int|
                        known.len() <= m < r.len() && #[trigger] r[m] == channel_at(w, header + 1 + k * size)->0
                &&& forall|m: int|
                    known.len() <= m < r.len() ==> exists|k: int|
                        0 <= k < n && #[trigger] channel_at(w, header + 1 + k * size) == Some(#[trigger] r[m])
            }
        }),
{
    let size = w[header] as int / 512;
    assert((w[header] as int / 256) / 2 == size);
    lemma_channels_added(known, w, header + 1, size, (w[header] % 256) as nat);
}

/// Whether some of the words describe a channel.
pub open spec fn is_described(w: Seq<u16>, c: AnalogChannel) -> bool {
    exists|at: int| describes(w, at, c)
}

proof fn lemma_described_by_prefix(words: Seq<u16>, end: int, at: int, c: AnalogChannel)
    requires
        0 <= end <= words.len(),
        describes(words.take(end), at, c),
    ensures
        describes(words, at, c),
{
}

proof fn lemma_add_described(known: Seq<AnalogChannel>, words: Seq<u16>, end: int, start: int, size: int, n: nat)
    requires
        0 <= end <= words.len(),
        0 <= start,
        0 <= size,
        forall|i: int| 0 <= i < known.len() ==> is_described(words, #[trigger] known[i]),
    ensures
        forall|i: int|
            0 <= i < add_channels(known, words.take(end), start, size, n).len() ==> is_described(
                words,
                #[trigger] add_channels(known, words.take(end), start, size, n)[i],
            ),
    decreases n,
{
    if n > 0 {
        let w = words.take(end);
        lemma_add_described(known, words, end, start, size, (n - 1) as nat);
        let before = add_channels(known, w, start, size, (n - 1) as nat);
        let r = add_channels(known, w, start, size, n);
        let at = start + (n - 1) * size;
        assert(at >= 0) by (nonlinear_arith)
            requires
                at == start + (n - 1) * size,
                n >= 1,
                size >= 0,
                start >= 0,
        ;
        law_entry_describes_its_channel(w, at);
        assert forall|i: int| 0 <= i < r.len() implies is_described(words, #[trigger] r[i]) by {
            if i < before.len() {
                assert(r[i] == before[i]);
            } else {
                lemma_described_by_prefix(words, end, at, r[i]);
            }
        }
    }
}

proof fn lemma_header_is_inside(w: Seq<u16>, cursor: int, n: nat)
    requires
        0 <= cursor,
    ensures
        after_functions(w, cursor, n) matches Some(h) ==> h >= cursor,
    decreases n,
{
    if n > 0 && 0 <= cursor + 3 < w.len() {
        let h = w[cursor + 3];
        let (a, b) = (h as int / 256, (h % 256) as int);
        assert((a / 2) * b >= 0) by (nonlinear_arith)
            requires
                a >= 0,
                b >= 0,
        ;
        lemma_header_is_inside(w, cursor + 4 + (a / 2) * b, (n - 1) as nat);
    }
}

proof fn lemma_records_described(words: Seq<u16>, n: nat)
    ensures
        forall|i: int|
            0 <= i < records(words, n).analog.len() ==> is_described(words, #[trigger] records(words, n).analog[i]),
    decreases n,
{
    if n > 0 {
        lemma_records_described(words, (n - 1) as nat);
        let t = records(words, (n - 1) as nat);
        match record_bounds(words, n - 1) {
            Some((start, end)) => {
                let w = words.take(end);
                let kind = w[start] % 256;
                if kind == 3 && start + 4 < end {
                    let h = w[start + 4];
                    lemma_add_described(
                        t.analog,
                        words,
                        end,
                        start + 5,
                        h as int / 256 / 2,
                        (h % 256) as nat,
                    );
                } else if kind == 4 {
                    match channel_header(w, start) {
                        Some(header) => {
                            lemma_header_is_inside(w, start + 6, (w[start + 5] % 256) as nat);
                            if header < end {
                                let h = w[header];
                                lemma_add_described(
                                    t.analog,
                                    words,
                                    end,
                                    header + 1,
                                    h as int / 256 / 2,
                                    (h % 256) as nat,
                                );
                            }
                        },
                        None => {},
                    }
                }
            },
            None => {},
        }
    }
}

/// Every channel of a table is described by words of the table: its number tells its
/// input and its reference.
pub proof fn law_channels_are_described_by_the_registers(words: Seq<u16>, i: int)
    requires
        0 <= i < table_of(words).analog.len(),
    ensures
        is_described(words, table_of(words).analog[i]),
        table_of(words).analog[i].source < 8,
{
    let n = if words[124] > 32 {
        32
    } else {
        words[124] as nat
    };
    lemma_records_described(words, n);
    assert(is_described(words, records(words, n).analog[i]));
}

// ---- Records ----

/// A table starts at register 2300, word 124 of the buffer, with the number of records,
/// followed by their offsets from there and the offset of the end. At most 32 are read.
pub proof fn law_records_have_their_offsets(words: Seq<u16>, i: int)
    requires
        0 <= i < 32,
        words.len() >= 160,
    ensures
        record_bounds(words, i) matches Some(p) ==> p.0 == 124 + words[125 + i] && p.1 == 124 + words[126 + i],
        record_bounds(words, i) is Some <==> words[125 + i] < words[126 + i] && 124 + words[126 + i] <= words.len()
            && 2300 + words[126 + i] <= 0xFFFF,
        words[124] <= 32 ==> table_of(words) == records(words, words[124] as nat),
        words[124] > 32 ==> table_of(words) == records(words, 32),
        records(words, (i + 1) as nat) == with_record(records(words, i as nat), words, i),
        records(words, 0).entries.len() == 0 && records(words, 0).analog.len() == 0,
{
}

/// The low byte of its first word is the kind of a record: 1 and 5 are IO records, of
/// which only 1 can be controlled, 3 is a channel list with its header at word 4, and 4
/// is a serial port whose list stands behind its functions. Other kinds are left out.
pub proof fn law_kind_of_a_record(t: TableView, words: Seq<u16>, i: int)
    requires
        0 <= i < 32,
        record_bounds(words, i) is Some,
    ensures
        ({
            let (start, end) = record_bounds(words, i)->0;
            let w = words.subrange(0, end);
            let kind = words[start] % 256;
            let r = with_record(t, words, i);
            &&& kind == 3 ==> r == (TableView { analog: with_channels(t.analog, w, start + 4), ..t })
            &&& kind == 4 && channel_header(w, start) is Some ==> r == (TableView {
                analog: with_channels(t.analog, w, channel_header(w, start)->0),
                ..t
            })
            &&& kind == 4 && channel_header(w, start) is None ==> r == t
            &&& kind == 1 && io_record(w, start, i as u16, true) is Some ==> r == (TableView {
                entries: t.entries.push(io_record(w, start, i as u16, true)->0),
                ..t
            })
            &&& kind == 5 && io_record(w, start, i as u16, false) is Some ==> r == (TableView {
                entries: t.entries.push(io_record(w, start, i as u16, false)->0),
                ..t
            })
            &&& kind == 1 && io_record(w, start, i as u16, true) is None ==> r == t
            &&& kind == 5 && io_record(w, start, i as u16, false) is None ==> r == t
            &&& kind == 0 || kind == 2 || kind > 5 ==> r == t
        }),
{
    let (start, end) = record_bounds(words, i)->0;
    assert(words.take(end) =~= words.subrange(0, end));
}

/// A serial-port record has six bytes per function at word 5; each function has a header
/// at its fourth word and is as long as that says. The channel list follows the last.
pub proof fn law_channel_list_follows_the_functions(w: Seq<u16>, start: int, cursor: int, n: nat)
    requires
        0 <= start,
        0 <= cursor,
    ensures
        after_functions(w, cursor, 0) == Some(cursor),
        n > 0 && cursor + 3 < w.len() ==> ({
            let h = w[cursor + 3];
            let next = cursor + 4 + (h as int / 512) * (h % 256);
            if h < 256 || (h as int / 256) % 2 == 1 || next > w.len() {
                after_functions(w, cursor, n) is None
            } else {
                after_functions(w, cursor, n) == after_functions(w, next, (n - 1) as nat)
            }
        }),
        n > 0 && cursor + 3 >= w.len() ==> after_functions(w, cursor, n) is None,
        channel_header(w, start) is Some ==> start + 5 < w.len() && w[start + 5] as int / 256 == 6,
        start + 5 < w.len() && w[start + 5] as int / 256 == 6 ==> channel_header(w, start) == after_functions(
            w,
            start + 6,
            (w[start + 5] % 256) as nat,
        ),
{
    if cursor + 3 < w.len() {
        let h = w[cursor + 3];
        assert((h as int / 256) / 2 == h as int / 512);
    }
}

/// A map of words has its first word lowest: each of up to four words stands at its
/// sixteen bits, and what is missing is zero.
pub proof fn law_first_word_is_lowest(w: Seq<u16>, start: int, count: int)
    requires
        0 <= start,
        0 <= count,
    ensures
        ({
            let b = bits_of_words(w, start, count);
            let at = |k: int|
                if k < count && start + k < w.len() {
                    w[start + k] as int
                } else {
                    0
                };
            &&& b % 0x1_0000 == at(0)
            &&& (b / 0x1_0000) % 0x1_0000 == at(1)
            &&& (b / 0x1_0000_0000) % 0x1_0000 == at(2)
            &&& b / 0x1_0000_0000_0000 == at(3)
        }),
{
}

proof fn lemma_points_listed(w: Seq<u16>, start: int, size: int, n: nat)
    requires
        2 <= size,
        0 <= start,
        n <= 64,
        start + n * size <= w.len(),
    ensures
        point_list(w, start, size, n).len() <= n,
        forall|k: int|
            0 <= k < n && 1 <= #[trigger] w[start + k * size + size - 1] <= 64 ==> point_list(w, start, size, n).contains(
                w[start + k * size + size - 1] as u8,
            ),
        forall|m: int|
            0 <= m < point_list(w, start, size, n).len() ==> exists|k: int|
                0 <= k < n && #[trigger] w[start + k * size + size - 1] == #[trigger] point_list(w, start, size, n)[m]
                    && 1 <= w[start + k * size + size - 1] <= 64,
    decreases n,
{
    if n > 0 {
        assert(n * size == (n - 1) * size + size) by (nonlinear_arith);
        assert((n - 1) * size >= 0) by (nonlinear_arith)
            requires
                n >= 1,
                size >= 2,
        ;
        lemma_points_listed(w, start, size, (n - 1) as nat);
        let before = point_list(w, start, size, (n - 1) as nat);
        let r = point_list(w, start, size, n);
        let last = start + (n - 1) * size + size - 1;
        assert forall|k: int| 0 <= k < n && 1 <= #[trigger] w[start + k * size + size - 1] <= 64 implies r.contains(
            w[start + k * size + size - 1] as u8,
        ) by {
            let p = w[start + k * size + size - 1] as u8;
            if k < n - 1 {
                assert(before.contains(p));
                let m = choose|m: int| 0 <= m < before.len() && before[m] == p;
                assert(r[m] == p);
            } else {
                assert(r[r.len() - 1] == p);
            }
        }
        assert forall|m: int| 0 <= m < r.len() implies exists|k: int|
            0 <= k < n && #[trigger] w[start + k * size + size - 1] == #[trigger] r[m] && 1 <= w[start + k * size + size
                - 1] <= 64 by {
            if m < before.len() {
                let k = choose|k: int|
                    0 <= k < n - 1 && #[trigger] w[start + k * size + size - 1] == before[m] && 1 <= w[start + k * size
                        + size - 1] <= 64;
                assert(w[start + k * size + size - 1] == r[m]);
            } else {
                assert(w[start + (n - 1) * size + size - 1] == r[m]);
            }
        }
    }
}

/// The points of a list are the last words of its entries, where they are 1 to 64.
pub proof fn law_points_are_the_last_words(w: Seq<u16>, start: int, size: int, n: nat, p: u8)
    requires
        2 <= size,
        0 <= start,
        n <= 64,
        start + n * size <= w.len(),
    ensures
        point_list(w, start, size, n).contains(p) <==> 1 <= p <= 64 && exists|k: int|
            0 <= k < n && #[trigger] w[start + k * size + size - 1] == p,
{
    lemma_points_listed(w, start, size, n);
    let r = point_list(w, start, size, n);
    if r.contains(p) {
        let m = choose|m: int| 0 <= m < r.len() && r[m] == p;
        let k = choose|k: int|
            0 <= k < n && #[trigger] w[start + k * size + size - 1] == r[m] && 1 <= w[start + k * size + size - 1] <= 64;
        assert(w[start + k * size + size - 1] == p);
    }
    if 1 <= p <= 64 && exists|k: int| 0 <= k < n && #[trigger] w[start + k * size + size - 1] == p {
        let k = choose|k: int| 0 <= k < n && #[trigger] w[start + k * size + size - 1] == p;
        assert(1 <= w[start + k * size + size - 1] <= 64);
        assert(r.contains(w[start + k * size + size - 1] as u8));
    }
}

/// Whether the words from `at` on are a control: its value, its feedback, a word that is
/// not used, and the maps of its outputs and of its inputs.
pub open spec fn is_control(w: Seq<u16>, at: int, size: int, c: ControlSpec) -> bool {
    let words = (size - 4) / 2;
    &&& c.value == w[at]
    &&& at + 1 < w.len() ==> c.feedback == w[at + 1]
    &&& c.q_bits == bits_of_words(w, at + 3, words)
    &&& c.i_bits == bits_of_words(w, at + 3 + words, words)
}

/// The controls of a list are its entries, in order.
pub proof fn law_controls_are_the_entries(w: Seq<u16>, start: int, size: int, n: nat)
    requires
        6 <= size,
        0 <= start,
        start + n * size <= w.len(),
    ensures
        control_list(w, start, size, n).len() == n,
        forall|k: int|
            0 <= k < n ==> is_control(w, start + k * size, size, #[trigger] control_list(w, start, size, n)[k]),
    decreases n,
{
    if n > 0 {
        assert(n * size == (n - 1) * size + size) by (nonlinear_arith);
        assert((n - 1) * size >= 0) by (nonlinear_arith)
            requires
                n >= 1,
                size >= 6,
        ;
        law_controls_are_the_entries(w, start, size, (n - 1) as nat);
        let before = control_list(w, start, size, (n - 1) as nat);
        let r = control_list(w, start, size, n);
        assert(r == before.push(r.last()));
        assert forall|k: int| 0 <= k < n implies is_control(w, start + k * size, size, #[trigger] r[k]) by {
            if k < n - 1 {
                assert(r[k] == before[k]);
            }
        }
    }
}

/// Words that an entry of a list takes, given the header of the list.
pub open spec fn entry_words(h: u16) -> int {
    (h as int / 256 + 1) / 2
}

/// Where the list with its header at `at` ends.
pub open spec fn end_of(w: Seq<u16>, at: int) -> int {
    at + 1 + entry_words(w[at]) * (w[at] % 256)
}

/// An IO record has, from its fifth word on, the lists of its outputs, of its inputs, of
/// its registers and of its controls, and then its delay and its pulse in seconds, which
/// count up to 65.535 s.
pub proof fn law_io_record_is_four_lists(w: Seq<u16>, base: int, id: u16, controllable: bool)
    requires
        0 <= base,
        io_record(w, base, id, controllable) is Some,
    ensures
        ({
            let r = io_record(w, base, id, controllable)->0;
            let inputs = end_of(w, base + 4);
            let registers = end_of(w, inputs);
            let controls = end_of(w, registers);
            let tail = end_of(w, controls);
            &&& tail + 1 < w.len()
            &&& r.logic_id == id
            &&& r.controllable == controllable
            &&& r.q_points == point_list(w, base + 5, entry_words(w[base + 4]), (w[base + 4] % 256) as nat)
            &&& r.i_points == point_list(w, inputs + 1, entry_words(w[inputs]), (w[inputs] % 256) as nat)
            &&& w[registers] % 256 >= 2
            &&& r.control_addr == w[registers + 1]
            &&& r.feedback_addr == w[registers + 1 + entry_words(w[registers])]
            &&& r.controls == control_list(w, controls + 1, entry_words(w[controls]), (w[controls] % 256) as nat)
            &&& r.delay_ms == (if w[tail] <= 65 {
                1000 * w[tail]
            } else {
                65535
            })
            &&& r.pulse_ms == (if w[tail + 1] <= 65 {
                1000 * w[tail + 1]
            } else {
                65535
            })
        }),
{
    let inputs = end_of(w, base + 4);
    let registers = end_of(w, inputs);
    let controls = end_of(w, registers);
    lemma_list_end(w[base + 4]);
    lemma_list_end(w[inputs]);
    lemma_list_end(w[registers]);
    lemma_list_end(w[controls]);
    let (size, n) = (entry_words(w[registers]), (w[registers] % 256) as int);
    assert(size >= 1 && n >= 2);
    assert(size * n >= size * 2) by (nonlinear_arith)
        requires
            size >= 1,
            n >= 2,
    ;
}

proof fn lemma_list_end(h: u16)
    ensures
        entry_words(h) * (h % 256) >= 0,
{
    let (a, b) = (entry_words(h), (h % 256) as int);
    assert(a * b >= 0) by (nonlinear_arith)
        requires
            a >= 0,
            b >= 0,
    ;
}

/// An IO record whose lists end before its last two words, with two registers and a
/// control of six words at least, is read.
pub proof fn law_complete_io_record_is_read(w: Seq<u16>, base: int, id: u16, controllable: bool)
    requires
        0 <= base,
        base + 4 < w.len(),
        end_of(w, base + 4) < w.len(),
        end_of(w, end_of(w, base + 4)) < w.len(),
        end_of(w, end_of(w, end_of(w, base + 4))) < w.len(),
        end_of(w, end_of(w, end_of(w, end_of(w, base + 4)))) + 1 < w.len(),
        w[end_of(w, end_of(w, base + 4))] >= 256,
        w[end_of(w, end_of(w, base + 4))] % 256 >= 2,
        entry_words(w[end_of(w, end_of(w, end_of(w, base + 4)))]) >= 6,
        w[end_of(w, end_of(w, end_of(w, base + 4)))] % 256 >= 1,
    ensures
        io_record(w, base, id, controllable) is Some,
{
}

// ---- Engineering units ----

/// Whether a number in hundredths stands for an input value: the input range starts at
/// `low` and ends at `high`, and the number is on the line from the minimum to the
/// maximum, rounded down, and held between them.
pub open spec fn on_line(c: AnalogChannel, raw: u16, low: int, high: int, h: int) -> bool {
    let out = 100 * (c.maximum - c.minimum);
    &&& raw <= low ==> h == 100 * c.minimum
    &&& raw >= high ==> h == 100 * c.maximum
    &&& low <= raw <= high ==> (h - 100 * c.minimum) * (high - low) <= (raw - low) * out < (h - 100 * c.minimum + 1) * (
    high - low)
}

/// Whether a bit pattern is the single-precision number nearest to `h` hundredths: an
/// exponent and a mantissa of 24 bits that is within half a unit of the number.
pub open spec fn is_single(bits: int, h: int) -> bool {
    let exponent = bits / 0x80_0000;
    let mantissa = 0x80_0000 + bits % 0x80_0000;
    &&& h == 0 ==> bits == 0
    &&& h > 0 ==> {
        &&& 120 <= exponent <= 150
        &&& -50 <= h * pow2((150 - exponent) as nat) - 100 * mantissa <= 50
    }
}

proof fn lemma_doubled(x: nat, s: nat)
    ensures
        doubled(x, s).1 >= s,
        doubled(x, s).0 == x * pow2((doubled(x, s).1 - s) as nat),
    decreases
            (if x < 838_860_800 {
                838_860_800 - x
            } else {
                0
            }),
{
    lemma2_to64();
    if x != 0 && x < 838_860_800 {
        lemma_doubled(2 * x, s + 1);
        let k = (doubled(x, s).1 - s) as nat;
        lemma_pow2_unfold(k);
        assert((2 * x) * pow2((k - 1) as nat) == x * (2 * pow2((k - 1) as nat))) by (nonlinear_arith);
    } else {
        assert(x * 1 == x);
    }
}

/// The pattern of a number of hundredths is that of the nearest single-precision number.
pub proof fn law_pattern_is_the_nearest_single(n: nat)
    requires
        n <= 6_553_500,
    ensures
        is_single(single_of_hundredths(n) as int, n as int),
{
    if n > 0 {
        lemma2_to64();
        law_single_is_nearest(n);
        lemma_doubled(n, 0);
        let (x, s) = doubled(n, 0);
        let m = nearest_hundredth(x);
        let bits = (150 - s) * 0x80_0000 + m - 0x80_0000;
        assert(0 <= bits < 0x1_0000_0000);
        if m == 0x100_0000 {
            assert(bits == (151 - s) * 0x80_0000);
            assert(s >= 1) by {
                if s == 0 {
                    assert(x == n * pow2(0));
                    assert(n * 1 == n);
                }
            }
            let k = (s - 1) as nat;
            lemma_pow2_unfold(s);
            assert(n * pow2(s) == 2 * (n * pow2(k))) by (nonlinear_arith)
                requires
                    pow2(s) == 2 * pow2(k),
            ;
            assert(bits / 0x80_0000 == 151 - s && bits % 0x80_0000 == 0);
        } else {
            assert(bits == (150 - s) * 0x80_0000 + (m - 0x80_0000));
            assert(bits / 0x80_0000 == 150 - s && bits % 0x80_0000 == m - 0x80_0000);
        }
    }
}

proof fn lemma_engineering_value(c: AnalogChannel, raw: u16, low: int, high: int)
    requires
        c.reference != 0,
        takes_two(c),
        low < high,
        low * c.reference <= 4096 * c.unit_minimum < (low + 1) * c.reference,
        (high + 1) * c.reference <= 4096 * c.unit_maximum < (high + 2) * c.reference,
    ensures
        c.converts(),
        on_line(c, raw, low, high, c.hundredths(raw)),
        0 <= c.hundredths(raw) <= 6_553_500,
{
    let r = c.reference as int;
    assert(low == (4096 * c.unit_minimum) / r) by (nonlinear_arith)
        requires
            r > 0,
            low * r <= 4096 * c.unit_minimum < (low + 1) * r,
    ;
    assert(high + 1 == (4096 * c.unit_maximum) / r) by (nonlinear_arith)
        requires
            r > 0,
            (high + 1) * r <= 4096 * c.unit_maximum < (high + 2) * r,
    ;
    assert(c.input_min() == low && c.input_max() == high);
    let out = 100 * c.maximum - 100 * c.minimum;
    let input = if raw < low {
        low
    } else if raw > high {
        high
    } else {
        raw as int
    };
    let run = high - low;
    let a = (input - low) * out;
    assert(a >= 0) by (nonlinear_arith)
        requires
            a == (input - low) * out,
            input >= low,
            out >= 0,
    ;
    vstd::arithmetic::div_mod::lemma_fundamental_div_mod(a, run);
    let q = a / run;
    assert(q * run <= a < (q + 1) * run) by (nonlinear_arith)
        requires
            a == run * q + a % run,
            0 <= a % run < run,
    ;
    assert(c.hundredths(raw) == q + 100 * c.minimum);
    crate::control_logic::analog::law_value_in_range(c, raw);
    if input == low {
        assert((low - low) * out == 0) by (nonlinear_arith);
        assert(q == 0) by (nonlinear_arith)
            requires
                q * run <= 0 < (q + 1) * run,
                run > 0,
        ;
    }
    if input == high {
        assert(q == out) by (nonlinear_arith)
            requires
                q * run <= run * out < (q + 1) * run,
                run > 0,
        ;
    }
}

proof fn lemma_other_places(values: Seq<u16>, channels: Seq<AnalogChannel>, ai: Seq<u16>, k: nat, n: nat, i: int)
    requires
        k <= n <= channels.len(),
        values.len() == 352,
        0 <= i < 352,
        forall|m: int| k <= m < n ==> !(#[trigger] channels[m]).covers(i),
    ensures
        with_results(values, channels, ai, n).len() == 352,
        with_results(values, channels, ai, n)[i] == with_results(values, channels, ai, k)[i],
    decreases n,
{
    if n > k {
        lemma_other_places(values, channels, ai, k, (n - 1) as nat, i);
        assert(!channels[n - 1].covers(i));
    } else {
        lemma_results_len(values, channels, ai, n);
    }
}

proof fn lemma_results_len(values: Seq<u16>, channels: Seq<AnalogChannel>, ai: Seq<u16>, n: nat)
    requires
        values.len() == 352,
    ensures
        with_results(values, channels, ai, n).len() == values.len(),
    decreases n,
{
    if n > 0 {
        lemma_results_len(values, channels, ai, (n - 1) as nat);
    }
}

/// Whether the place of a register is published by channel `k` alone or last.
pub open spec fn publishes(channels: Seq<AnalogChannel>, k: int, address: int) -> bool {
    let two = takes_two(channels[k]);
    &&& 0 <= k < channels.len()
    &&& channels[k].destination == address || (two && channels[k].destination + 1 == address)
    &&& forall|m: int|
        k < m < channels.len() ==> (#[trigger] channels[m]).destination != address && !(takes_two(channels[m])
            && channels[m].destination + 1 == address)
}

proof fn lemma_publishes(channels: Seq<AnalogChannel>, k: int, address: int, i: int)
    requires
        publishes(channels, k, address),
        0 <= address <= 0xFFFF,
        result_place(address as u16) == Some(i),
    ensures
        forall|m: int| k < m < channels.len() ==> !(#[trigger] channels[m]).covers(i),
{
}

/// Every 100 ms a run publishes the value of each channel's input. In engineering units
/// it is a single-precision number in two words, the higher one first: the input range
/// is the part of 4096 steps that the units are of the reference.
pub proof fn law_channels_publish_their_input(
    c: ControlView,
    holding: Option<Seq<u16>>,
    io: IoView,
    notify: bool,
    now: u64,
    k: int,
    low: int,
    high: int,
)
    requires
        c.table_generation == c.config_generation,
        c.values.len() == 352,
        c.valid.len() == 352,
        now >= c.last_analog_ms + 100,
        0 <= k < c.table.analog.len(),
        has_place(c.table.analog[k]),
        c.table.analog[k].source < io.ai.scaled.len(),
        c.table.analog[k].reference != 0,
        takes_two(c.table.analog[k]),
        publishes(c.table.analog, k, c.table.analog[k].destination as int),
        publishes(c.table.analog, k, c.table.analog[k].destination + 1),
        result_word(c, c.table.analog[k].destination) is Some,
        result_word(c, (c.table.analog[k].destination + 1) as u16) is Some,
        low < high,
        low * c.table.analog[k].reference <= 4096 * c.table.analog[k].unit_minimum < (low + 1)
            * c.table.analog[k].reference,
        (high + 1) * c.table.analog[k].reference <= 4096 * c.table.analog[k].unit_maximum < (high + 2)
            * c.table.analog[k].reference,
    ensures
        ({
            let ch = c.table.analog[k];
            let t = ticked(c, holding, io, notify, now).control;
            let first = result_word(t, ch.destination);
            let second = result_word(t, (ch.destination + 1) as u16);
            &&& first is Some
            &&& second is Some
            &&& exists|h: int|
                #[trigger] on_line(ch, io.ai.scaled[ch.source as int], low, high, h) && is_single(
                    first->0 * 65536 + second->0,
                    h,
                )
        }),
{
    let ch = c.table.analog[k];
    let n = c.table.analog.len();
    let ai = io.ai.scaled;
    let raw = ai[ch.source as int];
    let i = result_place(ch.destination)->0;
    lemma_publishes(c.table.analog, k, ch.destination as int, i);
    lemma_publishes(c.table.analog, k, ch.destination + 1, i + 1);
    lemma_other_places(c.values, c.table.analog, ai, (k + 1) as nat, n, i);
    lemma_other_places(c.values, c.table.analog, ai, (k + 1) as nat, n, i + 1);
    lemma_results_len(c.values, c.table.analog, ai, k as nat);
    lemma_engineering_value(ch, raw, low, high);
    let h = c.table.analog[k].hundredths(raw);
    law_pattern_is_the_nearest_single(h as nat);
    let bits = single_of_hundredths(h as nat);
    assert(ch.destined());
    let before = with_results(c.values, c.table.analog, ai, k as nat);
    assert(with_results(c.values, c.table.analog, ai, (k + 1) as nat) == with_result(before, ch, ai));
    let words = ch.published(raw);
    assert(words.len() == 2);
    assert(ticked(c, holding, io, notify, now).control.values == analog_updated(c, ai).values);
    assert(on_line(ch, raw, low, high, h));
    assert((bits / 65536) * 65536 + bits % 65536 == bits);
}

/// A channel without engineering units publishes the value of its input in one word.
pub proof fn law_plain_channels_publish_their_input(
    c: ControlView,
    holding: Option<Seq<u16>>,
    io: IoView,
    notify: bool,
    now: u64,
    k: int,
)
    requires
        c.table_generation == c.config_generation,
        c.values.len() == 352,
        c.valid.len() == 352,
        now >= c.last_analog_ms + 100,
        0 <= k < c.table.analog.len(),
        has_place(c.table.analog[k]),
        c.table.analog[k].source < io.ai.scaled.len(),
        c.table.analog[k].reference != 0,
        !takes_two(c.table.analog[k]),
        publishes(c.table.analog, k, c.table.analog[k].destination as int),
        result_word(c, c.table.analog[k].destination) is Some,
    ensures
        result_word(ticked(c, holding, io, notify, now).control, c.table.analog[k].destination) == Some(
            io.ai.scaled[c.table.analog[k].source as int],
        ),
{
    let ch = c.table.analog[k];
    let ai = io.ai.scaled;
    let i = result_place(ch.destination)->0;
    lemma_publishes(c.table.analog, k, ch.destination as int, i);
    lemma_other_places(c.values, c.table.analog, ai, (k + 1) as nat, c.table.analog.len(), i);
    lemma_results_len(c.values, c.table.analog, ai, k as nat);
    assert(ch.destined());
    let before = with_results(c.values, c.table.analog, ai, k as nat);
    assert(with_results(c.values, c.table.analog, ai, (k + 1) as nat) == with_result(before, ch, ai));
    assert(ticked(c, holding, io, notify, now).control.values == analog_updated(c, ai).values);
}

/// Within 100 ms of a publication the published words keep.
pub proof fn law_published_words_keep_for_100_ms(
    c: ControlView,
    holding: Option<Seq<u16>>,
    io: IoView,
    notify: bool,
    now: u64,
    address: u16,
)
    requires
        c.table_generation == c.config_generation,
    ensures
        now < c.last_analog_ms + 100 ==> {
            let t = ticked(c, holding, io, notify, now).control;
            result_word(t, address) == result_word(c, address) && t.last_analog_ms == c.last_analog_ms
        },
        now >= c.last_analog_ms + 100 ==> ticked(c, holding, io, notify, now).control.last_analog_ms == now
            % 0x1_0000_0000,
{
}

/// Once a table was read, a register is published exactly where a channel publishes
/// there. Only the registers 0 to 127 and 4000 to 4223 can be.
pub proof fn law_published_registers_are_those_of_the_channels(
    c: ControlView,
    holding: Option<Seq<u16>>,
    address: u16,
)
    requires
        c.table_generation != c.config_generation,
        forall|k: int|
            0 <= k < refreshed(c, holding).table.analog.len() ==> has_place(
                #[trigger] refreshed(c, holding).table.analog[k],
            ),
    ensures
        ({
            let channels = refreshed(c, holding).table.analog;
            let w = result_word(refreshed(c, holding), address);
            &&& w is Some <==> exists|k: int|
                0 <= k < channels.len() && ((#[trigger] channels[k]).destination == address || (takes_two(channels[k])
                    && channels[k].destination + 1 == address))
            &&& w is Some ==> address < 128 || 4000 <= address < 4224
        }),
{
    let channels = refreshed(c, holding).table.analog;
    assert forall|k: int| 0 <= k < channels.len() implies (#[trigger] channels[k]).destined() by {
        assert(has_place(channels[k]));
    }
    if result_word(refreshed(c, holding), address) is Some {
        let i = result_place(address)->0;
        assert(covered(channels)[i]);
        let k = choose|k: int| 0 <= k < channels.len() && (#[trigger] channels[k]).covers(i);
        assert(channels[k].covers(i));
        assert(channels[k].destination == address || channels[k].destination + 1 == address);
    }
    if exists|k: int|
        0 <= k < channels.len() && ((#[trigger] channels[k]).destination == address || (takes_two(channels[k])
            && channels[k].destination + 1 == address)) {
        let k = choose|k: int|
            0 <= k < channels.len() && ((#[trigger] channels[k]).destination == address || (takes_two(channels[k])
                && channels[k].destination + 1 == address));
        assert(channels[k].destined());
        let i = result_place(address)->0;
        assert(channels[k].covers(i));
        assert(covered(channels)[i]);
    }
}

/// Different registers have different places among the published words.
pub proof fn law_published_registers_have_their_own_place(a: u16, b: u16)
    requires
        a != b,
        result_place(a) is Some,
        result_place(b) is Some,
    ensures
        result_place(a) != result_place(b),
        0 <= result_place(a)->0 < 352,
{
}


/// Every publication, and every reading of the table, raises the version of the published
/// words by two, round its end, so that it is even in between.
pub proof fn law_version_counts_publications(
    c: ControlView,
    holding: Option<Seq<u16>>,
    io: IoView,
    notify: bool,
    now: u64,
)
    requires
        now >= c.last_analog_ms + 100,
    ensures
        ({
            let read = c.table_generation != c.config_generation;
            let r = refreshed(c, holding);
            let t = ticked(c, holding, io, notify, now).control;
            let published = r.table.analog.len() > 0;
            let steps = (if read {
                2int
            } else {
                0
            }) + (if published {
                2int
            } else {
                0
            });
            &&& t.version == (c.version + steps) % 0x1_0000_0000
            &&& c.version % 2 == 0 ==> t.version % 2 == 0
        }),
{
}

} // verus!
