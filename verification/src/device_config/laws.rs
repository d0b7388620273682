//! Laws of the device table.

use crate::bytes::{law_word_of_bytes, lo};
use crate::device_config::store::{entry_at, entry_end, saved};
use crate::device_config::types::{law_code_of_kind, DeviceType};
use crate::device_config::{
    entry_new, entry_words, entry_written, lemma_words_split, lemma_words_step, place, table_read, table_words,
    table_write, EntryView, TableView, MAX_DEVICES, TABLE_BASE,
};
use vstd::prelude::*;

verus! {

/// The word of its entry that a register is.
pub open spec fn word_in_entry(t: TableView, addr: u16) -> int {
    let off = addr - TABLE_BASE - 1;
    off - table_words(t.devices.take(place(t.devices, off))).len()
}

proof fn lemma_place(devices: Seq<EntryView>, off: int)
    requires
        0 <= off < table_words(devices).len(),
    ensures
        ({
            let k = place(devices, off);
            let before = table_words(devices.take(k)).len();
            &&& 0 <= k < devices.len()
            &&& before <= off < before + entry_words(devices[k]).len()
        }),
    decreases devices.len(),
{
    let n = entry_words(devices[0]).len();
    if off < n {
        assert(devices.take(0) =~= Seq::empty());
    } else {
        lemma_place(devices.drop_first(), off - n);
        let k = place(devices, off);
        assert(devices.take(k).drop_first() =~= devices.drop_first().take(k - 1));
        assert(devices.take(k)[0] == devices[0]);
    }
}

proof fn lemma_update_words(devices: Seq<EntryView>, k: int, e: EntryView)
    requires
        0 <= k < devices.len(),
    ensures
        table_words(devices.update(k, e)) == table_words(devices.take(k)) + entry_words(e) + table_words(
            devices.skip(k + 1),
        ),
{
    let d = devices.update(k, e);
    lemma_words_split(d, k);
    lemma_words_step(d, k);
    assert(d.take(k) =~= devices.take(k));
    assert(d.skip(k + 1) =~= devices.skip(k + 1));
    assert(table_words(d) =~= table_words(devices.take(k)) + entry_words(e) + table_words(devices.skip(k + 1)));
}

proof fn lemma_entry_written(e: EntryView, i: int, v: u16)
    requires
        0 <= i < entry_words(e).len(),
        i != 4,
    ensures
        entry_words(entry_written(e, i, v)) == entry_words(e).update(i, v),
{
    law_word_of_bytes(v);
    law_code_of_kind(lo(v));
    assert(entry_words(entry_written(e, i, v)) =~= entry_words(e).update(i, v));
}

/// Writing a word of an entry changes that word and no other. The one word that
/// cannot be changed is the number of parameters.
pub proof fn law_word_written(t: TableView, addr: u16, v: u16)
    requires
        TABLE_BASE < addr,
        addr - TABLE_BASE - 1 < table_words(t.devices).len(),
    ensures
        table_write(t, addr, v) is Some,
        table_words(table_write(t, addr, v)->0.devices) == if word_in_entry(t, addr) == 4 {
            table_words(t.devices)
        } else {
            table_words(t.devices).update(addr - TABLE_BASE - 1, v)
        },
        table_write(t, addr, v)->0.stored_count == t.stored_count,
{
    let off = addr - TABLE_BASE - 1;
    lemma_place(t.devices, off);
    let k = place(t.devices, off);
    let i = word_in_entry(t, addr);
    let e = t.devices[k];
    lemma_update_words(t.devices, k, entry_written(e, i, v));
    lemma_update_words(t.devices, k, e);
    assert(t.devices.update(k, e) =~= t.devices);
    if i != 4 {
        lemma_entry_written(e, i, v);
        assert(table_words(table_write(t, addr, v)->0.devices) =~= table_words(t.devices).update(off, v));
    }
}

/// A word that was written reads back.
pub proof fn law_word_reads_back(t: TableView, addr: u16, v: u16)
    requires
        TABLE_BASE < addr,
        addr - TABLE_BASE - 1 < table_words(t.devices).len(),
        word_in_entry(t, addr) != 4,
    ensures
        table_write(t, addr, v) matches Some(n) && table_read(n, addr) == Some(v),
{
    law_word_written(t, addr, v);
}

/// The word behind the last entry starts a new entry, while there is room; the words
/// before it stay.
pub proof fn law_new_entry(t: TableView, addr: u16, v: u16)
    requires
        TABLE_BASE < addr,
        addr - TABLE_BASE - 1 == table_words(t.devices).len(),
    ensures
        table_write(t, addr, v) is Some <==> t.devices.len() < MAX_DEVICES,
        table_write(t, addr, v) matches Some(n) ==> table_words(n.devices) == table_words(t.devices) + entry_words(
            entry_new(v),
        ) && table_read(n, addr) == Some(v),
{
    if t.devices.len() < MAX_DEVICES {
        let d = t.devices.push(entry_new(v));
        let n = t.devices.len() as int;
        lemma_words_split(d, n);
        lemma_words_step(d, n);
        assert(d.take(n) =~= t.devices);
        assert(d.skip(n + 1) =~= Seq::empty());
        assert(table_words(d) =~= table_words(t.devices) + entry_words(entry_new(v)));
        law_word_of_bytes(v);
        law_code_of_kind(lo(v));
    }
}

/// A write behind the word that would start a new entry is refused.
pub proof fn law_gap_is_refused(t: TableView, addr: u16, v: u16)
    requires
        TABLE_BASE < addr,
        addr - TABLE_BASE - 1 > table_words(t.devices).len(),
    ensures
        table_write(t, addr, v) is None,
        table_read(t, addr) is None,
{
}

/// A count that was written reads back, and no more entries than it says remain.
pub proof fn law_count_cuts(t: TableView, v: u16)
    ensures
        table_write(t, TABLE_BASE, v) matches Some(n) && table_read(n, TABLE_BASE) == Some(v) && n.devices.len() <= v
            && n.devices.is_prefix_of(t.devices),
{
}


/// How many words some entries take: five each, and one for each parameter.
pub open spec fn words_of(devices: Seq<EntryView>, n: nat) -> int
    decreases n,
{
    if n == 0 {
        0
    } else {
        words_of(devices, (n - 1) as nat) + 5 + devices[n - 1].params.len()
    }
}

proof fn lemma_words_of(devices: Seq<EntryView>, k: nat)
    requires
        k <= devices.len(),
    ensures
        table_words(devices.take(k as int)).len() == words_of(devices, k),
    decreases k,
{
    if k > 0 {
        lemma_words_of(devices, (k - 1) as nat);
        let d = devices.take(k as int);
        lemma_words_split(d, k - 1);
        lemma_words_step(d, k - 1);
        assert(d.take(k - 1) =~= devices.take(k - 1));
        assert(d.skip(k as int) =~= Seq::empty());
        assert(d[k - 1] == devices[k - 1]);
    } else {
        assert(devices.take(0) =~= Seq::empty());
    }
}

/// The table shows its entries from 2301 on, one behind the other: kind and port, unit
/// and function, register, count, the number of parameters, and the parameters. 2300 is
/// the stored count.
pub proof fn law_entries_stand_in_their_words(t: TableView, k: int, p: int)
    requires
        0 <= k < t.devices.len(),
        0 <= p,
        2301 + words_of(t.devices, t.devices.len()) <= 0x1_0000,
        t.devices[k].params.len() <= 32,
    ensures
        ({
            let e = t.devices[k];
            let at = |i: int| table_read(t, (2301 + words_of(t.devices, k as nat) + i) as u16);
            &&& table_read(t, 2300) == Some(t.stored_count)
            &&& at(0) == Some((256 * e.rs485_port + e.dev_type.code()) as u16)
            &&& at(1) == Some((256 * e.func + e.slave_id) as u16)
            &&& at(2) == Some(e.reg_addr)
            &&& at(3) == Some(e.reg_count)
            &&& at(4) == Some(e.params.len() as u16)
            &&& p < e.params.len() ==> at(5 + p) == Some(e.params[p])
        }),
{
    lemma_words_of(t.devices, k as nat);
    lemma_words_of(t.devices, t.devices.len());
    assert(t.devices.take(t.devices.len() as int) =~= t.devices);
    lemma_words_split(t.devices, k);
    lemma_words_step(t.devices, k);
    let e = entry_words(t.devices[k]);
    let n = words_of(t.devices, k as nat);
    let all = table_words(t.devices);
    assert forall|i: int| 0 <= i < e.len() implies #[trigger] all[n + i] == e[i] by {}
    assert(all[n + 0] == e[0] && all[n + 1] == e[1] && all[n + 2] == e[2] && all[n + 3] == e[3] && all[n + 4] == e[4]);
    if p < t.devices[k].params.len() {
        assert(all[n + (5 + p)] == e[5 + p]);
    }
}

/// A new entry polls eight registers from 0 of unit 1 with function 3 and has no
/// parameters; kind and port are the low and the high byte that were written.
pub proof fn law_new_entry_polls_eight_registers(t: TableView, addr: u16, v: u16)
    requires
        TABLE_BASE < addr,
        addr - 2301 == table_words(t.devices).len(),
        t.devices.len() < 32,
    ensures
        ({
            let n = table_write(t, addr, v);
            let e = n->0.devices.last();
            &&& n is Some
            &&& n->0.devices.len() == t.devices.len() + 1
            &&& n->0.devices.take(t.devices.len() as int) == t.devices
            &&& e.dev_type.code() == v % 256
            &&& e.rs485_port == v / 256
            &&& e.slave_id == 1 && e.func == 3 && e.reg_addr == 0 && e.reg_count == 8 && e.params.len() == 0
        }),
{
    law_code_of_kind(lo(v));
    let n = table_write(t, addr, v)->0;
    assert(n.devices.take(t.devices.len() as int) =~= t.devices);
}

/// What is polled for an entry is what its words say.
pub proof fn law_entry_is_polled_as_it_says(e: EntryView)
    ensures
        ({
            let p = crate::device_config::poll_of(e);
            &&& p.port == e.rs485_port
            &&& p.slave == e.slave_id
            &&& p.func == e.func
            &&& p.addr == e.reg_addr
            &&& p.count == e.reg_count
        }),
{
}

/// The stored form of a table starts with "CVED"; an entry follows with nine bytes, the
/// last of which is the number of its parameters, and two bytes for each of them.
pub proof fn law_stored_entry_has_its_places(e: EntryView, p: int)
    requires
        e.params.len() <= 32,
        0 <= p,
    ensures
        ({
            let b = saved(seq![e], 1);
            &&& b.len() == 13 + 2 * e.params.len()
            &&& b[0] == 0x43 && b[1] == 0x56 && b[2] == 0x45 && b[3] == 0x44
            &&& b[4] == e.dev_type.code()
            &&& b[5] == e.rs485_port
            &&& b[6] == e.slave_id
            &&& b[7] == e.func
            &&& b[8] + 256 * b[9] == e.reg_addr
            &&& b[10] + 256 * b[11] == e.reg_count
            &&& b[12] == e.params.len()
            &&& p < e.params.len() ==> b[13 + 2 * p] + 256 * b[14 + 2 * p] == e.params[p]
        }),
{
    let d = seq![e];
    let b = saved(d, 1);
    assert(saved(d, 0) == crate::bytes::le32_bytes(0x4445_5643));
    assert(e.params.take(e.params.len() as int) =~= e.params);
    let words = crate::bytes::le_bytes(e.params);
    assert(b =~= crate::bytes::le32_bytes(0x4445_5643) + crate::device_config::store::entry_head(e) + words);
    law_word_of_bytes(e.reg_addr);
    law_word_of_bytes(e.reg_count);
    if p < e.params.len() {
        assert((2 * p) / 2 == p && (2 * p + 1) / 2 == p && (2 * p) % 2 == 0 && (2 * p + 1) % 2 == 1);
        assert(b[13 + 2 * p] == words[2 * p] && b[14 + 2 * p] == words[2 * p + 1]);
    }
}

/// The kinds of device and their codes, in order.
pub proof fn law_kinds_have_their_codes(t: DeviceType)
    ensures
        t is TrafficSignal2Pt ==> t.code() == 0,
        t is TrafficSignalGreenLock ==> t.code() == 1,
        t is TrafficSignalRedLock ==> t.code() == 2,
        t is TrafficSignal4Pt ==> t.code() == 3,
        t is TrafficSignal4PtInter ==> t.code() == 4,
        t is TrafficSignal4PtDual ==> t.code() == 5,
        t is TrafficSignal6Pt ==> t.code() == 6,
        t is TrafficSignal6Pt5 ==> t.code() == 7,
        t is TrafficTurnSingle ==> t.code() == 8,
        t is TrafficTurnDual ==> t.code() == 9,
        t is CrossHoleSignal ==> t.code() == 10,
        t is Signal3Light ==> t.code() == 11,
        t is Signal4Light ==> t.code() == 12,
        t is JetFan2Pt ==> t.code() == 13,
        t is JetFan3Pt ==> t.code() == 14,
        t is JetFan2PtInterlock ==> t.code() == 15,
        t is Blower2Pt ==> t.code() == 16,
        t is Blower1Pt ==> t.code() == 17,
        t is Lighting2Pt ==> t.code() == 18,
        t is Lighting1Pt ==> t.code() == 19,
        t is Pump2Pt ==> t.code() == 20,
        t is Pump1Pt ==> t.code() == 21,
        t is RollingShutter ==> t.code() == 22,
        t is FireDoor1Pt ==> t.code() == 23,
        t is FireDoor2Pt ==> t.code() == 24,
        t is CoviSensor ==> t.code() == 25,
        t is No2Sensor ==> t.code() == 26,
        t is CoviNo2Sensor ==> t.code() == 27,
        t is WindDirSpeed ==> t.code() == 28,
        t is HoleLightIntensity ==> t.code() == 29,
        t is OutLightIntensity ==> t.code() == 30,
        t is CarCheck ==> t.code() == 31,
        t is Rs485Config1 ==> t.code() == 32,
        t is Rs485Config2 ==> t.code() == 33,
        t is PositionNumber ==> t.code() == 34,
{
}


/// An entry of a stored table is read from its bytes. Parameters that are not there are
/// missing, and more than 32 are not read.
pub proof fn law_stored_entry_is_read(b: Seq<u8>, pos: int, i: int)
    requires
        0 <= pos,
        pos + 9 <= b.len(),
        0 <= i,
    ensures
        ({
            let e = entry_at(b, pos);
            let there = (b.len() - pos - 9) / 2;
            let n = if b[pos + 8] <= 32 {
                b[pos + 8] as int
            } else {
                32
            };
            &&& e.dev_type.code() == b[pos]
            &&& e.rs485_port == b[pos + 1]
            &&& e.slave_id == b[pos + 2]
            &&& e.func == b[pos + 3]
            &&& e.reg_addr == b[pos + 4] + 256 * b[pos + 5]
            &&& e.reg_count == b[pos + 6] + 256 * b[pos + 7]
            &&& e.params.len() == if n < there {
                n
            } else {
                there
            }
            &&& i < e.params.len() ==> e.params[i] == b[pos + 9 + 2 * i] + 256 * b[pos + 10 + 2 * i]
            &&& entry_end(b, pos) == pos + 9 + 2 * e.params.len()
        }),
{
    law_code_of_kind(b[pos]);
}

} // verus!
