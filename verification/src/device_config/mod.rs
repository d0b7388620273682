//! The table of connected devices, mapped to registers from 2300 on.
//!
//! The first register holds a count; the words of the entries follow, one entry
//! after another.

use crate::bounded::{new_devices, new_params, shorten, slice_mut, slice_of, try_push, Items};
use crate::bytes::{hi, high, lo, low, make_word, word};
use vstd::prelude::*;

pub mod laws;
pub mod store;
pub mod types;

pub use types::{DeviceFunction, DeviceFunctionMeta, DeviceType};

verus! {

/// The register that holds the count.
pub const TABLE_BASE: u16 = 2300;

/// Most entries that the table holds.
pub const MAX_DEVICES: usize = 32;

/// Most parameters of an entry.
pub const MAX_PARAMS: usize = 32;

/// A connected device.
pub struct DeviceEntry {
    pub dev_type: DeviceType,
    pub rs485_port: u8,
    pub slave_id: u8,
    pub func: u8,
    pub reg_addr: u16,
    pub reg_count: u16,
    pub params: heapless::Vec<u16, 32>,
}

/// A connected device as plain values.
#[verifier::ext_equal]
pub struct EntryView {
    pub dev_type: DeviceType,
    pub rs485_port: u8,
    pub slave_id: u8,
    pub func: u8,
    pub reg_addr: u16,
    pub reg_count: u16,
    pub params: Seq<u16>,
}

impl View for DeviceEntry {
    type V = EntryView;

    open spec fn view(&self) -> EntryView {
        EntryView {
            dev_type: self.dev_type,
            rs485_port: self.rs485_port,
            slave_id: self.slave_id,
            func: self.func,
            reg_addr: self.reg_addr,
            reg_count: self.reg_count,
            params: self.params.items(),
        }
    }
}

/// The table of connected devices.
pub struct DeviceConfigTable {
    pub devices: heapless::Vec<DeviceEntry, 32>,
    /// The count that was written; it need not be the number of entries.
    pub stored_count: u16,
}

/// The table as plain values.
#[verifier::ext_equal]
pub struct TableView {
    pub devices: Seq<EntryView>,
    pub stored_count: u16,
}

pub open spec fn entries_view(devices: Seq<DeviceEntry>) -> Seq<EntryView> {
    devices.map_values(|e: DeviceEntry| e@)
}

impl View for DeviceConfigTable {
    type V = TableView;

    open spec fn view(&self) -> TableView {
        TableView { devices: entries_view(self.devices.items()), stored_count: self.stored_count }
    }
}

// ---- Words ----

/// The words of an entry: kind and port, unit and function, address, count, number
/// of parameters, parameters.
pub open spec fn entry_words(e: EntryView) -> Seq<u16> {
    seq![
        word(e.rs485_port, e.dev_type.code()),
        word(e.func, e.slave_id),
        e.reg_addr,
        e.reg_count,
        e.params.len() as u16,
    ] + e.params
}

/// The words of the entries, one after another.
pub open spec fn table_words(devices: Seq<EntryView>) -> Seq<u16>
    decreases devices.len(),
{
    if devices.len() == 0 {
        Seq::empty()
    } else {
        entry_words(devices[0]) + table_words(devices.drop_first())
    }
}

/// The value of a register of the table.
pub open spec fn table_read(t: TableView, addr: u16) -> Option<u16> {
    let words = table_words(t.devices);
    if addr == TABLE_BASE {
        Some(t.stored_count)
    } else if 0 <= addr - TABLE_BASE - 1 < words.len() {
        Some(words[addr - TABLE_BASE - 1])
    } else {
        None
    }
}

/// The entry that holds word `off`, or the number of entries.
pub open spec fn place(devices: Seq<EntryView>, off: int) -> int
    decreases devices.len(),
{
    if devices.len() == 0 || off < entry_words(devices[0]).len() {
        0
    } else {
        1 + place(devices.drop_first(), off - entry_words(devices[0]).len())
    }
}

/// An entry after its word `i` was written. The number of parameters cannot be
/// changed this way.
pub open spec fn entry_written(e: EntryView, i: int, v: u16) -> EntryView {
    if i == 0 {
        EntryView { dev_type: DeviceType::of_code(lo(v)), rs485_port: hi(v), ..e }
    } else if i == 1 {
        EntryView { slave_id: lo(v), func: hi(v), ..e }
    } else if i == 2 {
        EntryView { reg_addr: v, ..e }
    } else if i == 3 {
        EntryView { reg_count: v, ..e }
    } else if i == 4 {
        e
    } else {
        EntryView { params: e.params.update(i - 5, v), ..e }
    }
}

/// A new entry, of which only kind and port are given.
pub open spec fn entry_new(v: u16) -> EntryView {
    EntryView {
        dev_type: DeviceType::of_code(lo(v)),
        rs485_port: hi(v),
        slave_id: 1,
        func: 3,
        reg_addr: 0,
        reg_count: 8,
        params: Seq::empty(),
    }
}

/// The table after a register was written, or `None` where it refuses. A count cuts
/// the table; the word behind the last entry starts a new one.
pub open spec fn table_write(t: TableView, addr: u16, v: u16) -> Option<TableView> {
    let off = addr - TABLE_BASE - 1;
    let n = table_words(t.devices).len();
    if addr == TABLE_BASE {
        Some(
            TableView {
                devices: if v < t.devices.len() {
                    t.devices.take(v as int)
                } else {
                    t.devices
                },
                stored_count: v,
            },
        )
    } else if off < n {
        let k = place(t.devices, off);
        let i = off - table_words(t.devices.take(k)).len();
        Some(TableView { devices: t.devices.update(k, entry_written(t.devices[k], i, v)), ..t })
    } else if off == n && t.devices.len() < MAX_DEVICES {
        Some(TableView { devices: t.devices.push(entry_new(v)), ..t })
    } else {
        None
    }
}

pub(crate) proof fn lemma_words_step(devices: Seq<EntryView>, i: int)
    requires
        0 <= i < devices.len(),
    ensures
        table_words(devices.skip(i)) == entry_words(devices[i]) + table_words(devices.skip(i + 1)),
{
    assert(devices.skip(i).drop_first() =~= devices.skip(i + 1));
    assert(devices.skip(i)[0] == devices[i]);
}

/// The words of the first entries, then those of the others.
pub(crate) proof fn lemma_words_split(devices: Seq<EntryView>, i: int)
    requires
        0 <= i <= devices.len(),
    ensures
        table_words(devices) == table_words(devices.take(i)) + table_words(devices.skip(i)),
    decreases i,
{
    if i == 0 {
        assert(devices.take(0) =~= Seq::empty());
        assert(devices.skip(0) =~= devices);
        assert(table_words(devices.take(0)) + table_words(devices) =~= table_words(devices));
    } else {
        lemma_words_split(devices.drop_first(), i - 1);
        assert(devices.drop_first().take(i - 1) =~= devices.take(i).drop_first());
        assert(devices.drop_first().skip(i - 1) =~= devices.skip(i));
        assert(devices.take(i)[0] == devices[0]);
        assert(entry_words(devices[0]) + (table_words(devices.take(i).drop_first()) + table_words(devices.skip(i)))
            =~= (entry_words(devices[0]) + table_words(devices.take(i).drop_first())) + table_words(devices.skip(i)));
    }
}

proof fn lemma_place_step(devices: Seq<EntryView>, i: int, off: int)
    requires
        0 <= i < devices.len(),
    ensures
        place(devices.skip(i), off) == if off < entry_words(devices[i]).len() {
            0
        } else {
            1 + place(devices.skip(i + 1), off - entry_words(devices[i]).len())
        },
{
    assert(devices.skip(i).drop_first() =~= devices.skip(i + 1));
    assert(devices.skip(i)[0] == devices[i]);
}

impl Default for DeviceConfigTable {
    fn default() -> (r: Self)
        ensures
            r@ == (TableView { devices: Seq::empty(), stored_count: 0 }),
    {
        Self::new()
    }
}

impl DeviceConfigTable {
    pub fn new() -> (r: Self)
        ensures
            r@ == (TableView { devices: Seq::empty(), stored_count: 0 }),
    {
        let r = DeviceConfigTable { devices: new_devices(), stored_count: 0 };
        assert(r@.devices =~= Seq::empty());
        r
    }

    /// Number of entries.
    pub fn len(&self) -> (r: usize)
        ensures
            r == self@.devices.len(),
            r <= MAX_DEVICES,
    {
        slice_of(&self.devices).len()
    }

    /// The entry that holds word `off` and its first word's position, or the number
    /// of entries and the number of words.
    fn locate(&self, off: usize) -> (r: (usize, usize))
        ensures
            r.0 == place(self@.devices, off as int),
            r.0 <= self@.devices.len(),
            r.1 == table_words(self@.devices.take(r.0 as int)).len(),
            r.0 < self@.devices.len() <==> off < table_words(self@.devices).len(),
            r.0 < self@.devices.len() ==> r.1 <= off < r.1 + entry_words(self@.devices[r.0 as int]).len(),
    {
        let entries = slice_of(&self.devices);
        let ghost d = self@.devices;
        let mut i: usize = 0;
        let mut pos: usize = 0;
        assert(d.skip(0) =~= d);
        assert(d.take(0) =~= Seq::empty());
        while i < entries.len() && off - pos >= 5 + slice_of(&entries[i].params).len()
            invariant
                i <= d.len() <= 32,
                d.len() == entries@.len(),
                d == self@.devices,
                forall|j: int| 0 <= j < d.len() ==> #[trigger] d[j] == entries@[j]@,
                pos <= off,
                pos <= 37 * i,
                pos == table_words(d.take(i as int)).len(),
                place(d, off as int) == i + place(d.skip(i as int), off - pos),
            decreases d.len() - i,
        {
            let n: usize = slice_of(&entries[i].params).len();
            proof {
                assert(d[i as int] == entries@[i as int]@);
                lemma_place_step(d, i as int, off - pos);
                lemma_words_split(d.take(i + 1), i as int);
                assert(d.take(i + 1).take(i as int) =~= d.take(i as int));
                assert(d.take(i + 1).skip(i as int) =~= seq![d[i as int]]);
                lemma_words_step(seq![d[i as int]], 0);
                assert(seq![d[i as int]].skip(0) =~= seq![d[i as int]]);
                assert(seq![d[i as int]].skip(1) =~= Seq::empty());
            }
            pos = pos + 5 + n;
            i += 1;
        }
        proof {
            lemma_words_split(d, i as int);
            if i < d.len() {
                assert(d[i as int] == entries@[i as int]@);
                lemma_place_step(d, i as int, off - pos);
                lemma_words_step(d, i as int);
            } else {
                assert(d.skip(i as int) =~= Seq::empty());
            }
        }
        (i, pos)
    }

    /// Reads a register of the table.
    pub fn read_reg(&self, addr: u16) -> (r: Option<u16>)
        requires
            addr >= TABLE_BASE,
        ensures
            r == table_read(self@, addr),
    {
        if addr == TABLE_BASE {
            return Some(self.stored_count);
        }
        let off: usize = (addr - TABLE_BASE - 1) as usize;
        let at = self.locate(off);
        let entries = slice_of(&self.devices);
        if at.0 >= entries.len() {
            return None;
        }
        let e = &entries[at.0];
        let params = slice_of(&e.params);
        let i: usize = off - at.1;
        proof {
            let d = self@.devices;
            assert(d[at.0 as int] == e@);
            lemma_words_split(d, at.0 as int);
            lemma_words_step(d, at.0 as int);
        }
        Some(
            match i {
                0 => make_word(e.rs485_port, e.dev_type.as_u8()),
                1 => make_word(e.func, e.slave_id),
                2 => e.reg_addr,
                3 => e.reg_count,
                4 => params.len() as u16,
                _ => params[i - 5],
            },
        )
    }

    /// Writes a register of the table.
    pub fn write_reg(&mut self, addr: u16, value: u16) -> (r: bool)
        requires
            addr >= TABLE_BASE,
        ensures
            r == (table_write(old(self)@, addr, value) is Some),
            final(self)@ == match table_write(old(self)@, addr, value) {
                Some(t) => t,
                None => old(self)@,
            },
    {
        if addr == TABLE_BASE {
            self.stored_count = value;
            shorten(&mut self.devices, value as usize);
            assert(self@ =~= table_write(old(self)@, addr, value)->0);
            return true;
        }
        let off: usize = (addr - TABLE_BASE - 1) as usize;
        let at = self.locate(off);
        let n: usize = self.len();
        if at.0 < n {
            let i: usize = off - at.1;
            let ghost d = self@.devices;
            let e = &mut slice_mut(&mut self.devices)[at.0];
            match i {
                0 => {
                    e.dev_type = DeviceType::from_u8(low(value));
                    e.rs485_port = high(value);
                },
                1 => {
                    e.slave_id = low(value);
                    e.func = high(value);
                },
                2 => {
                    e.reg_addr = value;
                },
                3 => {
                    e.reg_count = value;
                },
                4 => {},
                _ => {
                    slice_mut(&mut e.params)[i - 5] = value;
                },
            }
            assert(self@ =~= table_write(old(self)@, addr, value)->0);
            return true;
        }
        if off == at.1 && n < MAX_DEVICES {
            let e = DeviceEntry {
                dev_type: DeviceType::from_u8(low(value)),
                rs485_port: high(value),
                slave_id: 1,
                func: 3,
                reg_addr: 0,
                reg_count: 8,
                params: new_params(),
            };
            let _ = try_push(&mut self.devices, e);
            assert(old(self)@.devices.take(at.0 as int) =~= old(self)@.devices);
            assert(self@ =~= table_write(old(self)@, addr, value)->0);
            return true;
        }
        assert(old(self)@.devices.take(at.0 as int) =~= old(self)@.devices);
        false
    }

    /// What the bus master polls, entry by entry.
    pub fn poll_entries(&self) -> (r: Vec<PollEntry>)
        ensures
            r@ == self@.devices.map_values(|e: EntryView| poll_of(e)),
    {
        let entries = slice_of(&self.devices);
        let mut out: Vec<PollEntry> = Vec::new();
        let mut i: usize = 0;
        while i < entries.len()
            invariant
                i <= entries@.len(),
                entries@ == self.devices.items(),
                out@.len() == i,
                forall|j: int| 0 <= j < i ==> out@[j] == poll_of(#[trigger] entries@[j]@),
            decreases entries@.len() - i,
        {
            let e = &entries[i];
            out.push(
                PollEntry {
                    port: e.rs485_port,
                    slave: e.slave_id,
                    func: e.func,
                    addr: e.reg_addr,
                    count: e.reg_count,
                },
            );
            i += 1;
        }
        assert(out@ =~= self@.devices.map_values(|e: EntryView| poll_of(e)));
        out
    }
}

/// What the bus master polls.
#[derive(Clone, Copy, Debug, PartialEq, Eq, Structural)]
pub struct PollEntry {
    pub port: u8,
    pub slave: u8,
    pub func: u8,
    pub addr: u16,
    pub count: u16,
}

/// What the bus master polls for an entry.
pub open spec fn poll_of(e: EntryView) -> PollEntry {
    PollEntry { port: e.rs485_port, slave: e.slave_id, func: e.func, addr: e.reg_addr, count: e.reg_count }
}

} // verus!
