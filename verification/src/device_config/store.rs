//! The stored form of the device table.

use crate::bounded::{new_params, slice_of, try_push, Items};
use crate::bytes::{get_le16, get_le32, hi, le16_at, le32_at, le32_bytes, le_bytes, lo, push_le16, push_le32};
use crate::device_config::types::{law_kind_of_code, DeviceType};
use crate::device_config::{DeviceConfigTable, DeviceEntry, EntryView, TableView, MAX_DEVICES, MAX_PARAMS};
use crate::math::lesser;
use vstd::prelude::*;

verus! {

/// Storage key of the table.
pub const NVS_KEY: &'static str = "dev_cfg";

/// First word of a stored table, "DEVC".
pub const MAGIC: u32 = 0x4445_5643;

/// Largest stored table.
pub const MAX_BLOB: usize = 1024;

/// Bytes of an entry without its parameters.
pub const HEAD_SIZE: usize = 9;

// ---- Writing ----

/// An entry without its parameters.
pub open spec fn entry_head(e: EntryView) -> Seq<u8> {
    seq![
        e.dev_type.code(),
        e.rs485_port,
        e.slave_id,
        e.func,
        lo(e.reg_addr),
        hi(e.reg_addr),
        lo(e.reg_count),
        hi(e.reg_count),
        e.params.len() as u8,
    ]
}

/// The stored form of the first `n` entries. An entry whose head does not fit ends
/// it; parameters that do not fit are left out.
pub open spec fn saved(devices: Seq<EntryView>, n: nat) -> Seq<u8>
    decreases n,
{
    if n == 0 {
        le32_bytes(MAGIC)
    } else {
        let b = saved(devices, (n - 1) as nat);
        let e = devices[n - 1];
        if b.len() + HEAD_SIZE > MAX_BLOB {
            b
        } else {
            b + entry_head(e) + le_bytes(
                e.params.take(lesser(e.params.len() as int, (MAX_BLOB - b.len() - HEAD_SIZE) / 2)),
            )
        }
    }
}

fn push_entry(out: &mut Vec<u8>, e: &DeviceEntry)
    requires
        old(out)@.len() + HEAD_SIZE <= MAX_BLOB,
    ensures
        final(out)@ == old(out)@ + entry_head(e@) + le_bytes(
            e@.params.take(lesser(e@.params.len() as int, (MAX_BLOB - old(out)@.len() - HEAD_SIZE) / 2)),
        ),
        final(out)@.len() <= MAX_BLOB,
{
    let params = slice_of(&e.params);
    out.push(e.dev_type.as_u8());
    out.push(e.rs485_port);
    out.push(e.slave_id);
    out.push(e.func);
    push_le16(out, e.reg_addr);
    push_le16(out, e.reg_count);
    out.push(params.len() as u8);
    let ghost head = out@;
    assert(head =~= old(out)@ + entry_head(e@));
    let room: usize = (MAX_BLOB - out.len()) / 2;
    let n: usize = if params.len() < room {
        params.len()
    } else {
        room
    };
    let mut i: usize = 0;
    assert(head + le_bytes(params@.take(0)) =~= head);
    while i < n
        invariant
            i <= n <= params@.len(),
            head.len() + 2 * n <= MAX_BLOB,
            out@ == head + le_bytes(params@.take(i as int)),
        decreases n - i,
    {
        push_le16(out, params[i]);
        i += 1;
        assert(out@ =~= head + le_bytes(params@.take(i as int)));
    }
}

// ---- Reading ----

/// Where the register count of an entry ends.
pub open spec fn count_end(b: Seq<u8>, pos: int) -> int {
    if pos + 8 <= b.len() {
        pos + 8
    } else {
        pos + 6
    }
}

/// Number of parameters that an entry has in the blob.
pub open spec fn param_count(b: Seq<u8>, pos: int) -> int {
    let p = count_end(b, pos);
    if p < b.len() {
        lesser(lesser(b[p] as int, MAX_PARAMS as int), (b.len() - p - 1) / 2)
    } else {
        0
    }
}

/// Where an entry ends.
pub open spec fn entry_end(b: Seq<u8>, pos: int) -> int {
    count_end(b, pos) + 1 + 2 * param_count(b, pos)
}

/// The entry at a position. A register count that is not there is 8; parameters that
/// are not there are missing.
pub open spec fn entry_at(b: Seq<u8>, pos: int) -> EntryView {
    EntryView {
        dev_type: DeviceType::of_code(b[pos]),
        rs485_port: b[pos + 1],
        slave_id: b[pos + 2],
        func: b[pos + 3],
        reg_addr: le16_at(b, pos + 4),
        reg_count: if pos + 8 <= b.len() {
            le16_at(b, pos + 6)
        } else {
            8
        },
        params: Seq::new(
            param_count(b, pos) as nat,
            |i: int| le16_at(b, count_end(b, pos) + 1 + 2 * i),
        ),
    }
}

/// The entries after those from `pos` on were added, as long as there is room.
pub open spec fn loaded(devices: Seq<EntryView>, b: Seq<u8>, pos: int) -> Seq<EntryView>
    decreases (if b.len() > pos {
        b.len() - pos
    } else {
        0
    }),
{
    if pos + 6 > b.len() {
        devices
    } else {
        let e = entry_at(b, pos);
        loaded(
            if devices.len() < MAX_DEVICES {
                devices.push(e)
            } else {
                devices
            },
            b,
            entry_end(b, pos),
        )
    }
}

/// Whether a blob is a stored table.
pub open spec fn is_table(b: Seq<u8>) -> bool {
    4 <= b.len() <= MAX_BLOB && le32_at(b, 0) == MAGIC
}

/// The table after a blob was loaded. One that is not a stored table changes nothing.
pub open spec fn table_loaded(t: TableView, blob: Option<Seq<u8>>) -> TableView {
    match blob {
        Some(b) => if is_table(b) {
            let devices = loaded(t.devices, b, 4);
            TableView { devices, stored_count: devices.len() as u16 }
        } else {
            t
        },
        None => t,
    }
}

fn read_params(b: &[u8], from: usize, n: usize) -> (r: heapless::Vec<u16, 32>)
    requires
        n <= 32,
        from + 2 * n <= b@.len() <= 1024 || n == 0,
    ensures
        r.items() == Seq::new(n as nat, |i: int| le16_at(b@, from + 2 * i)),
{
    let mut params = new_params();
    let mut i: usize = 0;
    while i < n
        invariant
            i <= n <= 32,
            from + 2 * n <= b@.len() <= 1024 || n == 0,
            params.items().len() == i,
            forall|j: int| 0 <= j < i ==> params.items()[j] == le16_at(b@, from + 2 * j),
        decreases n - i,
    {
        let _ = try_push(&mut params, get_le16(b, from + 2 * i));
        i += 1;
    }
    assert(params.items() =~= Seq::new(n as nat, |i: int| le16_at(b@, from + 2 * i)));
    params
}

fn read_entry(b: &[u8], pos: usize) -> (r: (DeviceEntry, usize))
    requires
        pos + 6 <= b@.len() <= 1024,
    ensures
        r.0@ == entry_at(b@, pos as int),
        r.1 == entry_end(b@, pos as int),
{
    let len: usize = b.len();
    let counted: bool = pos + 8 <= len;
    let reg_count: u16 = if counted {
        get_le16(b, pos + 6)
    } else {
        8
    };
    let at: usize = if counted {
        pos + 8
    } else {
        pos + 6
    };
    let mut n: usize = if at < len {
        b[at] as usize
    } else {
        0
    };
    if n > MAX_PARAMS {
        n = MAX_PARAMS;
    }
    if at < len && n > (len - at - 1) / 2 {
        n = (len - at - 1) / 2;
    }
    let params = read_params(b, at + 1, n);
    let e = DeviceEntry {
        dev_type: DeviceType::from_u8(b[pos]),
        rs485_port: b[pos + 1],
        slave_id: b[pos + 2],
        func: b[pos + 3],
        reg_addr: get_le16(b, pos + 4),
        reg_count,
        params,
    };
    assert(e@ =~= entry_at(b@, pos as int));
    (e, at + 1 + 2 * n)
}

pub open spec fn blob_view(blob: Option<&[u8]>) -> Option<Seq<u8>> {
    match blob {
        Some(b) => Some(b@),
        None => None,
    }
}

impl DeviceConfigTable {
    /// The stored form of the table.
    pub fn save(&self) -> (r: Vec<u8>)
        ensures
            r@ == saved(self@.devices, self@.devices.len()),
            r@.len() <= MAX_BLOB,
    {
        let entries = slice_of(&self.devices);
        let mut out: Vec<u8> = Vec::new();
        push_le32(&mut out, MAGIC);
        assert(out@ =~= le32_bytes(MAGIC));
        let mut i: usize = 0;
        while i < entries.len()
            invariant
                i <= entries@.len(),
                entries@ == self.devices.items(),
                out@ == saved(self@.devices, i as nat),
                out@.len() <= MAX_BLOB,
            decreases entries@.len() - i,
        {
            assert(self@.devices[i as int] == entries@[i as int]@);
            if out.len() + HEAD_SIZE <= MAX_BLOB {
                push_entry(&mut out, &entries[i]);
            }
            i += 1;
        }
        out
    }

    /// Adds the entries of a stored table.
    pub fn load(&mut self, blob: Option<&[u8]>)
        ensures
            final(self)@ == table_loaded(old(self)@, blob_view(blob)),
    {
        let b = match blob {
            Some(b) => b,
            None => {
                return;
            },
        };
        if b.len() < 4 || b.len() > MAX_BLOB || get_le32(b, 0) != MAGIC {
            return;
        }
        let mut pos: usize = 4;
        while pos + 6 <= b.len()
            invariant
                pos <= 1200,
                b@.len() <= 1024,
                self@.stored_count == old(self)@.stored_count,
                loaded(self@.devices, b@, pos as int) == loaded(old(self)@.devices, b@, 4),
            decreases (if b@.len() > pos {
                b@.len() - pos
            } else {
                0
            }),
        {
            let ghost before = self@.devices;
            let (e, next) = read_entry(b, pos);
            let room: bool = slice_of(&self.devices).len() < MAX_DEVICES;
            if room {
                let ghost v = e@;
                let _ = try_push(&mut self.devices, e);
                assert(self@.devices =~= before.push(v));
            }
            pos = next;
        }
        self.stored_count = slice_of(&self.devices).len() as u16;
        assert(self@ =~= table_loaded(old(self)@, blob_view(blob)));
    }
}

// ---- Laws ----

/// Size of the stored form of the first `n` entries, as if there were no limit.
pub open spec fn saved_size(devices: Seq<EntryView>, n: nat) -> int
    decreases n,
{
    if n == 0 {
        4
    } else {
        saved_size(devices, (n - 1) as nat) + HEAD_SIZE + 2 * devices[n - 1].params.len()
    }
}

proof fn lemma_sizes_grow(devices: Seq<EntryView>, n: nat, m: nat)
    requires
        n <= m <= devices.len(),
    ensures
        4 <= saved_size(devices, n) <= saved_size(devices, m),
    decreases m,
{
    if n < m {
        lemma_sizes_grow(devices, n, (m - 1) as nat);
    } else if m > 0 {
        lemma_sizes_grow(devices, (n - 1) as nat, (m - 1) as nat);
    }
}

proof fn lemma_saved_whole(devices: Seq<EntryView>, n: nat, m: nat)
    requires
        n <= m <= devices.len(),
        saved_size(devices, m) <= MAX_BLOB,
    ensures
        saved(devices, n).len() == saved_size(devices, n),
        n > 0 ==> saved(devices, n) == saved(devices, (n - 1) as nat) + entry_head(devices[n - 1]) + le_bytes(
            devices[n - 1].params,
        ),
    decreases n,
{
    lemma_sizes_grow(devices, n, m);
    if n > 0 {
        lemma_saved_whole(devices, (n - 1) as nat, m);
        let p = devices[n - 1].params;
        assert(p.take(p.len() as int) =~= p);
    }
}

proof fn lemma_saved_prefix(devices: Seq<EntryView>, n: nat, m: nat)
    requires
        n <= m <= devices.len(),
        saved_size(devices, m) <= MAX_BLOB,
    ensures
        saved(devices, n).len() <= saved(devices, m).len(),
        saved(devices, m).take(saved(devices, n).len() as int) == saved(devices, n),
    decreases m,
{
    if n < m {
        lemma_sizes_grow(devices, (m - 1) as nat, m);
        lemma_saved_prefix(devices, n, (m - 1) as nat);
        lemma_saved_whole(devices, m, m);
        let a = saved(devices, (m - 1) as nat);
        let k = saved(devices, n).len() as int;
        assert(saved(devices, m).take(k) =~= a.take(k));
    } else {
        assert(saved(devices, m).take(saved(devices, m).len() as int) =~= saved(devices, m));
    }
}

proof fn lemma_entry_found(devices: Seq<EntryView>, n: nat, m: nat)
    requires
        n < m <= devices.len(),
        saved_size(devices, m) <= MAX_BLOB,
        devices[n as int].dev_type.known(),
        devices[n as int].params.len() <= MAX_PARAMS,
    ensures
        ({
            let b = saved(devices, m);
            let pos = saved(devices, n).len() as int;
            &&& pos + 6 <= b.len()
            &&& entry_at(b, pos) == devices[n as int]
            &&& entry_end(b, pos) == saved(devices, n + 1).len()
        }),
{
    let b = saved(devices, m);
    let c = saved(devices, n + 1);
    let pos = saved(devices, n).len() as int;
    let e = devices[n as int];
    let h = entry_head(e);
    let w = le_bytes(e.params);
    lemma_saved_whole(devices, n + 1, m);
    lemma_saved_prefix(devices, n + 1, m);
    assert(forall|i: int| 0 <= i < c.len() ==> #[trigger] b[i] == c[i]) by {
        assert forall|i: int| 0 <= i < c.len() implies #[trigger] b[i] == c[i] by {
            assert(b.take(c.len() as int)[i] == b[i]);
        }
    }
    assert(forall|i: int| 0 <= i < 9 ==> #[trigger] c[pos + i] == h[i]);
    assert(forall|i: int| 0 <= i < w.len() ==> #[trigger] c[pos + 9 + i] == w[i]);
    assert forall|i: int| 0 <= i < 9 implies #[trigger] b[pos + i] == h[i] by {
        assert(b[pos + i] == c[pos + i]);
    }
    assert(b[pos + 0] == h[0] && b[pos + 4] == h[4] && b[pos + 5] == h[5] && b[pos + 6] == h[6] && b[pos + 7] == h[7]
        && b[pos + 8] == h[8]);
    assert(c.len() == pos + 9 + 2 * e.params.len());
    crate::bytes::law_word_of_bytes(e.reg_addr);
    crate::bytes::law_word_of_bytes(e.reg_count);
    law_kind_of_code(e.dev_type);
    assert(count_end(b, pos) == pos + 8);
    assert(param_count(b, pos) == e.params.len());
    assert forall|i: int| 0 <= i < e.params.len() implies le16_at(b, pos + 9 + 2 * i) == #[trigger] e.params[i] by {
        assert(b[pos + 9 + 2 * i] == c[pos + 9 + 2 * i]);
        assert(b[pos + 9 + (2 * i + 1)] == c[pos + 9 + (2 * i + 1)]);
        assert(c[pos + 9 + 2 * i] == w[2 * i]);
        assert(c[pos + 9 + (2 * i + 1)] == w[2 * i + 1]);
        crate::bytes::law_word_of_bytes(e.params[i]);
    }
    assert(entry_at(b, pos).params =~= e.params);
    assert(entry_at(b, pos) =~= e);
}

proof fn lemma_rest_loaded(devices: Seq<EntryView>, n: nat)
    requires
        n <= devices.len() <= MAX_DEVICES,
        saved_size(devices, devices.len()) <= MAX_BLOB,
        forall|i: int| 0 <= i < devices.len() ==> (#[trigger] devices[i]).dev_type.known(),
        forall|i: int| 0 <= i < devices.len() ==> (#[trigger] devices[i]).params.len() <= MAX_PARAMS,
    ensures
        loaded(devices.take(n as int), saved(devices, devices.len()), saved(devices, n).len() as int) == devices,
    decreases devices.len() - n,
{
    if n < devices.len() {
        lemma_entry_found(devices, n, devices.len());
        lemma_rest_loaded(devices, n + 1);
        assert(devices.take(n as int).push(devices[n as int]) =~= devices.take(n as int + 1));
    } else {
        assert(devices.take(n as int) =~= devices);
    }
}

proof fn lemma_saved_is_table(devices: Seq<EntryView>)
    requires
        saved_size(devices, devices.len()) <= MAX_BLOB,
    ensures
        is_table(saved(devices, devices.len())),
        saved(devices, 0).len() == 4,
{
    let b = saved(devices, devices.len());
    lemma_saved_prefix(devices, 0, devices.len());
    lemma_saved_whole(devices, devices.len(), devices.len());
    assert(saved(devices, 0) == le32_bytes(MAGIC));
    assert(b.take(4) == le32_bytes(MAGIC));
    assert(b[0] == b.take(4)[0] && b[1] == b.take(4)[1] && b[2] == b.take(4)[2] && b[3] == b.take(4)[3]);
    crate::bytes::law_dword_of_bytes(MAGIC);
}

/// A table that fits is stored and loaded without loss.
pub proof fn law_saved_table_loads(t: TableView)
    requires
        t.devices.len() <= MAX_DEVICES,
        saved_size(t.devices, t.devices.len()) <= MAX_BLOB,
        forall|i: int| 0 <= i < t.devices.len() ==> (#[trigger] t.devices[i]).dev_type.known(),
        forall|i: int| 0 <= i < t.devices.len() ==> (#[trigger] t.devices[i]).params.len() <= MAX_PARAMS,
    ensures
        table_loaded(
            TableView { devices: Seq::empty(), stored_count: 0 },
            Some(saved(t.devices, t.devices.len())),
        ) == (TableView { devices: t.devices, stored_count: t.devices.len() as u16 }),
{
    lemma_saved_is_table(t.devices);
    lemma_rest_loaded(t.devices, 0);
    assert(t.devices.take(0) =~= Seq::<EntryView>::empty());
    assert(loaded(Seq::empty(), saved(t.devices, t.devices.len()), 4) == t.devices);
}

} // verus!
