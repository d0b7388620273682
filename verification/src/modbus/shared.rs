//! Checksum of RTU frames and error counters of the serial ports.

use vstd::prelude::*;

verus! {

/// One bit of the checksum: polynomial 0xA001, least significant bit first.
pub open spec fn crc16_bit(crc: u16) -> u16 {
    if crc & 1 != 0 {
        (crc >> 1) ^ 0xA001
    } else {
        crc >> 1
    }
}

/// `n` bits of the checksum.
pub open spec fn crc16_bits(crc: u16, n: nat) -> u16
    decreases n,
{
    if n == 0 {
        crc
    } else {
        crc16_bit(crc16_bits(crc, (n - 1) as nat))
    }
}

/// The checksum after all bytes, from 0xFFFF.
pub open spec fn crc16(data: Seq<u8>) -> u16
    decreases data.len(),
{
    if data.len() == 0 {
        0xFFFF
    } else {
        crc16_bits(crc16(data.drop_last()) ^ (data.last() as u16), 8)
    }
}

/// Checksum of an RTU frame.
pub fn modbus_crc16(data: &[u8]) -> (r: u16)
    ensures
        r == crc16(data@),
{
    let mut crc: u16 = 0xFFFF;
    let mut i: usize = 0;
    assert(data@.take(0) =~= Seq::<u8>::empty());
    while i < data.len()
        invariant
            i <= data@.len(),
            crc == crc16(data@.take(i as int)),
        decreases data@.len() - i,
    {
        proof {
            assert(data@.take(i + 1).drop_last() =~= data@.take(i as int));
            assert(data@.take(i + 1).last() == data@[i as int]);
        }
        let start: u16 = crc ^ (data[i] as u16);
        crc = start;
        let mut k: usize = 0;
        while k < 8
            invariant
                k <= 8,
                crc == crc16_bits(start, k as nat),
            decreases 8 - k,
        {
            if crc & 1 != 0 {
                crc = (crc >> 1) ^ 0xA001;
            } else {
                crc = crc >> 1;
            }
            k += 1;
        }
        i += 1;
    }
    assert(data@.take(data@.len() as int) =~= data@);
    crc
}

/// Communication and application error counters of the serial ports.
#[derive(Clone, Copy)]
pub struct Rs485Stats {
    pub comerr: [u16; 3],
    pub apperr: [u16; 3],
}

/// The counters as sequences.
#[verifier::ext_equal]
pub struct Rs485StatsView {
    pub comerr: Seq<u16>,
    pub apperr: Seq<u16>,
}

impl View for Rs485Stats {
    type V = Rs485StatsView;

    open spec fn view(&self) -> Rs485StatsView {
        Rs485StatsView { comerr: self.comerr@, apperr: self.apperr@ }
    }
}

impl Rs485Stats {
    pub fn new() -> (r: Self)
        ensures
            r@ == (Rs485StatsView {
                comerr: Seq::new(3, |i: int| 0u16),
                apperr: Seq::new(3, |i: int| 0u16),
            }),
    {
        let r = Rs485Stats { comerr: [0u16; 3], apperr: [0u16; 3] };
        assert(r@.comerr =~= Seq::new(3, |i: int| 0u16));
        assert(r@.apperr =~= Seq::new(3, |i: int| 0u16));
        r
    }

    /// Communication errors of a port.
    pub fn port_comerr(&self, port: usize) -> (r: u16)
        requires
            port < 3,
        ensures
            r == self@.comerr[port as int],
    {
        self.comerr[port]
    }

    /// Application errors of a port.
    pub fn port_apperr(&self, port: usize) -> (r: u16)
        requires
            port < 3,
        ensures
            r == self@.apperr[port as int],
    {
        self.apperr[port]
    }
}


// ---- Laws ----

proof fn lemma_low_bits_shift_out(x: u16, k: nat)
    requires
        x & 0xFF == 0,
        k <= 8,
    ensures
        crc16_bits(x, k) == x >> (k as u16),
    decreases k,
{
    if k == 0 {
        assert(x >> 0u16 == x) by (bit_vector);
    } else {
        lemma_low_bits_shift_out(x, (k - 1) as nat);
        let (a, b) = ((k - 1) as u16, k as u16);
        assert((x >> a) & 1 == 0 && (x >> a) >> 1 == x >> b) by (bit_vector)
            requires
                x & 0xFF == 0,
                a < 8,
                b == a + 1,
        ;
    }
}

/// Bytes with their checksum behind them, low byte first, have the checksum zero.
pub proof fn law_checksum_of_a_whole_frame_is_zero(body: Seq<u8>)
    ensures
        crc16(body.push((crc16(body) % 256) as u8).push((crc16(body) / 256) as u8)) == 0,
{
    let c = crc16(body);
    let (l, h) = ((c % 256) as u8, (c / 256) as u8);
    let first = body.push(l);
    let whole = first.push(h);
    assert(first.drop_last() =~= body);
    assert(whole.drop_last() =~= first);
    let low = l as u16;
    let high = h as u16;
    let x = c ^ low;
    assert(x & 0xFF == 0 && x >> 8 == high) by (bit_vector)
        requires
            x == c ^ low,
            low == c % 256,
            high == c / 256,
    ;
    lemma_low_bits_shift_out(x, 8);
    assert(crc16(first) == high);
    assert(high ^ high == 0) by (bit_vector);
    assert(0u16 & 0xFF == 0) by (bit_vector);
    lemma_low_bits_shift_out(0, 8);
    assert(0u16 >> 8u16 == 0) by (bit_vector);
}

} // verus!
