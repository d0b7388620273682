//! Conversion of analogue values to engineering units.

use crate::control_logic::table::AnalogChannel;
use vstd::arithmetic::power2::{lemma2_to64, lemma_pow2_unfold, pow2};
use vstd::prelude::*;

verus! {

/// The first doubling of `x` that has a 24-bit hundredth, and the number of
/// doublings.
pub open spec fn doubled(x: nat, s: nat) -> (nat, nat)
    decreases
            (if x < 838_860_800 {
                838_860_800 - x
            } else {
                0
            }),
{
    if x == 0 || x >= 838_860_800 {
        (x, s)
    } else {
        doubled(2 * x, s + 1)
    }
}

/// `x / 100` rounded to the nearest integer, a tie to the even one.
pub open spec fn nearest_hundredth(x: nat) -> nat {
    let (q, r) = (x / 100, x % 100);
    if r > 50 || (r == 50 && q % 2 == 1) {
        q + 1
    } else {
        q
    }
}

/// The single-precision pattern of `n / 100`: exponent and mantissa of the
/// nearest representable number.
pub open spec fn single_of_hundredths(n: nat) -> u32 {
    if n == 0 {
        0
    } else {
        let (x, s) = doubled(n, 0);
        ((150 - s) * 0x80_0000 + nearest_hundredth(x) - 0x80_0000) as u32
    }
}

/// A positive number reaches the range within the given number of doublings.
proof fn lemma_doublings(x: nat, s: nat, k: nat)
    requires
        0 < x < 1_677_721_600,
        x * pow2(k) >= 838_860_800,
    ensures
        838_860_800 <= doubled(x, s).0 < 1_677_721_600,
        s <= doubled(x, s).1 <= s + k,
    decreases k,
{
    lemma2_to64();
    if x < 838_860_800 {
        assert(k > 0) by {
            assert(x * 1 == x);
        }
        lemma_pow2_unfold(k);
        assert((2 * x) * pow2((k - 1) as nat) == x * (2 * pow2(
            (k - 1) as nat,
        ))) by (nonlinear_arith);
        lemma_doublings(2 * x, s + 1, (k - 1) as nat);
    }
}

/// Single-precision pattern of a number of hundredths.
pub fn hundredths_to_single(n: u32) -> (r: u32)
    requires
        n <= 6_553_500,
    ensures
        r == single_of_hundredths(n as nat),
{
    if n == 0 {
        return 0;
    }
    let mut x: u32 = n;
    let mut s: u32 = 0;
    proof {
        lemma2_to64();
        assert(n * pow2(30) >= 838_860_800) by (nonlinear_arith)
            requires
                n >= 1,
                pow2(30) == 1_073_741_824,
        ;
        lemma_doublings(n as nat, 0, 30);
    }
    while x < 838_860_800
        invariant
            0 < x < 1_677_721_600,
            s <= 30,
            doubled(n as nat, 0) == doubled(x as nat, s as nat),
            838_860_800 <= doubled(n as nat, 0).0 < 1_677_721_600,
            doubled(n as nat, 0).1 <= 30,
        decreases 1_677_721_600 - x,
    {
        proof {
            lemma_more_doublings(2 * x as nat, s as nat + 1);
        }
        x = x * 2;
        s = s + 1;
    }
    let q: u32 = x / 100;
    let r: u32 = x % 100;
    let m: u32 = if r > 50 || (r == 50 && q % 2 == 1) {
        q + 1
    } else {
        q
    };
    (150 - s) * 0x80_0000 + (m - 0x80_0000)
}

/// Doubling only counts up.
proof fn lemma_more_doublings(x: nat, s: nat)
    ensures
        doubled(x, s).1 >= s,
    decreases
            (if x < 838_860_800 {
                838_860_800 - x
            } else {
                0
            }),
{
    if x != 0 && x < 838_860_800 {
        lemma_more_doublings(2 * x, s + 1);
    }
}

/// The pattern is that of the nearest number: its mantissa is within half a unit
/// of the exact value, and has 24 bits.
pub proof fn law_single_is_nearest(n: nat)
    requires
        0 < n <= 6_553_500,
    ensures
        ({
            let (x, s) = doubled(n, 0);
            let m = nearest_hundredth(x);
            &&& s <= 30
            &&& 0x80_0000 <= m <= 0x100_0000
            &&& -50 <= 100 * m - x <= 50
            &&& (100 * m - x == 50 || 100 * m - x == -50) ==> m % 2 == 0
        }),
{
    lemma2_to64();
    assert(n * pow2(30) >= 838_860_800) by (nonlinear_arith)
        requires
            n >= 1,
            pow2(30) == 1_073_741_824,
    ;
    lemma_doublings(n, 0, 30);
}

impl AnalogChannel {
    /// Input value of the lower end of the range.
    pub open spec fn input_min(self) -> int {
        4096 * self.unit_minimum / self.reference as int
    }

    /// Input value of the upper end of the range.
    pub open spec fn input_max(self) -> int {
        4096 * self.unit_maximum / self.reference as int - 1
    }

    /// Whether a value is converted: the channel has a range, and the range is
    /// wide enough to be told apart.
    pub open spec fn converts(self) -> bool {
        self.ranged() && self.input_max() > self.input_min()
    }

    /// The engineering value in hundredths: the value, held to the input range,
    /// mapped onto the output range.
    pub open spec fn hundredths(self, raw: u16) -> int {
        let input = if raw < self.input_min() {
            self.input_min()
        } else if raw > self.input_max() {
            self.input_max()
        } else {
            raw as int
        };
        (input - self.input_min()) * (100 * self.maximum - 100 * self.minimum) / (self.input_max()
            - self.input_min()) + 100 * self.minimum
    }

    /// The words that a value is published as.
    pub open spec fn published(self, raw: u16) -> Seq<u16> {
        if self.converts() {
            let bits = single_of_hundredths(self.hundredths(raw) as nat);
            seq![(bits / 65536) as u16, (bits % 65536) as u16]
        } else {
            seq![raw]
        }
    }

    /// The words that a value is published as, and their number.
    pub fn encode(self, raw: u16) -> (r: ([u16; 2], usize))
        requires
            self.ranged() ==> self.reference != 0,
        ensures
            r.1 == self.published(raw).len(),
            r.0@.take(r.1 as int) == self.published(raw),
            r.1 == 1 ==> r.0@[1] == 0,
    {
        if !self.has_engineering_range() {
            let words: [u16; 2] = [raw, 0];
            assert(words@.take(1) =~= self.published(raw));
            return (words, 1);
        }
        let reference: u64 = self.reference as u64;
        let low_end: u64 = 4096 * (self.unit_minimum as u64) / reference;
        let high_end: u64 = 4096 * (self.unit_maximum as u64) / reference;
        proof {
            assert(0 <= low_end <= 4096 * 65535) by (nonlinear_arith)
                requires
                    low_end == (4096 * self.unit_minimum) / (reference as int),
                    reference >= 1,
                    self.unit_minimum <= 65535,
            ;
            assert(0 <= high_end <= 4096 * 65535) by (nonlinear_arith)
                requires
                    high_end == (4096 * self.unit_maximum) / (reference as int),
                    reference >= 1,
                    self.unit_maximum <= 65535,
            ;
        }
        if high_end <= low_end + 1 {
            let words: [u16; 2] = [raw, 0];
            assert(words@.take(1) =~= self.published(raw));
            return (words, 1);
        }
        let top: u64 = high_end - 1;
        let v: u64 = raw as u64;
        let input: u64 = if v < low_end {
            low_end
        } else if v > top {
            top
        } else {
            v
        };
        let out: u64 = 100 * ((self.maximum - self.minimum) as u64);
        let run: u64 = top - low_end;
        let part: u64 = input - low_end;
        proof {
            assert(part <= 65535);
            assert(part * out <= 65535 * 6_553_500) by (nonlinear_arith)
                requires
                    part <= 65535,
                    out <= 6_553_500,
            ;
            assert(0 <= part * out / (run as int) <= out) by (nonlinear_arith)
                requires
                    0 <= part <= run,
                    run > 0,
                    out >= 0,
            ;
        }
        let scaled: u64 = part * out / run + 100 * (self.minimum as u64);
        assert(scaled == self.hundredths(raw));
        let bits: u32 = hundredths_to_single(scaled as u32);
        let words: [u16; 2] = [(bits / 65536) as u16, (bits % 65536) as u16];
        assert(words@.take(2) =~= self.published(raw));
        (words, 2)
    }
}

/// A converted value lies in the output range of its channel.
pub proof fn law_value_in_range(c: AnalogChannel, raw: u16)
    requires
        c.reference != 0,
        c.converts(),
    ensures
        100 * c.minimum <= c.hundredths(raw) <= 100 * c.maximum,
{
    let (lo, hi) = (c.input_min(), c.input_max());
    let input = if raw < lo {
        lo
    } else if raw > hi {
        hi
    } else {
        raw as int
    };
    let out = 100 * c.maximum - 100 * c.minimum;
    assert(0 <= (input - lo) * out / (hi - lo) <= out) by (nonlinear_arith)
        requires
            0 <= input - lo <= hi - lo,
            hi - lo > 0,
            out >= 0,
    ;
}

} // verus!
