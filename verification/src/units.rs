//! Byte counts for people, and the samples a transfer's speed is told from.

use crate::text::{cat3, decimal, number};
use std::collections::HashMap;
use vstd::prelude::*;
use vstd::string::*;

verus! {

broadcast use vstd::std_specs::hash::group_hash_axioms;

/// `n / d` rounded to the nearest whole number, halves to the even one.
pub open spec fn nearest(n: nat, d: nat) -> nat {
    let q = n / d;
    let r = n % d;
    if 2 * r > d || (2 * r == d && q % 2 == 1) {
        q + 1
    } else {
        q
    }
}

/// Numbers with 53 significant bits.
pub const PRECISE: u64 = 9007199254740992;

/// Distance of the numbers with 53 significant bits around `n`.
pub open spec fn grain(n: nat) -> nat
    decreases n,
{
    if n < PRECISE {
        1
    } else {
        2 * grain(n / 2)
    }
}

/// `n` rounded to 53 significant bits.
pub open spec fn precise(n: nat) -> nat {
    nearest(n, grain(n)) * grain(n)
}

/// How often a count is divided by 1024 to be shown: until it is below
/// 1024, and five times at most.
pub open spec fn unit_of(n: nat) -> nat {
    if n < 1024 {
        0
    } else if n < 1048576 {
        1
    } else if n < 1073741824 {
        2
    } else if n < 1099511627776 {
        3
    } else if n < 1125899906842624 {
        4
    } else {
        5
    }
}

/// The name of a unit.
pub open spec fn unit_name(unit: nat) -> Seq<char> {
    if unit == 0 {
        "B"@
    } else if unit == 1 {
        "KB"@
    } else if unit == 2 {
        "MB"@
    } else if unit == 3 {
        "GB"@
    } else if unit == 4 {
        "TB"@
    } else {
        "PB"@
    }
}

/// Bytes of one unit.
pub open spec fn unit_size(unit: nat) -> nat {
    if unit == 0 {
        1
    } else if unit == 1 {
        1024
    } else if unit == 2 {
        1048576
    } else if unit == 3 {
        1073741824
    } else if unit == 4 {
        1099511627776
    } else {
        1125899906842624
    }
}

/// A byte count as it is shown: whole bytes, or units with one decimal.
pub open spec fn bytes_text(bytes: nat) -> Seq<char> {
    let value = precise(bytes);
    let unit = unit_of(value);
    let tenths = nearest(value * 10, unit_size(unit));
    if unit == 0 {
        decimal(bytes) + " B"@
    } else {
        decimal(tenths / 10) + "."@ + decimal(tenths % 10) + " "@ + unit_name(unit)
    }
}

fn round_to(n: u128, d: u128) -> (r: u128)
    requires
        d > 0,
        n < 0x1_0000_0000_0000_0000_0000_0000,
        d < 0x1_0000_0000_0000_0000_0000_0000,
    ensures
        r == nearest(n as nat, d as nat),
        r <= n + 1,
{
    let q: u128 = n / d;
    let r: u128 = n % d;
    proof {
        assert(q <= n) by (nonlinear_arith)
            requires
                q == n / d,
                d > 0,
        ;
    }
    if 2 * r > d || (2 * r == d && q % 2 == 1) {
        q + 1
    } else {
        q
    }
}

fn grain_of(n: u64) -> (r: u64)
    ensures
        r == grain(n as nat),
        1 <= r <= 4096,
        n >= PRECISE ==> r <= n,
{
    let mut m: u64 = n;
    let mut g: u64 = 1;
    proof {
        assert(1 * grain(m as nat) == grain(m as nat)) by (nonlinear_arith);
    }
    while m >= PRECISE
        invariant
            g * grain(m as nat) == grain(n as nat),
            1 <= g,
            g * m <= n,
            g <= 4096,
            g > 1 ==> m * g >= PRECISE,
            m >= 4503599627370496 || m == n,
            m * g <= 0xffff_ffff_ffff_ffff,
        decreases m,
    {
        proof {
            let h = m / 2;
            assert(grain(m as nat) == 2 * grain(h as nat));
            assert(g * (2 * grain(h as nat)) == (2 * g) * grain(h as nat)) by (nonlinear_arith);
            assert((2 * g) * h <= g * m) by (nonlinear_arith)
                requires
                    h == m / 2,
                    g >= 1,
            ;
            assert(g < 2048) by (nonlinear_arith)
                requires
                    g * m <= 0xffff_ffff_ffff_ffff,
                    m >= 9007199254740992,
                    g >= 1,
            ;
            assert(h * (2 * g) >= 9007199254740992) by (nonlinear_arith)
                requires
                    h >= 4503599627370496,
                    g >= 1,
            ;
            assert(h * (2 * g) == (2 * g) * h) by (nonlinear_arith);
        }
        m = m / 2;
        g = g * 2;
    }
    proof {
        assert(grain(m as nat) == 1);
        assert(g * 1 == g) by (nonlinear_arith);
    }
    g
}

/// Human-readable byte count, e.g. `1.4 MB`.
pub fn format_bytes(bytes: u64) -> (r: String)
    ensures
        r@ == bytes_text(bytes as nat),
{
    let g: u128 = grain_of(bytes) as u128;
    let q: u128 = round_to(bytes as u128, g);
    proof {
        lemma_nearest_small(bytes as nat, g as nat);
        assert(q * g <= 0x2_0000_0000_0000_0000) by (nonlinear_arith)
            requires
                q * g <= bytes + g,
                bytes <= 0xffff_ffff_ffff_ffff,
                g <= 4096,
        ;
    }
    let value: u128 = q * g;
    if value < 1024 {
        proof {
            lemma_precise_small(bytes as nat);
        }
        return crate::text::cat(number(bytes).as_str(), " B");
    }
    let (size, name): (u128, &str) = if value < 1048576 {
        (1024, "KB")
    } else if value < 1073741824 {
        (1048576, "MB")
    } else if value < 1099511627776 {
        (1073741824, "GB")
    } else if value < 1125899906842624 {
        (1099511627776, "TB")
    } else {
        (1125899906842624, "PB")
    };
    let tenths: u128 = round_to(value * 10, size);
    proof {
        lemma_nearest_bound((value * 10) as nat, size as nat);
    }
    let mut text = cat3(number((tenths / 10) as u64).as_str(), ".", number((tenths % 10) as u64).as_str());
    text.append(" ");
    text.append(name);
    text
}

proof fn lemma_nearest_small(n: nat, d: nat)
    requires
        d > 0,
    ensures
        nearest(n, d) * d <= n + d,
{
    let q = n / d;
    assert(q * d <= n) by (nonlinear_arith)
        requires
            q == n / d,
            d > 0,
    ;
    assert((q + 1) * d == q * d + d) by (nonlinear_arith);
}

proof fn lemma_nearest_bound(n: nat, d: nat)
    requires
        d >= 1024,
        n <= 0x14_0000_0000_0000_0000,
    ensures
        nearest(n, d) <= 0x500_0000_0000_0000 + 1,
{
    assert(n / d <= 0x500_0000_0000_0000) by (nonlinear_arith)
        requires
            d >= 1024,
            n <= 0x14_0000_0000_0000_0000,
    ;
}

proof fn lemma_precise_small(n: nat)
    ensures
        n < PRECISE ==> precise(n) == n,
{
    if n < PRECISE {
        assert(grain(n) == 1);
        assert(n / 1 == n && n % 1 == 0);
        assert(n * 1 == n) by (nonlinear_arith);
    }
}

/// Per-transfer last-seen progress used to derive display speed.
pub struct TransferHistory {
    /// Bytes and nanoseconds of the last sample of each transfer.
    pub last: HashMap<u64, (u64, u64)>,
}

impl View for TransferHistory {
    type V = Map<u64, (u64, u64)>;

    open spec fn view(&self) -> Map<u64, (u64, u64)> {
        self.last@
    }
}

/// Nanoseconds two samples have to be apart.
pub const SAMPLE_GAP: u64 = 250000000;

/// Bytes and nanoseconds between the last sample and a new one, where they
/// are far enough apart and bytes were moved.
pub open spec fn progress_since(last: Option<(u64, u64)>, bytes: u64, now: u64) -> Option<(u64, u64)> {
    match last {
        Some((before, at)) => if now - at >= SAMPLE_GAP && bytes > before {
            Some(((bytes - before) as u64, (now - at) as u64))
        } else {
            None
        },
        None => None,
    }
}

impl TransferHistory {
    pub fn new() -> (r: Self)
        ensures
            r@ == Map::<u64, (u64, u64)>::empty(),
    {
        TransferHistory { last: HashMap::new() }
    }

    /// Bytes moved and nanoseconds passed since the last sample of a running
    /// transfer, for its speed to be told.  The first sample, and each one
    /// that tells a speed, is kept.
    pub fn speed(&mut self, id: u64, bytes: u64, now: u64) -> (r: Option<(u64, u64)>)
        ensures
            ({
                let known = old(self)@.contains_key(id);
                let last = if known {
                    Some(old(self)@[id])
                } else {
                    None
                };
                &&& r == progress_since(last, bytes, now)
                &&& final(self)@ == if !known || r is Some {
                    old(self)@.insert(id, (bytes, now))
                } else {
                    old(self)@
                }
            }),
    {
        let found = match self.last.get(&id) {
            Some(sample) => Some(*sample),
            None => None,
        };
        match found {
            Some((before, at)) => {
                if now >= at && now - at >= SAMPLE_GAP && bytes > before {
                    self.last.insert(id, (bytes, now));
                    Some((bytes - before, now - at))
                } else {
                    None
                }
            },
            None => {
                self.last.insert(id, (bytes, now));
                None
            },
        }
    }

    pub fn forget(&mut self, id: u64)
        ensures
            final(self)@ == old(self)@.remove(id),
    {
        self.last.remove(&id);
    }
}

/// Rounding goes to the nearest: the rounded number is no further away than
/// half a step, and a number that is a whole number of steps stays.
pub proof fn rounding_goes_to_the_nearest(n: nat, d: nat)
    requires
        d > 0,
    ensures
        2 * (nearest(n, d) * d - n) <= d,
        2 * (n - nearest(n, d) * d) <= d,
        n % d == 0 ==> nearest(n, d) * d == n,
{
    let q = n / d;
    let r = n % d;
    vstd::arithmetic::div_mod::lemma_fundamental_div_mod(n as int, d as int);
    assert(q * d == d * q) by (nonlinear_arith);
    assert((q + 1) * d == d * q + d) by (nonlinear_arith);
    vstd::arithmetic::div_mod::lemma_mod_bound(n as int, d as int);
}

/// A count is shown in the largest unit that it has one of, and each unit is
/// 1024 of the one before.
pub proof fn units_are_chosen_by_size(n: nat)
    ensures
        unit_of(n) <= 5,
        n > 0 ==> unit_size(unit_of(n)) <= n || unit_of(n) == 0,
        unit_of(n) < 5 ==> n < unit_size(unit_of(n) + 1),
        unit_size(0) == 1,
        unit_size(1) == 1024 * unit_size(0),
        unit_size(2) == 1024 * unit_size(1),
        unit_size(3) == 1024 * unit_size(2),
        unit_size(4) == 1024 * unit_size(3),
        unit_size(5) == 1024 * unit_size(4),
{
}

/// Progress between two samples is what was moved and the time it took; too
/// short a time, or nothing moved, is none.
pub proof fn progress_is_what_was_moved(before: u64, at: u64, bytes: u64, now: u64)
    requires
        at <= now,
    ensures
        progress_since(None, bytes, now) is None,
        match progress_since(Some((before, at)), bytes, now) {
            Some((moved, took)) => before + moved == bytes && at + took == now && moved > 0 && took
                >= SAMPLE_GAP,
            None => now - at < SAMPLE_GAP || bytes <= before,
        },
{
}

} // verus!
