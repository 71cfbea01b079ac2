//! Plain and recency-weighted averages over a traversal of samples, computed exactly.
use vstd::prelude::*;
use crate::circular_buffer::{CircularBuffer, CircularIterator};

verus! {

/// The most samples an average is taken over: with samples below 2^32 this
/// keeps every sum exact in 128 bits.
pub const MAX_SAMPLES: usize = 4294967295;

/// Bound on the numerator of an average over at most `MAX_SAMPLES` samples.
pub const MAX_NUMERATOR: u128 = 0x8000_0000_0000_0000_0000_0000;

/// Bound on the denominator of an average over at most `MAX_SAMPLES` samples.
pub const MAX_DENOMINATOR: u128 = 0x8000_0000_0000_0000;

/// The sum of the samples.
pub open spec fn sum(s: Seq<u32>) -> int
    decreases s.len(),
{
    if s.len() == 0 {
        0
    } else {
        sum(s.drop_last()) + s.last()
    }
}

/// The sum of the samples, the `i`-th (from 0) weighted by `i + 1`.
pub open spec fn weighted_sum(s: Seq<u32>) -> int
    decreases s.len(),
{
    if s.len() == 0 {
        0
    } else {
        weighted_sum(s.drop_last()) + s.len() * s.last()
    }
}

/// The sum of the weights `1 + 2 + ... + n`.
pub open spec fn total_weight(n: nat) -> nat
    decreases n,
{
    if n == 0 {
        0
    } else {
        total_weight((n - 1) as nat) + n
    }
}

/// An exact quotient of two non-negative integers.
#[derive(Debug, Clone, Copy, PartialEq, Eq, Structural)]
pub struct Fraction {
    pub numerator: u128,
    pub denominator: u128,
}

impl Fraction {
    /// The bounds that every average satisfies.
    pub open spec fn wf(&self) -> bool {
        &&& self.numerator < MAX_NUMERATOR
        &&& 0 < self.denominator < MAX_DENOMINATOR
    }

    /// Whether the quotient is greater than `n / d`.
    pub open spec fn spec_greater_than(&self, n: int, d: int) -> bool {
        self.numerator * d > n * self.denominator
    }

    /// Whether the quotient is greater than `n / d`.
    pub fn greater_than(&self, n: u32, d: u32) -> (r: bool)
        requires
            self.wf(),
            d > 0,
        ensures
            r == self.spec_greater_than(n as int, d as int),
    {
        proof {
            self.lemma_products_fit(n, d);
        }
        self.numerator * (d as u128) > (n as u128) * self.denominator
    }

    /// Whether the quotient is at least `n / d`.
    pub fn at_least(&self, n: u32, d: u32) -> (r: bool)
        requires
            self.wf(),
            d > 0,
        ensures
            r == (self.numerator * d >= n * self.denominator),
    {
        proof {
            self.lemma_products_fit(n, d);
        }
        self.numerator * (d as u128) >= (n as u128) * self.denominator
    }

    proof fn lemma_products_fit(&self, n: u32, d: u32)
        requires
            self.wf(),
        ensures
            self.numerator * (d as int) < MAX_NUMERATOR * 0x1_0000_0000,
            (n as int) * self.denominator < 0x1_0000_0000 * MAX_DENOMINATOR,
    {
        assert(self.numerator * (d as int) < MAX_NUMERATOR * 0x1_0000_0000) by (nonlinear_arith)
            requires
                self.numerator < MAX_NUMERATOR,
                d < 0x1_0000_0000,
        ;
        assert((n as int) * self.denominator < 0x1_0000_0000 * MAX_DENOMINATOR) by (nonlinear_arith)
            requires
                self.denominator < MAX_DENOMINATOR,
                n < 0x1_0000_0000,
        ;
    }

    /// The quotient rounded down.
    pub fn floor(&self) -> (r: u128)
        requires
            self.denominator > 0,
        ensures
            r == self.numerator / self.denominator,
    {
        self.numerator / self.denominator
    }
}

proof fn lemma_total_weight(n: nat)
    ensures
        2 * total_weight(n) == n * (n + 1),
    decreases n,
{
    if n > 0 {
        let m = (n - 1) as nat;
        lemma_total_weight(m);
        assert(total_weight(n) == total_weight(m) + n);
        assert(n * (n + 1) == m * (m + 1) + 2 * n) by (nonlinear_arith)
            requires
                m + 1 == n,
        ;
        assert(2 * total_weight(n) == n * (n + 1));
    } else {
        assert(n * (n + 1) == 0) by (nonlinear_arith)
            requires
                n == 0,
        ;
    }
}

proof fn lemma_total_weight_bound(n: nat)
    requires
        n <= MAX_SAMPLES,
    ensures
        total_weight(n) < MAX_DENOMINATOR,
        total_weight(n) * 0xFFFF_FFFF < MAX_NUMERATOR,
{
    lemma_total_weight(n);
    assert(n * (n + 1) <= 0xFFFF_FFFF * 0x1_0000_0000) by (nonlinear_arith)
        requires
            n <= 0xFFFF_FFFF,
    ;
}

/// The arithmetic mean of the samples in the buffer: every sample weighs the
/// same, and the denominator is the number of samples held.
pub fn average(buffer: &CircularBuffer<u32>) -> (r: Fraction)
    requires
        buffer.wf(),
        0 < buffer@.len() <= MAX_SAMPLES,
    ensures
        r.wf(),
        r.numerator == sum(buffer@),
        r.denominator == buffer@.len(),
{
    let mut it = buffer.iter();
    let n = it.len();
    let ghost all = it@;
    let mut total: u128 = 0;
    let mut i: usize = 0;
    while i < n
        invariant
            it.wf(),
            n == all.len(),
            n <= MAX_SAMPLES,
            i <= n,
            it@ == all.subrange(i as int, n as int),
            total == sum(all.take(i as int)),
            total <= 0xFFFF_FFFF * i,
        decreases n - i,
    {
        let x = *it.next().unwrap();
        proof {
            assert(all.take(i + 1).drop_last() =~= all.take(i as int));
            assert(it@ =~= all.subrange(i + 1, n as int));
        }
        total = total + x as u128;
        i = i + 1;
    }
    proof {
        assert(all.take(n as int) =~= all);
        assert(0xFFFF_FFFF * n < MAX_NUMERATOR) by (nonlinear_arith)
            requires
                n <= MAX_SAMPLES,
        ;
    }
    Fraction { numerator: total, denominator: n as u128 }
}

/// The mean of the traversal's samples, the `i`-th (from 0) weighted by
/// `i + 1`: the last sample yielded weighs the most.
pub fn index_weighted_average(it: CircularIterator<'_, u32>) -> (r: Fraction)
    requires
        it.wf(),
        0 < it@.len() <= MAX_SAMPLES,
    ensures
        r.wf(),
        r.numerator == weighted_sum(it@),
        r.denominator == total_weight(it@.len()),
        r.numerator <= 0xFFFF_FFFF * r.denominator,
{
    let mut it = it;
    let n = it.len();
    let ghost all = it@;
    let mut total: u128 = 0;
    let mut weight: u128 = 0;
    let mut i: usize = 0;
    proof {
        lemma_total_weight_bound(n as nat);
    }
    while i < n
        invariant
            it.wf(),
            n == all.len(),
            n <= MAX_SAMPLES,
            i <= n,
            it@ == all.subrange(i as int, n as int),
            total == weighted_sum(all.take(i as int)),
            weight == total_weight(i as nat),
            total <= 0xFFFF_FFFF * weight,
            total_weight(n as nat) < MAX_DENOMINATOR,
            total_weight(n as nat) * 0xFFFF_FFFF < MAX_NUMERATOR,
        decreases n - i,
    {
        let x = *it.next().unwrap();
        proof {
            assert(all.take(i + 1).drop_last() =~= all.take(i as int));
            assert(it@ =~= all.subrange(i + 1, n as int));
            lemma_total_weight_monotone((i + 1) as nat, n as nat);
            assert((i + 1) * (x as int) <= 0xFFFF_FFFF * (i + 1)) by (nonlinear_arith)
                requires
                    x <= 0xFFFF_FFFF,
            ;
        }
        total = total + (i as u128 + 1) * x as u128;
        weight = weight + i as u128 + 1;
        i = i + 1;
    }
    proof {
        assert(all.take(n as int) =~= all);
    }
    Fraction { numerator: total, denominator: weight }
}

proof fn lemma_total_weight_monotone(m: nat, n: nat)
    requires
        m <= n,
    ensures
        total_weight(m) <= total_weight(n),
    decreases n - m,
{
    if m < n {
        lemma_total_weight_monotone(m, (n - 1) as nat);
    }
}

} // verus!
