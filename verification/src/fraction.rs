//! Exact fractions of the unit interval.
//!
//! Reveal amounts are kept as a numerator over a denominator, so that "none",
//! "all" and every step in between are exact, and the number of characters or
//! choices that a fraction uncovers is a plain integer division.

use vstd::prelude::*;

verus! {

/// The mathematical value of a [`Fraction`]: `num / den`.
pub struct Ratio {
    pub num: nat,
    pub den: nat,
}

impl Ratio {
    /// A ratio lies in the unit interval when its denominator is positive and
    /// its numerator does not exceed it.
    pub open spec fn wf(self) -> bool {
        0 < self.den && self.num <= self.den
    }

    /// Exactly zero.
    pub open spec fn zero() -> Ratio {
        Ratio { num: 0, den: 1 }
    }

    /// Exactly one.
    pub open spec fn one() -> Ratio {
        Ratio { num: 1, den: 1 }
    }

    /// `part / whole`, clamped to the unit interval. An empty whole has no
    /// part shown: the ratio is zero. Both ends are exact: no part is
    /// `Ratio::zero()` and the whole is `Ratio::one()`.
    pub open spec fn of(part: nat, whole: nat) -> Ratio {
        if whole == 0 || part == 0 {
            Ratio::zero()
        } else if part >= whole {
            Ratio::one()
        } else {
            Ratio { num: part, den: whole }
        }
    }

    /// Whether the ratio is zero, whatever its denominator.
    pub open spec fn is_zero(self) -> bool {
        self.num == 0
    }

    /// Whether the ratio is one, whatever its denominator.
    pub open spec fn is_one(self) -> bool {
        self.num == self.den
    }

    /// `1 - self`.
    pub open spec fn complement(self) -> Ratio {
        Ratio { num: (self.den - self.num) as nat, den: self.den }
    }

    /// `self <= other` as rational numbers.
    pub open spec fn le(self, other: Ratio) -> bool {
        self.num * other.den <= other.num * self.den
    }

    /// `floor(n * self)`: how many of `n` items the ratio uncovers.
    pub open spec fn floor_of(self, n: nat) -> nat {
        (n * self.num) / self.den
    }
}

/// `Ratio::of` always lands in the unit interval.
pub proof fn lemma_of_wf(part: nat, whole: nat)
    ensures
        Ratio::of(part, whole).wf(),
{
}

/// The complement of a ratio in the unit interval is in the unit interval, and
/// complementing twice gives the ratio back.
pub proof fn lemma_complement_wf(r: Ratio)
    requires
        r.wf(),
    ensures
        r.complement().wf(),
        r.complement().complement() == r,
        r.is_zero() <==> r.complement().is_one(),
        r.is_one() <==> r.complement().is_zero(),
{
}

/// A ratio never uncovers more than there is: nothing at zero, everything at
/// one.
pub proof fn lemma_floor_of_bounds(r: Ratio, n: nat)
    requires
        r.wf(),
    ensures
        r.floor_of(n) <= n,
        r.is_zero() ==> r.floor_of(n) == 0,
        r.is_one() ==> r.floor_of(n) == n,
{
    let num = r.num as int;
    let den = r.den as int;
    let m = n as int;
    assert(m * num <= m * den) by (nonlinear_arith)
        requires
            0 <= m,
            0 <= num <= den,
    ;
    assert((m * num) / den <= m) by (nonlinear_arith)
        requires
            0 <= m * num <= m * den,
            0 < den,
    ;
    if r.is_zero() {
        assert(m * num == 0) by (nonlinear_arith)
            requires
                num == 0,
        ;
    }
    if r.is_one() {
        assert((m * num) / den == m) by (nonlinear_arith)
            requires
                num == den,
                0 < den,
        ;
    }
}

/// A larger ratio uncovers at least as much.
pub proof fn lemma_floor_of_monotonic(a: Ratio, b: Ratio, n: nat)
    requires
        a.wf(),
        b.wf(),
        a.le(b),
    ensures
        a.floor_of(n) <= b.floor_of(n),
{
    let an = a.num as int;
    let ad = a.den as int;
    let bn = b.num as int;
    let bd = b.den as int;
    let m = n as int;
    let qa = (m * an) / ad;
    let qb = (m * bn) / bd;
    // qa * ad <= m * an, hence qa * ad * bd <= m * an * bd <= m * bn * ad.
    assert(qa <= qb) by (nonlinear_arith)
        requires
            0 < ad,
            0 < bd,
            0 <= m,
            0 <= an,
            0 <= bn,
            an * bd <= bn * ad,
            qa == (m * an) / ad,
            qb == (m * bn) / bd,
    {
        assert(qa * ad <= m * an);
        assert(m * bn < (qb + 1) * bd);
        assert((m * an) * bd <= (m * bn) * ad);
        assert(qa * ad * bd <= (m * an) * bd);
        assert((m * bn) * ad < ((qb + 1) * bd) * ad);
        assert(qa * (ad * bd) < (qb + 1) * (ad * bd));
    }
}

/// A fraction of the unit interval on machine integers.
#[derive(Clone, Copy, Debug)]
pub struct Fraction {
    num: u64,
    den: u64,
}

impl View for Fraction {
    type V = Ratio;

    closed spec fn view(&self) -> Ratio {
        Ratio { num: self.num as nat, den: self.den as nat }
    }
}

impl Fraction {
    #[verifier::type_invariant]
    spec fn in_unit_interval(self) -> bool {
        0 < self.den && self.num <= self.den
    }

    /// Exactly zero.
    pub fn zero() -> (f: Fraction)
        ensures
            f@ == Ratio::zero(),
    {
        Fraction { num: 0, den: 1 }
    }

    /// Exactly one.
    pub fn one() -> (f: Fraction)
        ensures
            f@ == Ratio::one(),
    {
        Fraction { num: 1, den: 1 }
    }

    /// `part / whole`, clamped to the unit interval; zero for an empty whole.
    pub fn of(part: u64, whole: u64) -> (f: Fraction)
        ensures
            f@ == Ratio::of(part as nat, whole as nat),
            f@.wf(),
    {
        if whole == 0 || part == 0 {
            Fraction { num: 0, den: 1 }
        } else if part >= whole {
            Fraction { num: 1, den: 1 }
        } else {
            Fraction { num: part, den: whole }
        }
    }

    /// The numerator.
    pub fn numerator(&self) -> (n: u64)
        ensures
            n == self@.num,
            self@.wf(),
    {
        proof {
            use_type_invariant(self);
        }
        self.num
    }

    /// The denominator, never zero.
    pub fn denominator(&self) -> (d: u64)
        ensures
            d == self@.den,
            d > 0,
            self@.wf(),
    {
        proof {
            use_type_invariant(self);
        }
        self.den
    }

    /// Whether nothing is shown.
    pub fn is_zero(&self) -> (b: bool)
        ensures
            b == self@.is_zero(),
    {
        self.num == 0
    }

    /// Whether everything is shown.
    pub fn is_one(&self) -> (b: bool)
        ensures
            b == self@.is_one(),
    {
        self.num == self.den
    }

    /// `1 - self`.
    pub fn complement(&self) -> (f: Fraction)
        ensures
            f@ == self@.complement(),
            f@.wf(),
    {
        proof {
            use_type_invariant(self);
        }
        Fraction { num: self.den - self.num, den: self.den }
    }

    /// `floor(n * self)`: how many of `n` items this fraction uncovers.
    pub fn floor_of(&self, n: usize) -> (k: usize)
        ensures
            k == self@.floor_of(n as nat),
            k <= n,
    {
        proof {
            use_type_invariant(self);
            lemma_floor_of_bounds(self@, n as nat);
            assert(n * self.num <= 0xffff_ffff_ffff_ffff * 0xffff_ffff_ffff_ffff) by (nonlinear_arith)
                requires
                    0 <= n <= 0xffff_ffff_ffff_ffff,
                    0 <= self.num <= 0xffff_ffff_ffff_ffff,
            ;
        }
        let product: u128 = (n as u128) * (self.num as u128);
        let shown: u128 = product / (self.den as u128);
        shown as usize
    }
}

} // verus!
