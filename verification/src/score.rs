//! Exact rational ranks.
//!
//! Rates and overdue factors are quotients of integers. They are kept as
//! quotients and compared by cross multiplication, so that ranking never
//! rounds.

use vstd::prelude::*;

verus! {

/// A rank: a signed quotient with a positive denominator.
#[derive(Clone, Copy, Debug)]
pub struct Score {
    /// Whether the quotient is below zero (or a zero written with a sign).
    pub negative: bool,
    /// Magnitude of the numerator.
    pub numerator: u128,
    /// Denominator; positive in every score that ranks.
    pub denominator: u64,
}

impl Score {
    /// The numerator with its sign.
    pub open spec fn signed(&self) -> int {
        if self.negative {
            -(self.numerator as int)
        } else {
            self.numerator as int
        }
    }

    /// Whether the score can be ranked.
    pub open spec fn well_formed(&self) -> bool {
        self.denominator > 0
    }

    /// Whether `self` is strictly greater than `other` as a quotient.
    pub open spec fn outranks(&self, other: &Score) -> bool {
        self.signed() * other.denominator > other.signed() * self.denominator
    }

    /// A non-negative score `numerator / denominator`.
    pub fn positive(numerator: u128, denominator: u64) -> (score: Score)
        ensures
            score == (Score { negative: false, numerator, denominator }),
    {
        Score { negative: false, numerator, denominator }
    }

    /// Tests whether `self` is strictly greater than `other`.
    pub fn is_above(&self, other: &Score) -> (above: bool)
        requires
            self.well_formed(),
            other.well_formed(),
        ensures
            above == self.outranks(other),
    {
        let (mine_high, mine_low) = wide_product(self.numerator, other.denominator);
        let (theirs_high, theirs_low) = wide_product(other.numerator, self.denominator);
        let ghost mine = self.numerator * other.denominator;
        let ghost theirs = other.numerator * self.denominator;
        let mine_more = mine_high > theirs_high || (mine_high == theirs_high && mine_low
            > theirs_low);
        let theirs_more = theirs_high > mine_high || (theirs_high == mine_high && theirs_low
            > mine_low);
        assert(mine_more == (mine > theirs));
        assert(theirs_more == (theirs > mine));
        proof {
            assert(self.signed() * other.denominator == if self.negative {
                -mine
            } else {
                mine
            }) by (nonlinear_arith)
                requires
                    mine == self.numerator * other.denominator,
                    self.signed() == if self.negative {
                        -(self.numerator as int)
                    } else {
                        self.numerator as int
                    },
            ;
            assert(other.signed() * self.denominator == if other.negative {
                -theirs
            } else {
                theirs
            }) by (nonlinear_arith)
                requires
                    theirs == other.numerator * self.denominator,
                    other.signed() == if other.negative {
                        -(other.numerator as int)
                    } else {
                        other.numerator as int
                    },
            ;
        }
        if self.negative {
            if other.negative {
                theirs_more
            } else {
                false
            }
        } else {
            if other.negative {
                mine_high > 0 || mine_low > 0 || theirs_high > 0 || theirs_low > 0
            } else {
                mine_more
            }
        }
    }
}

/// Two to the power 64.
pub open spec fn limb() -> int {
    0x1_0000_0000_0000_0000
}

/// The product `a * b` in two parts: `high * 2^64 + low`.
pub fn wide_product(a: u128, b: u64) -> (parts: (u128, u64))
    ensures
        parts.0 * limb() + parts.1 == a * b,
{
    let a_high: u128 = a / 0x1_0000_0000_0000_0000u128;
    let a_low: u128 = a % 0x1_0000_0000_0000_0000u128;
    let wide_b: u128 = b as u128;
    assert(a_high * wide_b <= 0xffff_ffff_ffff_ffff * 0xffff_ffff_ffff_ffff) by (nonlinear_arith)
        requires
            0 <= a_high <= 0xffff_ffff_ffff_ffff,
            0 <= wide_b <= 0xffff_ffff_ffff_ffff,
    ;
    assert(a_low * wide_b <= 0xffff_ffff_ffff_ffff * 0xffff_ffff_ffff_ffff) by (nonlinear_arith)
        requires
            0 <= a_low <= 0xffff_ffff_ffff_ffff,
            0 <= wide_b <= 0xffff_ffff_ffff_ffff,
    ;
    let upper: u128 = a_high * wide_b;
    let lower: u128 = a_low * wide_b;
    let carry: u128 = lower / 0x1_0000_0000_0000_0000u128;
    let low: u128 = lower % 0x1_0000_0000_0000_0000u128;
    let high: u128 = upper + carry;
    assert(a * b == (upper * limb() + lower)) by (nonlinear_arith)
        requires
            a == a_high * limb() + a_low,
            upper == a_high * b,
            lower == a_low * b,
    ;
    (high, low as u64)
}

/// "Not below" carries over a middle score: if `b` does not outrank `a` and
/// `c` does not outrank `b`, then `c` does not outrank `a`.
pub proof fn lemma_not_outranked_transitive(a: Score, b: Score, c: Score)
    requires
        a.well_formed(),
        b.well_formed(),
        c.well_formed(),
        !b.outranks(&a),
        !c.outranks(&b),
    ensures
        !c.outranks(&a),
{
    let (an, ad) = (a.signed(), a.denominator as int);
    let (bn, bd) = (b.signed(), b.denominator as int);
    let (cn, cd) = (c.signed(), c.denominator as int);
    assert(bn * ad <= an * bd);
    assert(cn * bd <= bn * cd);
    assert((cn * ad) * bd <= (an * cd) * bd) by (nonlinear_arith)
        requires
            bn * ad <= an * bd,
            cn * bd <= bn * cd,
            ad > 0,
            bd > 0,
            cd > 0,
    ;
    assert(cn * ad <= an * cd) by (nonlinear_arith)
        requires
            (cn * ad) * bd <= (an * cd) * bd,
            bd > 0,
    ;
}

/// A score that outranks one that is not outranked by a third outranks the
/// third's lower bound: if `a` outranks `b` and `c` does not outrank `b`, then
/// `a` outranks `c`.
pub proof fn lemma_outranks_carries(a: Score, b: Score, c: Score)
    requires
        a.well_formed(),
        b.well_formed(),
        c.well_formed(),
        a.outranks(&b),
        !c.outranks(&b),
    ensures
        a.outranks(&c),
{
    if !a.outranks(&c) {
        lemma_not_outranked_transitive(b, c, a);
    }
}

} // verus!
