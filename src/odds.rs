use vstd::prelude::*;

verus! {

/// An exact probability `num / den`.
#[derive(Clone, Copy, Debug, PartialEq, Eq)]
pub struct Probability {
    pub num: u64,
    pub den: u64,
}

impl Probability {
    /// Numerator and denominator as mathematical integers.
    pub open spec fn ratio(self) -> (int, int) {
        (self.num as int, self.den as int)
    }

    /// The probability lies strictly between zero and one.
    pub open spec fn is_proper(self) -> bool {
        0 < self.num < self.den
    }

    /// The probability equals `n / d` (for `d > 0`).
    pub open spec fn equals(self, n: int, d: int) -> bool {
        self.num as int * d == n * self.den as int
    }
}

/// Numerator of the implied probability of American odds.
pub open spec fn implied_num(odds: int) -> int {
    if odds < 0 { -odds } else { 100 }
}

/// Denominator of the implied probability of American odds.
pub open spec fn implied_den(odds: int) -> int {
    if odds < 0 { -odds + 100 } else { odds + 100 }
}

/// Converts American odds to their implied probability:
/// `|odds| / (|odds| + 100)` for negative odds, `100 / (odds + 100)` otherwise.
pub fn implied_prob(odds: i32) -> (r: Probability)
    requires
        odds != 0,
    ensures
        r.num == implied_num(odds as int),
        r.den == implied_den(odds as int),
        r.is_proper(),
{
    if odds < 0 {
        let o: u64 = (-(odds as i64)) as u64;
        Probability { num: o, den: o + 100 }
    } else {
        let o: u64 = odds as u64;
        Probability { num: 100, den: o + 100 }
    }
}

/// The combined implied probability of both sides is negligible (below 1/1000).
pub open spec fn negligible_total(over: int, under: int) -> bool {
    let (a, b) = (implied_num(over), implied_den(over));
    let (c, d) = (implied_num(under), implied_den(under));
    1000 * (a * d + c * b) < b * d
}

/// Numerator of the devigged over probability: `over / (over + under)`.
pub open spec fn devig_num(over: int, under: int) -> int {
    implied_num(over) * implied_den(under)
}

/// Denominator of the devigged over probability.
pub open spec fn devig_den(over: int, under: int) -> int {
    implied_num(over) * implied_den(under) + implied_num(under) * implied_den(over)
}

/// Removes the margin from a two-sided market by proportional rescaling and
/// returns the fair probability of the over side.
/// No value when either side is missing or when the two implied probabilities
/// sum to less than 1/1000.
pub fn devigged_over_prob(over_odds: Option<i32>, under_odds: Option<i32>) -> (r: Option<Probability>)
    requires
        over_odds matches Some(o) ==> o != 0,
        under_odds matches Some(u) ==> u != 0,
    ensures
        match (over_odds, under_odds) {
            (Some(o), Some(u)) => {
                if negligible_total(o as int, u as int) {
                    r is None
                } else {
                    r matches Some(p) && p.num == devig_num(o as int, u as int) && p.den == devig_den(
                        o as int,
                        u as int,
                    ) && p.is_proper()
                }
            },
            _ => r is None,
        },
{
    let o = match over_odds {
        Some(o) => o,
        None => return None,
    };
    let u = match under_odds {
        Some(u) => u,
        None => return None,
    };
    let over = implied_prob(o);
    let under = implied_prob(u);
    let (a, b, c, d) = (over.num as u128, over.den as u128, under.num as u128, under.den as u128);
    assert(a < 0x1_0000_0000 && b <= 0x1_0000_0000 && c < 0x1_0000_0000 && d <= 0x1_0000_0000);
    proof {
        lemma_mul_le(a as int, d as int, 0x1_0000_0000, 0x1_0000_0000);
        lemma_mul_le(c as int, b as int, 0x1_0000_0000, 0x1_0000_0000);
        lemma_mul_le(b as int, d as int, 0x1_0000_0000, 0x1_0000_0000);
    }
    let ad = a * d;
    let cb = c * b;
    let bd = b * d;
    if 1000 * (ad + cb) < bd {
        return None;
    }
    proof {
        lemma_mul_le(a as int, d as int, 0x8000_0000, 0x8000_0064);
        lemma_mul_le(c as int, b as int, 0x8000_0000, 0x8000_0064);
        lemma_mul_pos(a as int, d as int);
        lemma_mul_pos(c as int, b as int);
    }
    Some(Probability { num: ad as u64, den: (ad + cb) as u64 })
}

/// The implied probability of any nonzero odds lies strictly between zero and one.
pub proof fn law_implied_prob_proper(odds: int)
    requires
        odds != 0,
    ensures
        0 < implied_num(odds) < implied_den(odds),
{
}

/// Devigging a symmetric market (the same odds on both sides) gives exactly one half.
pub proof fn law_symmetric_market_is_even(odds: int)
    requires
        odds != 0,
    ensures
        devig_den(odds, odds) == 2 * devig_num(odds, odds),
{
    assert(implied_num(odds) * implied_den(odds) + implied_num(odds) * implied_den(odds) == 2 * (
    implied_num(odds) * implied_den(odds)));
}

/// Even odds on both sides (+100 and -100) devig to exactly one half.
pub proof fn law_even_market_is_even()
    ensures
        devig_den(100, -100) == 2 * devig_num(100, -100),
        !negligible_total(100, -100),
{
}

/// Bounds a product by the product of the bounds.
pub proof fn lemma_mul_le(x: int, y: int, bx: int, by: int)
    requires
        0 <= x <= bx,
        0 <= y <= by,
    ensures
        0 <= x * y <= bx * by,
{
    assert(0 <= x * y <= bx * by) by (nonlinear_arith)
        requires
            0 <= x <= bx,
            0 <= y <= by,
    ;
}

/// A product of positive integers is positive.
pub proof fn lemma_mul_pos(x: int, y: int)
    requires
        0 < x,
        0 < y,
    ensures
        0 < x * y,
{
    assert(0 < x * y) by (nonlinear_arith)
        requires
            0 < x,
            0 < y,
    ;
}

} // verus!
