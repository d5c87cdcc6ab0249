//! Decimal prices, held as the digits and scale that `bigdecimal` parses.

use vstd::prelude::*;

verus! {

/// A decimal number `digits * 10^(-scale)`, where `digits` is the sign and
/// the base-2^32 limbs (least significant first) of an integer of any length.
#[derive(Debug, PartialEq, Eq)]
pub struct Price {
    pub negative: bool,
    pub limbs: Vec<u32>,
    pub scale: i64,
}

/// The value of a price: its integer digits and its scale.
pub struct Decimal {
    pub digits: int,
    pub scale: int,
}

/// The integer that base-2^32 limbs spell, least significant first.
pub open spec fn limbs_value(limbs: Seq<u32>) -> nat
    decreases limbs.len(),
{
    if limbs.len() == 0 {
        0
    } else {
        (limbs[0] as nat + 0x1_0000_0000 * limbs_value(limbs.drop_first())) as nat
    }
}

impl View for Price {
    type V = Decimal;

    open spec fn view(&self) -> Decimal {
        Decimal {
            digits: if self.negative {
                -limbs_value(self.limbs@)
            } else {
                limbs_value(self.limbs@) as int
            },
            scale: self.scale as int,
        }
    }
}

pub open spec fn pow10(n: nat) -> int
    decreases n,
{
    if n == 0 {
        1
    } else {
        10 * pow10((n - 1) as nat)
    }
}

/// The digits of `p` brought to `k` places after the point (for `k >= p.scale`).
pub open spec fn scaled(p: Decimal, k: int) -> int {
    p.digits * pow10((k - p.scale) as nat)
}

pub open spec fn common_scale(a: Decimal, b: Decimal) -> int {
    if a.scale >= b.scale {
        a.scale
    } else {
        b.scale
    }
}

/// `a` is numerically smaller than `b`.
pub open spec fn price_lt(a: Decimal, b: Decimal) -> bool {
    scaled(a, common_scale(a, b)) < scaled(b, common_scale(a, b))
}

/// A price below zero: the mark of a field that held no number.
pub open spec fn is_sentinel(p: Decimal) -> bool {
    p.digits < 0
}

/// The digits and scale that `bigdecimal` reads from a string, if it reads one.
pub uninterp spec fn decimal_parts_of(s: Seq<char>) -> Option<(int, int)>;

/// Relies on `<bigdecimal::BigDecimal as FromStr>::from_str`,
/// `BigDecimal::as_bigint_and_exponent` and `num_bigint::BigInt::to_u32_digits`:
/// the digits (sign and limbs) and scale of the parsed number, `None` where
/// the string is no number.
#[verifier::external_body]
fn decimal_parts(s: &str) -> (r: Option<Price>)
    ensures
        match decimal_parts_of(s@) {
            Some(p) => r matches Some(x) && x@ == (Decimal { digits: p.0, scale: p.1 }),
            None => r is None,
        },
{
    match s.parse::<bigdecimal::BigDecimal>() {
        Ok(d) => {
            let (digits, scale) = d.as_bigint_and_exponent();
            let (sign, limbs) = digits.to_u32_digits();
            let negative = match sign {
                bigdecimal::num_bigint::Sign::Minus => true,
                bigdecimal::num_bigint::Sign::NoSign => false,
                bigdecimal::num_bigint::Sign::Plus => false,
            };
            Some(Price { negative, limbs, scale })
        },
        Err(_) => None,
    }
}

/// Relies on `PartialOrd for bigdecimal::BigDecimal`, which compares values,
/// `BigDecimal::new(digits, scale)`, the value `digits * 10^(-scale)`, and
/// `num_bigint::BigInt::from_slice`, the integer of a sign and limbs.
#[verifier::external_body]
fn decimal_less(a: &Price, b: &Price) -> (r: bool)
    ensures
        r == price_lt(a@, b@),
{
    let sign_a = match a.negative {
        true => bigdecimal::num_bigint::Sign::Minus,
        false => bigdecimal::num_bigint::Sign::Plus,
    };
    let sign_b = match b.negative {
        true => bigdecimal::num_bigint::Sign::Minus,
        false => bigdecimal::num_bigint::Sign::Plus,
    };
    let x = bigdecimal::BigDecimal::new(bigdecimal::num_bigint::BigInt::from_slice(sign_a, &a.limbs), a.scale);
    let y = bigdecimal::BigDecimal::new(bigdecimal::num_bigint::BigInt::from_slice(sign_b, &b.limbs), b.scale);
    x < y
}

/// The sentinel: minus one.
pub open spec fn sentinel() -> Decimal {
    Decimal { digits: -1, scale: 0 }
}

/// The value a price field stands for: the number the text spells, or the
/// sentinel `-1` where the text is no number.
pub open spec fn price_of_text(s: Seq<char>) -> Decimal {
    match decimal_parts_of(s) {
        Some(p) => Decimal { digits: p.0, scale: p.1 },
        None => sentinel(),
    }
}

proof fn lemma_pow10_add(x: nat, y: nat)
    ensures
        pow10(x + y) == pow10(x) * pow10(y),
        pow10(x) > 0,
    decreases x,
{
    if x > 0 {
        lemma_pow10_add((x - 1) as nat, y);
        assert(pow10(x + y) == 10 * pow10((x - 1 + y) as nat));
        assert(10 * (pow10((x - 1) as nat) * pow10(y)) == (10 * pow10((x - 1) as nat)) * pow10(y))
            by (nonlinear_arith);
    }
}

proof fn lemma_scaled_lift(p: Decimal, k1: int, k2: int)
    requires
        p.scale <= k1 <= k2,
    ensures
        scaled(p, k2) == scaled(p, k1) * pow10((k2 - k1) as nat),
        pow10((k2 - k1) as nat) > 0,
{
    let x = (k1 - p.scale) as nat;
    let y = (k2 - k1) as nat;
    lemma_pow10_add(x, y);
    lemma_pow10_add(y, 0);
    assert((x + y) as nat == (k2 - p.scale) as nat);
    assert(p.digits * (pow10(x) * pow10(y)) == (p.digits * pow10(x)) * pow10(y)) by (nonlinear_arith);
}

/// The order of two prices may be read at any common scale at least as fine
/// as both of theirs.
pub proof fn lemma_price_lt_at(a: Decimal, b: Decimal, k: int)
    requires
        k >= a.scale,
        k >= b.scale,
    ensures
        price_lt(a, b) <==> scaled(a, k) < scaled(b, k),
{
    let c = common_scale(a, b);
    lemma_scaled_lift(a, c, k);
    lemma_scaled_lift(b, c, k);
    let f = pow10((k - c) as nat);
    let x = scaled(a, c);
    let y = scaled(b, c);
    assert(x < y <==> x * f < y * f) by (nonlinear_arith)
        requires
            f > 0,
    ;
}

/// The order on prices is transitive.
pub proof fn lemma_price_lt_transitive(a: Decimal, b: Decimal, c: Decimal)
    requires
        price_lt(a, b),
        price_lt(b, c),
    ensures
        price_lt(a, c),
{
    let k = if a.scale >= b.scale && a.scale >= c.scale {
        a.scale
    } else if b.scale >= c.scale {
        b.scale
    } else {
        c.scale
    };
    lemma_price_lt_at(a, b, k);
    lemma_price_lt_at(b, c, k);
    lemma_price_lt_at(a, c, k);
}

impl Price {
    /// The mark for a price that could not be read.
    pub fn unparsed() -> (r: Price)
        ensures
            r@ == sentinel(),
    {
        let mut limbs: Vec<u32> = Vec::new();
        limbs.push(1);
        proof {
            assert(limbs@.drop_first() =~= Seq::<u32>::empty());
            assert(limbs_value(limbs@.drop_first()) == 0);
            assert(limbs_value(limbs@) == 1);
        }
        Price { negative: true, limbs, scale: 0 }
    }

    /// Reads a decimal; text that is no number gives the sentinel `-1`.
    pub fn parse(s: &str) -> (r: Price)
        ensures
            r@ == price_of_text(s@),
    {
        match decimal_parts(s) {
            Some(p) => p,
            None => Price::unparsed(),
        }
    }

    /// A copy with the same value.
    pub fn copy(&self) -> (r: Price)
        ensures
            r@ == self@,
    {
        let mut limbs: Vec<u32> = Vec::new();
        let mut i: usize = 0;
        while i < self.limbs.len()
            invariant
                i <= self.limbs@.len(),
                limbs@ == self.limbs@.take(i as int),
            decreases self.limbs@.len() - i,
        {
            limbs.push(self.limbs[i]);
            i = i + 1;
            proof {
                assert(limbs@ =~= self.limbs@.take(i as int));
            }
        }
        proof {
            assert(limbs@ =~= self.limbs@);
        }
        Price { negative: self.negative, limbs, scale: self.scale }
    }

    /// Below zero: true of the sentinel.
    pub fn is_negative(&self) -> (r: bool)
        ensures
            r == is_sentinel(self@),
    {
        let mut i: usize = 0;
        while i < self.limbs.len()
            invariant
                i <= self.limbs@.len(),
                forall|j: int| 0 <= j < i ==> self.limbs@[j] == 0,
            decreases self.limbs@.len() - i,
        {
            if self.limbs[i] != 0 {
                proof {
                    lemma_limbs_positive(self.limbs@, i as int);
                }
                return self.negative;
            }
            i = i + 1;
        }
        proof {
            lemma_limbs_zero(self.limbs@);
        }
        false
    }

    /// Numeric comparison, whatever the two scales.
    pub fn less_than(&self, other: &Price) -> (r: bool)
        ensures
            r == price_lt(self@, other@),
    {
        decimal_less(self, other)
    }
}

proof fn lemma_limbs_positive(limbs: Seq<u32>, i: int)
    requires
        0 <= i < limbs.len(),
        limbs[i] != 0,
    ensures
        limbs_value(limbs) > 0,
    decreases i,
{
    if i > 0 {
        lemma_limbs_positive(limbs.drop_first(), i - 1);
    }
}

proof fn lemma_limbs_zero(limbs: Seq<u32>)
    requires
        forall|j: int| 0 <= j < limbs.len() ==> limbs[j] == 0,
    ensures
        limbs_value(limbs) == 0,
    decreases limbs.len(),
{
    if limbs.len() > 0 {
        lemma_limbs_zero(limbs.drop_first());
    }
}

} // verus!
