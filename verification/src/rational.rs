//! Exact non-negative rational numbers over `u128`, with a mathematical
//! model (`Q`) used by every contract in the crate.
//!
//! A raw on-chain amount scaled by `10^decimals` is held exactly as
//! `num / den`; arithmetic is checked, so a result that no longer fits in
//! `u128` is reported rather than wrapped or rounded.

use vstd::prelude::*;

verus! {

/// Mathematical value of a rational: numerator and denominator as
/// unbounded integers.  Every contract in the crate speaks of these.
pub ghost struct Q {
    pub n: int,
    pub d: int,
}

/// A well-formed rational value is non-negative with a positive denominator.
pub open spec fn q_wf(q: Q) -> bool {
    q.d > 0 && q.n >= 0
}

/// Two rationals denote the same number (cross multiplication).
pub open spec fn q_eq(a: Q, b: Q) -> bool {
    a.n * b.d == b.n * a.d
}

/// `a <= b` as numbers (cross multiplication; sound when both are well formed).
pub open spec fn q_le(a: Q, b: Q) -> bool {
    a.n * b.d <= b.n * a.d
}

pub open spec fn q_add(a: Q, b: Q) -> Q {
    Q { n: a.n * b.d + b.n * a.d, d: a.d * b.d }
}

pub open spec fn q_mul(a: Q, b: Q) -> Q {
    Q { n: a.n * b.n, d: a.d * b.d }
}

/// `a / b`; meaningful only when `b.n != 0`.
pub open spec fn q_div(a: Q, b: Q) -> Q {
    Q { n: a.n * b.d, d: a.d * b.n }
}

pub open spec fn q_int(n: int) -> Q {
    Q { n: n, d: 1 }
}

/// An exact non-negative rational held in executable code.  Equality is
/// structural, on the components: `3/2` and `6/4` denote the same number
/// but are distinct values.
#[derive(Clone, Copy, Debug, PartialEq, Eq, Structural)]
pub struct Rational {
    pub num: u128,
    pub den: u128,
}

impl View for Rational {
    type V = Q;

    open spec fn view(&self) -> Q {
        Q { n: self.num as int, d: self.den as int }
    }
}

impl Rational {
    /// Well-formedness: the denominator is positive.
    pub open spec fn wf(&self) -> bool {
        self.den > 0
    }

    pub fn new(num: u128, den: u128) -> (r: Rational)
        requires
            den > 0,
        ensures
            r.wf(),
            r@ == (Q { n: num as int, d: den as int }),
    {
        Rational { num, den }
    }

    /// The rational `n / 1`.
    pub fn from_int(n: u128) -> (r: Rational)
        ensures
            r.wf(),
            r@ == q_int(n as int),
    {
        Rational { num: n, den: 1 }
    }

    /// Exact addition; `None` exactly when a component of the exact result
    /// exceeds `u128::MAX`.
    pub fn checked_add(&self, other: &Rational) -> (r: Option<Rational>)
        requires
            self.wf(),
            other.wf(),
        ensures
            r is Some <==> !q_add_overflows(self@, other@),
            r is Some ==> (r->0)@ == q_add(self@, other@) && (r->0).wf(),
    {
        let n1 = self.num.checked_mul(other.den);
        let n2 = other.num.checked_mul(self.den);
        let d = self.den.checked_mul(other.den);
        match (n1, n2, d) {
            (Some(x), Some(y), Some(dd)) => match x.checked_add(y) {
                Some(n) => {
                    proof {
                        lemma_pos_mul(self.den as int, other.den as int);
                    }
                    Some(Rational { num: n, den: dd })
                },
                None => None,
            },
            _ => None,
        }
    }

    /// Exact multiplication; `None` exactly when the exact result exceeds
    /// `u128::MAX` in a component.
    pub fn checked_mul(&self, other: &Rational) -> (r: Option<Rational>)
        requires
            self.wf(),
            other.wf(),
        ensures
            r is Some <==> !q_mul_overflows(self@, other@),
            r is Some ==> (r->0)@ == q_mul(self@, other@) && (r->0).wf(),
    {
        let n = self.num.checked_mul(other.num);
        let d = self.den.checked_mul(other.den);
        match (n, d) {
            (Some(n), Some(d)) => {
                proof {
                    lemma_pos_mul(self.den as int, other.den as int);
                }
                Some(Rational { num: n, den: d })
            },
            _ => None,
        }
    }

    /// Exact division; the divisor must denote a non-zero number.  `None`
    /// exactly when the exact result exceeds `u128::MAX` in a component.
    pub fn checked_div(&self, other: &Rational) -> (r: Option<Rational>)
        requires
            self.wf(),
            other.wf(),
            other.num > 0,
        ensures
            r is Some <==> !q_div_overflows(self@, other@),
            r is Some ==> (r->0)@ == q_div(self@, other@) && (r->0).wf(),
    {
        let n = self.num.checked_mul(other.den);
        let d = self.den.checked_mul(other.num);
        match (n, d) {
            (Some(n), Some(d)) => {
                proof {
                    lemma_pos_mul(self.den as int, other.num as int);
                }
                Some(Rational { num: n, den: d })
            },
            _ => None,
        }
    }
}

/// `10^e`.
pub open spec fn pow10(e: nat) -> int
    decreases e,
{
    if e == 0 {
        1
    } else {
        10 * pow10((e - 1) as nat)
    }
}

pub proof fn lemma_pow10_pos(e: nat)
    ensures
        pow10(e) >= 1,
    decreases e,
{
    if e > 0 {
        lemma_pow10_pos((e - 1) as nat);
    }
}

pub proof fn lemma_pow10_increases(a: nat, b: nat)
    requires
        a <= b,
    ensures
        pow10(a) <= pow10(b),
    decreases b,
{
    if a < b {
        lemma_pow10_increases(a, (b - 1) as nat);
        lemma_pow10_pos((b - 1) as nat);
    }
}

impl Rational {
    /// `10^e` as an executable value; `None` exactly when it does not fit
    /// in `u128`.
    pub fn pow10_checked(e: u8) -> (r: Option<u128>)
        ensures
            r is Some <==> pow10(e as nat) <= u128::MAX,
            r is Some ==> r->0 == pow10(e as nat),
    {
        let mut acc: u128 = 1;
        let mut i: u8 = 0;
        while i < e
            invariant
                i <= e,
                acc == pow10(i as nat),
            decreases e - i,
        {
            match acc.checked_mul(10) {
                Some(next) => {
                    acc = next;
                },
                None => {
                    proof {
                        lemma_pow10_increases((i + 1) as nat, e as nat);
                    }
                    return None;
                },
            }
            i += 1;
        }
        Some(acc)
    }

    /// The exact value of a raw integer amount scaled by `10^decimals`,
    /// i.e. `raw / 10^decimals`; `None` exactly when the scaling factor
    /// does not fit in `u128`.
    pub fn from_scaled(raw: u128, decimals: u8) -> (r: Option<Rational>)
        ensures
            r is Some <==> pow10(decimals as nat) <= u128::MAX,
            r is Some ==> (r->0).wf() && (r->0)@ == (Q {
                n: raw as int,
                d: pow10(decimals as nat),
            }),
    {
        match Self::pow10_checked(decimals) {
            Some(den) => {
                proof {
                    lemma_pow10_pos(decimals as nat);
                }
                Some(Rational { num: raw, den })
            },
            None => None,
        }
    }

    /// Exact comparison `self <= other` as numbers.  The cross products can
    /// exceed `u128`, so they are computed in two halves; the comparison is
    /// total.
    pub fn le(&self, other: &Rational) -> (r: bool)
        requires
            self.wf(),
            other.wf(),
        ensures
            r == q_le(self@, other@),
    {
        let (lh, ll) = mul_wide(self.num, other.den);
        let (rh, rl) = mul_wide(other.num, self.den);
        proof {
            lemma_wide_le(lh as int, ll as int, rh as int, rl as int);
        }
        if lh < rh {
            true
        } else if lh == rh {
            ll <= rl
        } else {
            false
        }
    }
}

/// `2^64`, the split point of a `u128` into halves.
pub const HALF_WORD: u128 = 0x10000000000000000;

/// `2^128`, the weight of the high word of a double-width product.
pub open spec fn full_word() -> int {
    0x100000000000000000000000000000000int
}

/// Comparing double-width values word by word agrees with comparing them
/// as numbers.
proof fn lemma_wide_le(xh: int, xl: int, yh: int, yl: int)
    requires
        0 <= xl < full_word(),
        0 <= yl < full_word(),
        0 <= xh,
        0 <= yh,
    ensures
        (xh * full_word() + xl <= yh * full_word() + yl) <==> (xh < yh || (xh == yh && xl
            <= yl)),
{
    if xh < yh {
        assert(xh * full_word() + full_word() <= yh * full_word()) by (nonlinear_arith)
            requires
                xh < yh,
        ;
    }
    if xh > yh {
        assert(yh * full_word() + full_word() <= xh * full_word()) by (nonlinear_arith)
            requires
                yh < xh,
        ;
    }
}

/// The full 256-bit product of two `u128` values, as (high, low) words:
/// `r.0 * 2^128 + r.1 == a * b`, with no possibility of overflow.
pub fn mul_wide(a: u128, b: u128) -> (r: (u128, u128))
    ensures
        (r.0 as int) * full_word() + (r.1 as int) == a * b,
{
    let al = a % HALF_WORD;
    let ah = a / HALF_WORD;
    let bl = b % HALF_WORD;
    let bh = b / HALF_WORD;
    proof {
        assert(al < HALF_WORD && bl < HALF_WORD);
        assert(ah < HALF_WORD && bh < HALF_WORD) by (nonlinear_arith)
            requires
                ah == a as int / HALF_WORD as int,
                bh == b as int / HALF_WORD as int,
                a <= u128::MAX,
                b <= u128::MAX,
        ;
        assert(al * bl <= (HALF_WORD - 1) * (HALF_WORD - 1)) by (nonlinear_arith)
            requires
                0 <= al < HALF_WORD,
                0 <= bl < HALF_WORD,
        ;
        assert(al * bh <= (HALF_WORD - 1) * (HALF_WORD - 1)) by (nonlinear_arith)
            requires
                0 <= al < HALF_WORD,
                0 <= bh < HALF_WORD,
        ;
        assert(ah * bl <= (HALF_WORD - 1) * (HALF_WORD - 1)) by (nonlinear_arith)
            requires
                0 <= ah < HALF_WORD,
                0 <= bl < HALF_WORD,
        ;
        assert(ah * bh <= (HALF_WORD - 1) * (HALF_WORD - 1)) by (nonlinear_arith)
            requires
                0 <= ah < HALF_WORD,
                0 <= bh < HALF_WORD,
        ;
    }
    let ll = al * bl;
    let lh = al * bh;
    let hl = ah * bl;
    let hh = ah * bh;
    let t = ll / HALF_WORD + lh % HALF_WORD + hl % HALF_WORD;
    proof {
        assert((ll as int) / (HALF_WORD as int) <= HALF_WORD - 2) by (nonlinear_arith)
            requires
                0 <= ll <= (HALF_WORD - 1) * (HALF_WORD - 1),
        ;
        assert((lh as int) / (HALF_WORD as int) <= HALF_WORD - 2) by (nonlinear_arith)
            requires
                0 <= lh <= (HALF_WORD - 1) * (HALF_WORD - 1),
        ;
        assert((hl as int) / (HALF_WORD as int) <= HALF_WORD - 2) by (nonlinear_arith)
            requires
                0 <= hl <= (HALF_WORD - 1) * (HALF_WORD - 1),
        ;
    }
    let lo = (t % HALF_WORD) * HALF_WORD + ll % HALF_WORD;
    let hi = hh + lh / HALF_WORD + hl / HALF_WORD + t / HALF_WORD;
    proof {
        let p = HALF_WORD as int;
        // every piece is its two halves reassembled
        vstd::arithmetic::div_mod::lemma_fundamental_div_mod(a as int, p);
        vstd::arithmetic::div_mod::lemma_fundamental_div_mod(b as int, p);
        vstd::arithmetic::div_mod::lemma_fundamental_div_mod(ll as int, p);
        vstd::arithmetic::div_mod::lemma_fundamental_div_mod(lh as int, p);
        vstd::arithmetic::div_mod::lemma_fundamental_div_mod(hl as int, p);
        vstd::arithmetic::div_mod::lemma_fundamental_div_mod(t as int, p);
        lemma_mul_wide_recombine(
            p,
            al as int,
            ah as int,
            bl as int,
            bh as int,
            ll as int % p,
            ll as int / p,
            lh as int % p,
            lh as int / p,
            hl as int % p,
            hl as int / p,
            t as int % p,
            t as int / p,
        );
        assert(full_word() == p * p);
    }
    (hi, lo)
}

/// The schoolbook recombination of a double-width product from the half
/// products and their carries.
proof fn lemma_mul_wide_recombine(
    p: int,
    al: int,
    ah: int,
    bl: int,
    bh: int,
    lll: int,
    llh: int,
    lhl: int,
    lhh: int,
    hll: int,
    hlh: int,
    tl: int,
    th: int,
)
    requires
        al * bl == p * llh + lll,
        al * bh == p * lhh + lhl,
        ah * bl == p * hlh + hll,
        llh + lhl + hll == p * th + tl,
    ensures
        (ah * bh + lhh + hlh + th) * (p * p) + (tl * p + lll) == (p * ah + al) * (p * bh + bl),
{
    vstd::arithmetic::mul::lemma_mul_is_distributive_add_other_way(p * bh + bl, p * ah, al);
    vstd::arithmetic::mul::lemma_mul_is_distributive_add(p * ah, p * bh, bl);
    vstd::arithmetic::mul::lemma_mul_is_distributive_add(al, p * bh, bl);
    assert((p * ah) * (p * bh) == (ah * bh) * (p * p)) by (nonlinear_arith);
    assert((p * ah) * bl == (ah * bl) * p) by (nonlinear_arith);
    assert(al * (p * bh) == (al * bh) * p) by (nonlinear_arith);
    assert((p * ah + al) * (p * bh + bl) == (ah * bh) * (p * p) + (al * bh) * p + (ah * bl) * p + al
        * bl);
    assert((al * bh) * p == lhh * (p * p) + lhl * p) by (nonlinear_arith)
        requires
            al * bh == p * lhh + lhl,
    ;
    assert((ah * bl) * p == hlh * (p * p) + hll * p) by (nonlinear_arith)
        requires
            ah * bl == p * hlh + hll,
    ;
    assert(llh * p + lhl * p + hll * p == th * (p * p) + tl * p) by (nonlinear_arith)
        requires
            llh + lhl + hll == p * th + tl,
    ;
    assert((ah * bh + lhh + hlh + th) * (p * p) == (ah * bh) * (p * p) + lhh * (p * p) + hlh * (p
        * p) + th * (p * p)) by (nonlinear_arith);
    assert(al * bl == llh * p + lll) by (nonlinear_arith)
        requires
            al * bl == p * llh + lll,
    ;
}

/// The product of two positive integers is positive.
pub proof fn lemma_pos_mul(a: int, b: int)
    by (nonlinear_arith)
    requires
        a > 0,
        b > 0,
    ensures
        a * b > 0,
{
}

/// The exact sum `a + b` has a component beyond `u128`.
pub open spec fn q_add_overflows(a: Q, b: Q) -> bool {
    a.n * b.d > u128::MAX || b.n * a.d > u128::MAX || a.n * b.d + b.n * a.d > u128::MAX
    || a.d * b.d > u128::MAX
}

/// The exact product `a * b` has a component beyond `u128`.
pub open spec fn q_mul_overflows(a: Q, b: Q) -> bool {
    a.n * b.n > u128::MAX || a.d * b.d > u128::MAX
}

/// The exact quotient `a / b` has a component beyond `u128`.
pub open spec fn q_div_overflows(a: Q, b: Q) -> bool {
    a.n * b.d > u128::MAX || a.d * b.n > u128::MAX
}

/// Addition of rationals does not depend on the order of its arguments.
pub proof fn lemma_q_add_comm(a: Q, b: Q)
    by (nonlinear_arith)
    ensures
        q_add(a, b) == q_add(b, a),
{
}

/// Adding `a` then `b` to `x` is adding `b` then `a`: the exchange law
/// behind order-independent accumulation.
pub proof fn lemma_q_add_exchange(x: Q, a: Q, b: Q)
    ensures
        q_add(q_add(x, a), b) == q_add(q_add(x, b), a),
{
    assert((x.n * a.d + a.n * x.d) * b.d == x.n * a.d * b.d + a.n * x.d * b.d) by (nonlinear_arith);
    assert((x.n * b.d + b.n * x.d) * a.d == x.n * b.d * a.d + b.n * x.d * a.d) by (nonlinear_arith);
    assert(b.n * (x.d * a.d) == b.n * x.d * a.d) by (nonlinear_arith);
    assert(a.n * (x.d * b.d) == a.n * x.d * b.d) by (nonlinear_arith);
    assert(x.n * a.d * b.d == x.n * b.d * a.d) by (nonlinear_arith);
    assert((x.d * a.d) * b.d == (x.d * b.d) * a.d) by (nonlinear_arith);
}

/// `<=` on rationals is transitive (denominators positive).
pub proof fn lemma_q_le_trans(a: Q, b: Q, c: Q)
    by (nonlinear_arith)
    requires
        a.d > 0,
        b.d > 0,
        c.d > 0,
        q_le(a, b),
        q_le(b, c),
    ensures
        q_le(a, c),
{
}

pub proof fn lemma_q_mul_wf(a: Q, b: Q)
    by (nonlinear_arith)
    requires
        q_wf(a),
        q_wf(b),
    ensures
        q_wf(q_mul(a, b)),
{
}

pub proof fn lemma_q_div_wf(a: Q, b: Q)
    by (nonlinear_arith)
    requires
        q_wf(a),
        q_wf(b),
        b.n > 0,
    ensures
        q_wf(q_div(a, b)),
{
}

pub proof fn lemma_q_add_wf(a: Q, b: Q)
    by (nonlinear_arith)
    requires
        q_wf(a),
        q_wf(b),
    ensures
        q_wf(q_add(a, b)),
{
}

/// Multiplying two rationals by the same well-formed factor on the left
/// preserves their order.
pub proof fn lemma_q_mul_le_left(c: Q, a: Q, b: Q)
    requires
        q_wf(c),
        q_wf(a),
        q_wf(b),
        q_le(a, b),
    ensures
        q_le(q_mul(c, a), q_mul(c, b)),
{
    assert((c.n * a.n) * (c.d * b.d) == (c.n * c.d) * (a.n * b.d)) by (nonlinear_arith);
    assert((c.n * b.n) * (c.d * a.d) == (c.n * c.d) * (b.n * a.d)) by (nonlinear_arith);
    assert((c.n * c.d) * (a.n * b.d) <= (c.n * c.d) * (b.n * a.d)) by (nonlinear_arith)
        requires
            c.n >= 0,
            c.d > 0,
            a.n * b.d <= b.n * a.d,
    ;
}

/// Dividing two rationals by the same positive divisor preserves their
/// order.
pub proof fn lemma_q_div_le(a: Q, b: Q, m: Q)
    requires
        q_wf(a),
        q_wf(b),
        q_wf(m),
        m.n > 0,
        q_le(a, b),
    ensures
        q_le(q_div(a, m), q_div(b, m)),
{
    assert((a.n * m.d) * (a.d * m.n) == (m.d * m.n) * (a.n * a.d)) by (nonlinear_arith);
    assert((a.n * m.d) * (b.d * m.n) == (m.d * m.n) * (a.n * b.d)) by (nonlinear_arith);
    assert((b.n * m.d) * (a.d * m.n) == (m.d * m.n) * (b.n * a.d)) by (nonlinear_arith);
    assert((m.d * m.n) * (a.n * b.d) <= (m.d * m.n) * (b.n * a.d)) by (nonlinear_arith)
        requires
            m.n > 0,
            m.d > 0,
            a.n * b.d <= b.n * a.d,
    ;
}

/// Adding the same well-formed rational on the left preserves order.
pub proof fn lemma_q_add_le_right(c: Q, a: Q, b: Q)
    requires
        q_wf(c),
        q_wf(a),
        q_wf(b),
        q_le(a, b),
    ensures
        q_le(q_add(c, a), q_add(c, b)),
{
    assert((c.n * a.d + a.n * c.d) * (c.d * b.d) == (c.n * a.d) * (c.d * b.d) + (c.d * c.d) * (a.n
        * b.d)) by (nonlinear_arith);
    assert((c.n * b.d + b.n * c.d) * (c.d * a.d) == (c.n * b.d) * (c.d * a.d) + (c.d * c.d) * (b.n
        * a.d)) by (nonlinear_arith);
    assert((c.n * a.d) * (c.d * b.d) == (c.n * b.d) * (c.d * a.d)) by (nonlinear_arith);
    assert((c.d * c.d) * (a.n * b.d) <= (c.d * c.d) * (b.n * a.d)) by (nonlinear_arith)
        requires
            a.n * b.d <= b.n * a.d,
    ;
}

/// The sum of a sequence of rationals, accumulated left to right.
pub open spec fn q_sum(s: Seq<Q>) -> Q
    decreases s.len(),
{
    if s.len() == 0 {
        q_int(0)
    } else {
        q_add(q_sum(s.drop_last()), s.last())
    }
}

/// Accumulating the sum left to right leaves `u128` somewhere along the way.
pub open spec fn q_sum_overflows(s: Seq<Q>) -> bool
    decreases s.len(),
{
    if s.len() == 0 {
        false
    } else {
        q_sum_overflows(s.drop_last()) || q_add_overflows(q_sum(s.drop_last()), s.last())
    }
}

/// Summing a sequence is summing the rest and adding the element at `i`.
pub proof fn lemma_q_sum_remove(s: Seq<Q>, i: int)
    requires
        0 <= i < s.len(),
    ensures
        q_sum(s) == q_add(q_sum(s.remove(i)), s[i]),
    decreases s.len(),
{
    if i == s.len() - 1 {
        assert(s.remove(i) =~= s.drop_last());
    } else {
        let rest = s.drop_last();
        lemma_q_sum_remove(rest, i);
        assert(s.remove(i).drop_last() =~= rest.remove(i));
        assert(s.remove(i).last() == s.last());
        lemma_q_add_exchange(q_sum(rest.remove(i)), s[i], s.last());
    }
}

/// The sum of a sequence of rationals depends only on which values occur,
/// with their multiplicities — not on the order they are accumulated in.
pub proof fn lemma_q_sum_permutation(s1: Seq<Q>, s2: Seq<Q>)
    requires
        s1.to_multiset() == s2.to_multiset(),
    ensures
        q_sum(s1) == q_sum(s2),
    decreases s1.len(),
{
    broadcast use vstd::seq_lib::group_to_multiset_ensures;

    if s1.len() == 0 {
        assert(s1.to_multiset().len() == 0);
        assert(s2.to_multiset().len() == s2.len());
        assert(s2.len() == 0);
    } else {
        let a = s1.last();
        assert(s1.contains(a));
        assert(s2.to_multiset().count(a) > 0);
        assert(s2.contains(a));
        let j = choose|j: int| 0 <= j < s2.len() && s2[j] == a;
        assert(s1 =~= s1.drop_last().push(a));
        assert(s1.drop_last().push(a).to_multiset() == s1.drop_last().to_multiset().insert(a));
        assert(s2.remove(j).to_multiset() == s2.to_multiset().remove(a));
        assert(s1.drop_last().to_multiset() =~= s2.remove(j).to_multiset()) by {
            assert(s1.to_multiset() == s1.drop_last().to_multiset().insert(a));
            assert(forall|x: Q|
                s1.drop_last().to_multiset().count(x) == s2.remove(j).to_multiset().count(x)) by {
                assert(forall|x: Q|
                    s1.to_multiset().count(x) == s1.drop_last().to_multiset().insert(a).count(x));
            }
        }
        lemma_q_sum_permutation(s1.drop_last(), s2.remove(j));
        lemma_q_sum_remove(s2, j);
    }
}

} // verus!
