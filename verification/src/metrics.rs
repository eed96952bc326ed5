//! The metric engine: spot prices, pooled liquidity, the aggregated
//! protocol-owned-liquidity share, and the peg-model curve, all as exact
//! arithmetic over normalized amounts.
//!
//! A division by a structurally empty pool (zero balance or zero supply) is
//! reported as a degenerate input, never as an infinity or a stand-in
//! value; a result that no longer fits the exact representation is reported
//! as an overflow.

use vstd::prelude::*;

use crate::asset::Asset;
use crate::rational::{
    pow10, q_add_overflows, q_div, q_div_overflows, q_eq, q_int, q_mul, q_mul_overflows, q_sum,
    q_sum_overflows, q_wf, Q, Rational,
};

verus! {

/// Why a metric could not be computed.
#[derive(Clone, Copy, Debug, PartialEq, Eq, Structural)]
pub enum MetricError {
    /// A pool that the formula divides by is structurally empty.
    DegenerateInput,
    /// The exact result no longer fits the `u128` representation.
    Overflow,
}

/// Decimal-normalizes one raw on-chain amount: `raw / 10^decimals`, exactly.
pub fn normalize_balance(raw: u128, decimals: u8) -> (r: Result<Rational, MetricError>)
    ensures
        r is Ok <==> pow10(decimals as nat) <= u128::MAX,
        r is Ok ==> (r->Ok_0).wf() && (r->Ok_0)@ == (Q {
            n: raw as int,
            d: pow10(decimals as nat),
        }),
        r is Err ==> r->Err_0 == MetricError::Overflow,
{
    match Rational::from_scaled(raw, decimals) {
        Some(v) => Ok(v),
        None => Err(MetricError::Overflow),
    }
}

/// The pool's LP-token supply, decimal-normalized from its metadata.
pub fn pooled_supply(asset: &Asset) -> (r: Result<Rational, MetricError>)
    ensures
        r is Ok <==> pow10(asset.d as nat) <= u128::MAX,
        r is Ok ==> (r->Ok_0).wf() && (r->Ok_0)@ == (Q {
            n: asset.ts as int,
            d: pow10(asset.d as nat),
        }),
        r is Err ==> r->Err_0 == MetricError::Overflow,
{
    normalize_balance(asset.ts, asset.d)
}

/// Spot price of one token in units of another, from the pool's two
/// normalized reserves: `amount_quote / amount_base`.
pub fn price(amount_quote: &Rational, amount_base: &Rational) -> (r: Result<
    Rational,
    MetricError,
>)
    requires
        amount_quote.wf(),
        amount_base.wf(),
    ensures
        r == Result::<Rational, MetricError>::Err(MetricError::DegenerateInput) <==> amount_base.num
            == 0,
        r == Result::<Rational, MetricError>::Err(MetricError::Overflow) <==> amount_base.num != 0
            && q_div_overflows(amount_quote@, amount_base@),
        r is Ok <==> amount_base.num != 0 && !q_div_overflows(amount_quote@, amount_base@),
        r is Ok ==> (r->Ok_0).wf() && (r->Ok_0)@ == q_div(amount_quote@, amount_base@),
{
    if amount_base.num == 0 {
        return Err(MetricError::DegenerateInput);
    }
    match amount_quote.checked_div(amount_base) {
        Some(v) => Ok(v),
        None => Err(MetricError::Overflow),
    }
}

/// The two directions of a spot price are reciprocal: their product is one.
pub proof fn lemma_price_reciprocal(a: Q, b: Q)
    requires
        q_wf(a),
        q_wf(b),
        a.n > 0,
        b.n > 0,
    ensures
        q_eq(q_mul(q_div(a, b), q_div(b, a)), q_int(1)),
{
    assert((a.n * b.d) * (b.n * a.d) == (a.d * b.n) * (b.d * a.n)) by (nonlinear_arith);
}

/// Two-sided liquidity estimate of a pool: `2 * price_hint * balance`.
pub fn liquidity(price_hint: &Rational, balance: &Rational) -> (r: Result<Rational, MetricError>)
    requires
        price_hint.wf(),
        balance.wf(),
    ensures
        r is Ok <==> !q_mul_overflows(price_hint@, balance@) && !q_mul_overflows(
            q_int(2),
            q_mul(price_hint@, balance@),
        ),
        r is Ok ==> (r->Ok_0).wf() && (r->Ok_0)@ == q_mul(
            q_int(2),
            q_mul(price_hint@, balance@),
        ),
        r is Err ==> r->Err_0 == MetricError::Overflow,
{
    let two = Rational::from_int(2);
    match price_hint.checked_mul(balance) {
        Some(prod) => match two.checked_mul(&prod) {
            Some(v) => Ok(v),
            None => Err(MetricError::Overflow),
        },
        None => Err(MetricError::Overflow),
    }
}

/// Two-sided liquidity of a pool already quoted in the reference unit:
/// `2 * balance`.
pub fn liquidity_quoted(balance: &Rational) -> (r: Result<Rational, MetricError>)
    requires
        balance.wf(),
    ensures
        r is Ok <==> !q_mul_overflows(q_int(2), balance@),
        r is Ok ==> (r->Ok_0).wf() && (r->Ok_0)@ == q_mul(q_int(2), balance@),
        r is Err ==> r->Err_0 == MetricError::Overflow,
{
    let two = Rational::from_int(2);
    match two.checked_mul(balance) {
        Some(v) => Ok(v),
        None => Err(MetricError::Overflow),
    }
}

/// The mathematical values of a sequence of amounts.
pub open spec fn balance_views(s: Seq<Rational>) -> Seq<Q> {
    s.map_values(|b: Rational| b@)
}

proof fn lemma_q_sum_overflows_prefix(s: Seq<Q>, m: int)
    requires
        0 <= m <= s.len(),
        q_sum_overflows(s.take(m)),
    ensures
        q_sum_overflows(s),
    decreases s.len() - m,
{
    if m == s.len() {
        assert(s.take(m) =~= s);
    } else {
        assert(s.take(m + 1).drop_last() =~= s.take(m));
        lemma_q_sum_overflows_prefix(s, m + 1);
    }
}

/// Reduces the balances of a holder set to their exact sum.  Since exact
/// addition of rationals is commutative and associative, any order of
/// accumulation yields this same sum (see
/// `rational::lemma_q_sum_permutation`).
pub fn sum_balances(balances: &Vec<Rational>) -> (r: Result<Rational, MetricError>)
    requires
        forall|i: int| 0 <= i < balances@.len() ==> (#[trigger] balances@[i]).wf(),
    ensures
        r is Ok <==> !q_sum_overflows(balance_views(balances@)),
        r is Ok ==> (r->Ok_0).wf() && (r->Ok_0)@ == q_sum(balance_views(balances@)),
        r is Err ==> r->Err_0 == MetricError::Overflow,
{
    let ghost bv = balance_views(balances@);
    let mut acc = Rational::from_int(0);
    let mut i: usize = 0;
    while i < balances.len()
        invariant
            i <= balances@.len(),
            forall|k: int| 0 <= k < balances@.len() ==> (#[trigger] balances@[k]).wf(),
            bv == balance_views(balances@),
            bv.len() == balances@.len(),
            acc.wf(),
            acc@ == q_sum(bv.take(i as int)),
            !q_sum_overflows(bv.take(i as int)),
        decreases balances@.len() - i,
    {
        let b = balances[i];
        proof {
            assert(bv.take(i + 1).drop_last() =~= bv.take(i as int));
            assert(bv.take(i + 1).last() == b@);
        }
        match acc.checked_add(&b) {
            Some(next) => {
                acc = next;
            },
            None => {
                proof {
                    lemma_q_sum_overflows_prefix(bv, i + 1);
                }
                return Err(MetricError::Overflow);
            },
        }
        i += 1;
    }
    proof {
        assert(bv.take(balances@.len() as int) =~= bv);
    }
    Ok(acc)
}

/// One liquidity pool's inputs to the protocol-owned-liquidity aggregate:
/// its two-sided liquidity, the holder set's aggregated LP balance, and the
/// pool's LP supply, all normalized.
#[derive(Clone, Copy, Debug)]
pub struct PoolPosition {
    pub liquidity: Rational,
    pub holders_balance: Rational,
    pub pooled_supply: Rational,
}

impl PoolPosition {
    pub open spec fn wf(&self) -> bool {
        self.liquidity.wf() && self.holders_balance.wf() && self.pooled_supply.wf()
    }
}

/// One pool's weighted term: `liquidity * holders_balance / pooled_supply`.
pub open spec fn pol_term(p: PoolPosition) -> Q {
    q_div(q_mul(p.liquidity@, p.holders_balance@), p.pooled_supply@)
}

pub open spec fn pol_terms(s: Seq<PoolPosition>) -> Seq<Q> {
    s.map_values(|p: PoolPosition| pol_term(p))
}

/// The protocol-owned-liquidity aggregate: the sum of the pools' weighted
/// terms.
pub open spec fn pol_sum(s: Seq<PoolPosition>) -> Q {
    q_sum(pol_terms(s))
}

/// Some pool's LP supply denotes zero, so its term divides by zero.
pub open spec fn has_degenerate_pool(s: Seq<PoolPosition>) -> bool {
    exists|i: int| 0 <= i < s.len() && (#[trigger] s[i]).pooled_supply.num == 0
}

/// Computing one pool's term leaves `u128`.
pub open spec fn pol_term_overflows(p: PoolPosition) -> bool {
    q_mul_overflows(p.liquidity@, p.holders_balance@) || q_div_overflows(
        q_mul(p.liquidity@, p.holders_balance@),
        p.pooled_supply@,
    )
}

/// Accumulating the aggregate left to right leaves `u128` somewhere.
pub open spec fn pol_overflows(s: Seq<PoolPosition>) -> bool
    decreases s.len(),
{
    if s.len() == 0 {
        false
    } else {
        pol_overflows(s.drop_last()) || pol_term_overflows(s.last()) || q_add_overflows(
            pol_sum(s.drop_last()),
            pol_term(s.last()),
        )
    }
}

proof fn lemma_pol_overflows_prefix(s: Seq<PoolPosition>, m: int)
    requires
        0 <= m <= s.len(),
        pol_overflows(s.take(m)),
    ensures
        pol_overflows(s),
    decreases s.len() - m,
{
    if m == s.len() {
        assert(s.take(m) =~= s);
    } else {
        assert(s.take(m + 1).drop_last() =~= s.take(m));
        lemma_pol_overflows_prefix(s, m + 1);
    }
}

/// The protocol-owned-liquidity share: for each pool, its liquidity
/// weighted by the holder set's share of the LP supply, the terms summed —
/// a weighted sum, not an average.  A pool with zero LP supply is reported
/// as a degenerate input rather than divided by.
pub fn protocol_owned_liquidity_share(pools: &Vec<PoolPosition>) -> (r: Result<
    Rational,
    MetricError,
>)
    requires
        forall|i: int| 0 <= i < pools@.len() ==> (#[trigger] pools@[i]).wf(),
    ensures
        r == Result::<Rational, MetricError>::Err(MetricError::DegenerateInput)
            <==> has_degenerate_pool(pools@),
        r == Result::<Rational, MetricError>::Err(MetricError::Overflow) <==> !has_degenerate_pool(
            pools@,
        ) && pol_overflows(pools@),
        r is Ok <==> !has_degenerate_pool(pools@) && !pol_overflows(pools@),
        r is Ok ==> (r->Ok_0).wf() && (r->Ok_0)@ == pol_sum(pools@),
{
    let n = pools.len();
    let mut i: usize = 0;
    while i < n
        invariant
            i <= n,
            n == pools@.len(),
            forall|k: int| 0 <= k < i ==> (#[trigger] pools@[k]).pooled_supply.num != 0,
        decreases n - i,
    {
        if pools[i].pooled_supply.num == 0 {
            return Err(MetricError::DegenerateInput);
        }
        i += 1;
    }
    let ghost terms = pol_terms(pools@);
    let mut acc = Rational::from_int(0);
    let mut k: usize = 0;
    while k < n
        invariant
            k <= n,
            n == pools@.len(),
            forall|j: int| 0 <= j < pools@.len() ==> (#[trigger] pools@[j]).wf(),
            forall|j: int| 0 <= j < pools@.len() ==> (#[trigger] pools@[j]).pooled_supply.num != 0,
            terms == pol_terms(pools@),
            terms.len() == pools@.len(),
            acc.wf(),
            acc@ == q_sum(terms.take(k as int)),
            !pol_overflows(pools@.take(k as int)),
        decreases n - k,
    {
        let p = pools[k];
        proof {
            assert(pools@.take(k + 1).drop_last() =~= pools@.take(k as int));
            assert(pol_terms(pools@.take(k as int)) =~= terms.take(k as int));
            assert(terms.take(k + 1).drop_last() =~= terms.take(k as int));
            assert(terms.take(k + 1).last() == pol_term(pools@[k as int]));
        }
        let weighted = match p.liquidity.checked_mul(&p.holders_balance) {
            Some(w) => w,
            None => {
                proof {
                    lemma_pol_overflows_prefix(pools@, k + 1);
                }
                return Err(MetricError::Overflow);
            },
        };
        let term = match weighted.checked_div(&p.pooled_supply) {
            Some(t) => t,
            None => {
                proof {
                    lemma_pol_overflows_prefix(pools@, k + 1);
                }
                return Err(MetricError::Overflow);
            },
        };
        match acc.checked_add(&term) {
            Some(next) => {
                acc = next;
            },
            None => {
                proof {
                    lemma_pol_overflows_prefix(pools@, k + 1);
                }
                return Err(MetricError::Overflow);
            },
        }
        k += 1;
    }
    proof {
        assert(pools@.take(n as int) =~= pools@);
        assert(terms.take(n as int) =~= terms);
    }
    Ok(acc)
}

} // verus!
