//! The peg-model curve: a clamped linear function mapping the
//! protocol-owned-liquidity aggregate (pre-scaled to millions) to an
//! implied price floor, `max(floor, bias + maxP * pol / maxL)`.

use vstd::prelude::*;

use crate::metrics::MetricError;
use crate::rational::{
    lemma_q_add_le_right, lemma_q_add_wf, lemma_q_div_le, lemma_q_div_wf, lemma_q_le_trans,
    lemma_q_mul_le_left, lemma_q_mul_wf, q_add, q_add_overflows, q_div, q_div_overflows, q_int,
    q_le, q_mul, q_mul_overflows, q_wf, Q, Rational,
};

verus! {

/// The clamped linear peg model: `max(floor, bias + max_p * pol / max_l)`.
/// Meaningful when every argument is well formed and `max_l` is non-zero.
pub open spec fn peg_model_q(pol: Q, floor: Q, bias: Q, max_p: Q, max_l: Q) -> Q {
    let lin = q_add(bias, q_div(q_mul(max_p, pol), max_l));
    if q_le(lin, floor) {
        floor
    } else {
        lin
    }
}

/// Evaluating the peg model exactly leaves `u128` at some step.
pub open spec fn peg_model_overflows(pol: Q, floor: Q, bias: Q, max_p: Q, max_l: Q) -> bool {
    let scaled = q_mul(max_p, pol);
    let slope = q_div(scaled, max_l);
    q_mul_overflows(max_p, pol) || q_div_overflows(scaled, max_l) || q_add_overflows(bias, slope)
}

/// Evaluates the peg model.  A zero `max_l` would divide by zero and is
/// reported as a degenerate input; a result beyond the exact representation
/// is reported as an overflow.
pub fn peg_model(
    pol: &Rational,
    floor: &Rational,
    bias: &Rational,
    max_p: &Rational,
    max_l: &Rational,
) -> (r: Result<Rational, MetricError>)
    requires
        pol.wf(),
        floor.wf(),
        bias.wf(),
        max_p.wf(),
        max_l.wf(),
    ensures
        r == Result::<Rational, MetricError>::Err(MetricError::DegenerateInput) <==> max_l.num == 0,
        r == Result::<Rational, MetricError>::Err(MetricError::Overflow) <==> max_l.num != 0
            && peg_model_overflows(pol@, floor@, bias@, max_p@, max_l@),
        r is Ok <==> max_l.num != 0 && !peg_model_overflows(pol@, floor@, bias@, max_p@, max_l@),
        r is Ok ==> (r->Ok_0).wf() && (r->Ok_0)@ == peg_model_q(pol@, floor@, bias@, max_p@, max_l@),
{
    if max_l.num == 0 {
        return Err(MetricError::DegenerateInput);
    }
    let scaled = match max_p.checked_mul(pol) {
        Some(v) => v,
        None => {
            return Err(MetricError::Overflow);
        },
    };
    let slope = match scaled.checked_div(max_l) {
        Some(v) => v,
        None => {
            return Err(MetricError::Overflow);
        },
    };
    let lin = match bias.checked_add(&slope) {
        Some(v) => v,
        None => {
            return Err(MetricError::Overflow);
        },
    };
    if lin.le(floor) {
        Ok(*floor)
    } else {
        Ok(lin)
    }
}

/// `10^6`: the aggregate is quoted in millions before entering the model.
pub open spec fn q_million() -> Q {
    q_int(1000000)
}

/// Reference floor of the curve, `2.05`.
pub open spec fn gc_floor() -> Q {
    Q { n: 41, d: 20 }
}

/// Reference bias of the curve, `1.7`.
pub open spec fn gc_bias() -> Q {
    Q { n: 17, d: 10 }
}

/// Reference slope numerator, `600`.
pub open spec fn gc_max_p() -> Q {
    q_int(600)
}

/// Reference slope denominator, `550`.
pub open spec fn gc_max_l() -> Q {
    q_int(550)
}

/// The current peg: the model at the given aggregate, scaled to millions,
/// with the reference parameters.
pub open spec fn current_peg_q(pol: Q) -> Q {
    peg_model_q(q_div(pol, q_million()), gc_floor(), gc_bias(), gc_max_p(), gc_max_l())
}

/// Evaluating the current peg exactly leaves `u128` at some step.
pub open spec fn current_peg_overflows(pol: Q) -> bool {
    q_div_overflows(pol, q_million()) || peg_model_overflows(
        q_div(pol, q_million()),
        gc_floor(),
        gc_bias(),
        gc_max_p(),
        gc_max_l(),
    )
}

/// The current peg in the reference unit: the protocol-owned-liquidity
/// aggregate divided by `10^6`, run through the model with the reference
/// parameters.
pub fn current_peg_usd(pol: &Rational) -> (r: Result<Rational, MetricError>)
    requires
        pol.wf(),
    ensures
        r is Ok <==> !current_peg_overflows(pol@),
        r is Ok ==> (r->Ok_0).wf() && (r->Ok_0)@ == current_peg_q(pol@),
        r is Err ==> r->Err_0 == MetricError::Overflow,
{
    let million = Rational::new(1000000, 1);
    let scaled = match pol.checked_div(&million) {
        Some(v) => v,
        None => {
            return Err(MetricError::Overflow);
        },
    };
    let floor = Rational::new(41, 20);
    let bias = Rational::new(17, 10);
    let max_p = Rational::new(600, 1);
    let max_l = Rational::new(550, 1);
    match peg_model(&scaled, &floor, &bias, &max_p, &max_l) {
        Ok(v) => Ok(v),
        Err(e) => Err(e),
    }
}

/// The current peg re-quoted in the base token: the model's output divided
/// by the base token's spot price.  A zero price cannot be divided by and
/// is reported as a degenerate input.
pub fn current_peg_in_base(pol: &Rational, base_price: &Rational) -> (r: Result<
    Rational,
    MetricError,
>)
    requires
        pol.wf(),
        base_price.wf(),
    ensures
        r == Result::<Rational, MetricError>::Err(MetricError::DegenerateInput) <==> base_price.num
            == 0,
        r == Result::<Rational, MetricError>::Err(MetricError::Overflow) <==> base_price.num != 0
            && (current_peg_overflows(pol@) || q_div_overflows(current_peg_q(pol@), base_price@)),
        r is Ok <==> base_price.num != 0 && !current_peg_overflows(pol@) && !q_div_overflows(
            current_peg_q(pol@),
            base_price@,
        ),
        r is Ok ==> (r->Ok_0).wf() && (r->Ok_0)@ == q_div(current_peg_q(pol@), base_price@),
{
    if base_price.num == 0 {
        return Err(MetricError::DegenerateInput);
    }
    let peg = match current_peg_usd(pol) {
        Ok(v) => v,
        Err(e) => {
            return Err(e);
        },
    };
    match peg.checked_div(base_price) {
        Some(v) => Ok(v),
        None => Err(MetricError::Overflow),
    }
}

/// The peg model never quotes below its floor.
pub proof fn lemma_peg_model_at_least_floor(pol: Q, floor: Q, bias: Q, max_p: Q, max_l: Q)
    ensures
        q_le(floor, peg_model_q(pol, floor, bias, max_p, max_l)),
{
    let lin = q_add(bias, q_div(q_mul(max_p, pol), max_l));
    if q_le(lin, floor) {
    } else {
        assert(q_le(floor, lin));
    }
}

/// The peg model is monotonically non-decreasing in the
/// protocol-owned-liquidity argument, other parameters fixed.
pub proof fn lemma_peg_model_monotonic(pol1: Q, pol2: Q, floor: Q, bias: Q, max_p: Q, max_l: Q)
    requires
        q_wf(pol1),
        q_wf(pol2),
        q_wf(floor),
        q_wf(bias),
        q_wf(max_p),
        q_wf(max_l),
        max_l.n > 0,
        q_le(pol1, pol2),
    ensures
        q_le(
            peg_model_q(pol1, floor, bias, max_p, max_l),
            peg_model_q(pol2, floor, bias, max_p, max_l),
        ),
{
    let s1 = q_mul(max_p, pol1);
    let s2 = q_mul(max_p, pol2);
    let t1 = q_div(s1, max_l);
    let t2 = q_div(s2, max_l);
    let lin1 = q_add(bias, t1);
    let lin2 = q_add(bias, t2);
    lemma_q_mul_wf(max_p, pol1);
    lemma_q_mul_wf(max_p, pol2);
    lemma_q_div_wf(s1, max_l);
    lemma_q_div_wf(s2, max_l);
    lemma_q_add_wf(bias, t1);
    lemma_q_add_wf(bias, t2);
    lemma_q_mul_le_left(max_p, pol1, pol2);
    lemma_q_div_le(s1, s2, max_l);
    lemma_q_add_le_right(bias, t1, t2);
    if q_le(lin1, floor) {
        // the first point is clamped to the floor
        if q_le(lin2, floor) {
            assert(q_le(floor, floor));
        } else {
            assert(q_le(floor, lin2));
        }
    } else {
        // neither point is clamped: lin1 > floor and lin1 <= lin2
        if q_le(lin2, floor) {
            lemma_q_le_trans(lin1, lin2, floor);
            assert(false);
        }
    }
}

} // verus!
