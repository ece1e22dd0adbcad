//! Per-sample loss and gradient functions for the two loss kinds.
//!
//! For parameters `w` (and optional bias `b`) and a sample `(x, y)`, let
//! `ŷ = Σ wᵢ·xᵢ (+ b)` and `r = ŷ − y`.
//!
//! Ordinary least squares: `loss = ½·r²`, `∂loss/∂wᵢ = xᵢ·r`, `∂loss/∂b = r`.
//!
//! Total least squares, with `D = Σ wᵢ² + 1`: `loss = ½·r²/D`,
//! `∂loss/∂wᵢ = (r·xᵢ)/D − (r²·wᵢ)/D²`, `∂loss/∂b = r/D`. `D ≥ 1` always, so
//! no division can degenerate.

use vstd::prelude::*;

use crate::model::{pwf, swf, LossKind, Params, ParamsV, Sample, SampleV};
use crate::rat::{
    add_fits, div_fits, lemma_mul_pos, mul_fits, qadd, qdiv_pos, qeq, qhalf, qint, qmul, qnonneg,
    qsub, qwf, sub_fits, Qv, Rat,
};

verus! {

/// Left fold of `acc + ws[i]*xs[i]` over the indices from `i` up.
pub open spec fn dot_from_q(acc: Qv, ws: Seq<Qv>, xs: Seq<Qv>, i: int) -> Qv
    decreases ws.len() - i,
{
    if i < 0 || i >= ws.len() {
        acc
    } else {
        dot_from_q(qadd(acc, qmul(ws[i], xs[i])), ws, xs, i + 1)
    }
}

/// The model's prediction `ŷ = Σ wᵢ·xᵢ (+ b)` on a sample.
pub open spec fn predict_q(p: ParamsV, s: SampleV) -> Qv {
    let d = dot_from_q(qint(0), p.ws, s.xs, 0);
    if p.has_bias {
        qadd(d, p.b)
    } else {
        d
    }
}

/// The residual `r = ŷ − y`.
pub open spec fn residual_q(p: ParamsV, s: SampleV) -> Qv {
    qsub(predict_q(p, s), s.y)
}

/// Left fold of `acc + ws[i]²` over the indices from `i` up.
pub open spec fn sumsq_from_q(acc: Qv, ws: Seq<Qv>, i: int) -> Qv
    decreases ws.len() - i,
{
    if i < 0 || i >= ws.len() {
        acc
    } else {
        sumsq_from_q(qadd(acc, qmul(ws[i], ws[i])), ws, i + 1)
    }
}

/// The total-least-squares normalizer `D = Σ wᵢ² + 1`.
pub open spec fn tls_denom_q(p: ParamsV) -> Qv {
    qadd(sumsq_from_q(qint(0), p.ws, 0), qint(1))
}

/// Ordinary-least-squares loss `½·r²`.
pub open spec fn ols_loss_q(p: ParamsV, s: SampleV) -> Qv {
    let r = residual_q(p, s);
    qmul(qhalf(), qmul(r, r))
}

/// Total-least-squares loss `½·r²/D`.
pub open spec fn tls_loss_q(p: ParamsV, s: SampleV) -> Qv {
    let r = residual_q(p, s);
    qdiv_pos(qmul(qhalf(), qmul(r, r)), tls_denom_q(p))
}

/// The per-sample loss of the chosen loss kind.
pub open spec fn loss_q(kind: LossKind, p: ParamsV, s: SampleV) -> Qv {
    match kind {
        LossKind::Ols => ols_loss_q(p, s),
        LossKind::Tls => tls_loss_q(p, s),
    }
}

/// The per-sample gradient of the loss with respect to weight `i`.
pub open spec fn grad_w_q(kind: LossKind, p: ParamsV, s: SampleV, i: int) -> Qv {
    let r = residual_q(p, s);
    match kind {
        LossKind::Ols => qmul(s.xs[i], r),
        LossKind::Tls => {
            let d = tls_denom_q(p);
            qsub(qdiv_pos(qmul(r, s.xs[i]), d), qdiv_pos(qmul(qmul(r, r), p.ws[i]), qmul(d, d)))
        },
    }
}

/// The per-sample gradient of the loss with respect to the bias.
pub open spec fn grad_b_q(kind: LossKind, p: ParamsV, s: SampleV) -> Qv {
    let r = residual_q(p, s);
    match kind {
        LossKind::Ols => r,
        LossKind::Tls => qdiv_pos(r, tls_denom_q(p)),
    }
}

/// Whether every step of the dot-product fold from index `i` fits the
/// machine word, starting from the accumulated value `acc`.
pub open spec fn dot_fits_from(acc: Qv, ws: Seq<Qv>, xs: Seq<Qv>, i: int) -> bool
    decreases ws.len() - i,
{
    if i < 0 || i >= ws.len() {
        true
    } else {
        &&& mul_fits(ws[i], xs[i])
        &&& add_fits(acc, qmul(ws[i], xs[i]))
        &&& dot_fits_from(qadd(acc, qmul(ws[i], xs[i])), ws, xs, i + 1)
    }
}

/// Exactly when [`predict`] succeeds: the dot product and the bias addition
/// fit the machine word.
pub open spec fn predict_fits(p: ParamsV, s: SampleV) -> bool {
    &&& dot_fits_from(qint(0), p.ws, s.xs, 0)
    &&& (p.has_bias ==> add_fits(dot_from_q(qint(0), p.ws, s.xs, 0), p.b))
}

/// Exactly when [`residual`] succeeds.
pub open spec fn residual_fits(p: ParamsV, s: SampleV) -> bool {
    &&& predict_fits(p, s)
    &&& sub_fits(predict_q(p, s), s.y)
}

/// Whether every step of the sum-of-squares fold from index `i` fits the
/// machine word.
pub open spec fn sumsq_fits_from(acc: Qv, ws: Seq<Qv>, i: int) -> bool
    decreases ws.len() - i,
{
    if i < 0 || i >= ws.len() {
        true
    } else {
        &&& mul_fits(ws[i], ws[i])
        &&& add_fits(acc, qmul(ws[i], ws[i]))
        &&& sumsq_fits_from(qadd(acc, qmul(ws[i], ws[i])), ws, i + 1)
    }
}

/// Exactly when [`tls_denom`] succeeds.
pub open spec fn tls_denom_fits(p: ParamsV) -> bool {
    &&& sumsq_fits_from(qint(0), p.ws, 0)
    &&& add_fits(sumsq_from_q(qint(0), p.ws, 0), qint(1))
}

/// Exactly when [`loss_per_sample`] succeeds.
pub open spec fn loss_fits(kind: LossKind, p: ParamsV, s: SampleV) -> bool {
    let r = residual_q(p, s);
    &&& residual_fits(p, s)
    &&& mul_fits(r, r)
    &&& mul_fits(qhalf(), qmul(r, r))
    &&& match kind {
        LossKind::Ols => true,
        LossKind::Tls => tls_denom_fits(p) && div_fits(ols_loss_q(p, s), tls_denom_q(p)),
    }
}

/// Exactly when [`grad_weight`] succeeds for weight `i`.
pub open spec fn grad_w_fits(kind: LossKind, p: ParamsV, s: SampleV, i: int) -> bool {
    let r = residual_q(p, s);
    let d = tls_denom_q(p);
    &&& residual_fits(p, s)
    &&& match kind {
        LossKind::Ols => mul_fits(s.xs[i], r),
        LossKind::Tls => {
            &&& tls_denom_fits(p)
            &&& mul_fits(r, s.xs[i])
            &&& div_fits(qmul(r, s.xs[i]), d)
            &&& mul_fits(r, r)
            &&& mul_fits(qmul(r, r), p.ws[i])
            &&& mul_fits(d, d)
            &&& div_fits(qmul(qmul(r, r), p.ws[i]), qmul(d, d))
            &&& sub_fits(
                qdiv_pos(qmul(r, s.xs[i]), d),
                qdiv_pos(qmul(qmul(r, r), p.ws[i]), qmul(d, d)),
            )
        },
    }
}

/// Exactly when [`grad_bias`] succeeds.
pub open spec fn grad_b_fits(kind: LossKind, p: ParamsV, s: SampleV) -> bool {
    &&& residual_fits(p, s)
    &&& match kind {
        LossKind::Ols => true,
        LossKind::Tls => tls_denom_fits(p) && div_fits(residual_q(p, s), tls_denom_q(p)),
    }
}

/// The dot-product fold keeps rationals well-formed.
pub proof fn lemma_dot_from_wf(acc: Qv, ws: Seq<Qv>, xs: Seq<Qv>, i: int)
    requires
        qwf(acc),
        forall|j: int| 0 <= j < ws.len() ==> qwf(#[trigger] ws[j]),
        forall|j: int| 0 <= j < xs.len() ==> qwf(#[trigger] xs[j]),
        ws.len() == xs.len(),
    ensures
        qwf(dot_from_q(acc, ws, xs, i)),
    decreases ws.len() - i,
{
    if i < 0 || i >= ws.len() {
    } else {
        lemma_mul_pos(ws[i].d, xs[i].d);
        lemma_mul_pos(acc.d, qmul(ws[i], xs[i]).d);
        lemma_dot_from_wf(qadd(acc, qmul(ws[i], xs[i])), ws, xs, i + 1);
    }
}

/// The residual of a well-formed model and sample is well-formed.
pub proof fn lemma_residual_wf(p: ParamsV, s: SampleV)
    requires
        pwf(p),
        swf(s),
        p.ws.len() == s.xs.len(),
    ensures
        qwf(residual_q(p, s)),
{
    lemma_dot_from_wf(qint(0), p.ws, s.xs, 0);
    let d = dot_from_q(qint(0), p.ws, s.xs, 0);
    if p.has_bias {
        lemma_mul_pos(d.d, p.b.d);
    }
    lemma_mul_pos(predict_q(p, s).d, s.y.d);
}

/// The sum-of-squares fold keeps rationals well-formed with a nonnegative
/// numerator.
pub proof fn lemma_sumsq_from(acc: Qv, ws: Seq<Qv>, i: int)
    requires
        qwf(acc),
        acc.n >= 0,
        forall|j: int| 0 <= j < ws.len() ==> qwf(#[trigger] ws[j]),
    ensures
        qwf(sumsq_from_q(acc, ws, i)),
        sumsq_from_q(acc, ws, i).n >= 0,
    decreases ws.len() - i,
{
    if i < 0 || i >= ws.len() {
    } else {
        let sq = qmul(ws[i], ws[i]);
        assert(sq.n >= 0 && sq.d > 0) by (nonlinear_arith)
            requires
                ws[i].d > 0,
                sq.n == ws[i].n * ws[i].n,
                sq.d == ws[i].d * ws[i].d,
        ;
        let acc2 = qadd(acc, sq);
        assert(acc2.n >= 0 && acc2.d > 0) by (nonlinear_arith)
            requires
                acc.n >= 0,
                acc.d > 0,
                sq.n >= 0,
                sq.d > 0,
                acc2.n == acc.n * sq.d + sq.n * acc.d,
                acc2.d == acc.d * sq.d,
        ;
        lemma_sumsq_from(acc2, ws, i + 1);
    }
}

/// The normalizer `D = Σ wᵢ² + 1` is well-formed and strictly positive.
pub proof fn lemma_tls_denom_pos(p: ParamsV)
    requires
        pwf(p),
    ensures
        qwf(tls_denom_q(p)),
        tls_denom_q(p).n > 0,
{
    lemma_sumsq_from(qint(0), p.ws, 0);
}

/// The total-least-squares loss is never negative, and it is zero exactly
/// when the residual is zero, for every well-formed model and sample.
pub proof fn lemma_tls_loss_nonneg(p: ParamsV, s: SampleV)
    requires
        pwf(p),
        swf(s),
        p.ws.len() == s.xs.len(),
    ensures
        qwf(tls_loss_q(p, s)),
        qnonneg(tls_loss_q(p, s)),
        qeq(tls_loss_q(p, s), qint(0)) <==> qeq(residual_q(p, s), qint(0)),
{
    lemma_residual_wf(p, s);
    lemma_tls_denom_pos(p);
    let r = residual_q(p, s);
    let d = tls_denom_q(p);
    let l = tls_loss_q(p, s);
    assert(l.n == (1 * (r.n * r.n)) * d.d);
    assert(l.d == (2 * (r.d * r.d)) * d.n);
    assert(l.n >= 0 && l.d > 0 && (l.n == 0 <==> r.n == 0)) by (nonlinear_arith)
        requires
            r.d > 0,
            d.d > 0,
            d.n > 0,
            l.n == (1 * (r.n * r.n)) * d.d,
            l.d == (2 * (r.d * r.d)) * d.n,
    ;
}

/// The prediction `ŷ = Σ wᵢ·xᵢ (+ b)` on a sample; `None` exactly when the
/// computation does not fit the machine word.
pub fn predict(p: &Params, s: &Sample) -> (r: Option<Rat>)
    requires
        pwf(p@),
        swf(s@),
        p@.ws.len() == s@.xs.len(),
    ensures
        r is Some <==> predict_fits(p@, s@),
        r is Some ==> (r->Some_0).wf() && (r->Some_0)@ == predict_q(p@, s@),
{
    let n = p.ws.len();
    let mut acc = Rat::from_int(0);
    let mut i: usize = 0;
    while i < n
        invariant
            i <= n,
            n == p@.ws.len(),
            pwf(p@),
            swf(s@),
            p@.ws.len() == s@.xs.len(),
            acc.wf(),
            dot_from_q(acc@, p@.ws, s@.xs, i as int) == dot_from_q(
                qint(0),
                p@.ws,
                s@.xs,
                0,
            ),
            dot_fits_from(acc@, p@.ws, s@.xs, i as int) == dot_fits_from(
                qint(0),
                p@.ws,
                s@.xs,
                0,
            ),
        decreases n - i,
    {
        let term = match p.ws[i].mul(&s.xs[i]) {
            Some(v) => v,
            None => return None,
        };
        acc = match acc.add(&term) {
            Some(v) => v,
            None => return None,
        };
        i += 1;
    }
    if p.has_bias {
        acc.add(&p.b)
    } else {
        Some(acc)
    }
}

/// The residual `r = ŷ − y` on a sample; `None` exactly when the
/// computation does not fit the machine word.
pub fn residual(p: &Params, s: &Sample) -> (r: Option<Rat>)
    requires
        pwf(p@),
        swf(s@),
        p@.ws.len() == s@.xs.len(),
    ensures
        r is Some <==> residual_fits(p@, s@),
        r is Some ==> (r->Some_0).wf() && (r->Some_0)@ == residual_q(p@, s@),
{
    let yh = match predict(p, s) {
        Some(v) => v,
        None => return None,
    };
    yh.sub(&s.y)
}

/// The total-least-squares normalizer `D = Σ wᵢ² + 1`; `None` exactly when
/// the computation does not fit the machine word.
pub fn tls_denom(p: &Params) -> (r: Option<Rat>)
    requires
        pwf(p@),
    ensures
        r is Some <==> tls_denom_fits(p@),
        r is Some ==> (r->Some_0).wf() && (r->Some_0)@ == tls_denom_q(p@),
{
    let n = p.ws.len();
    let mut acc = Rat::from_int(0);
    let mut i: usize = 0;
    while i < n
        invariant
            i <= n,
            n == p@.ws.len(),
            pwf(p@),
            acc.wf(),
            sumsq_from_q(acc@, p@.ws, i as int) == sumsq_from_q(qint(0), p@.ws, 0),
            sumsq_fits_from(acc@, p@.ws, i as int) == sumsq_fits_from(qint(0), p@.ws, 0),
        decreases n - i,
    {
        let sq = match p.ws[i].mul(&p.ws[i]) {
            Some(v) => v,
            None => return None,
        };
        acc = match acc.add(&sq) {
            Some(v) => v,
            None => return None,
        };
        i += 1;
    }
    acc.add(&Rat::from_int(1))
}

/// The per-sample loss of the chosen loss kind; `None` exactly when the
/// computation does not fit the machine word.
pub fn loss_per_sample(kind: LossKind, p: &Params, s: &Sample) -> (r: Option<Rat>)
    requires
        pwf(p@),
        swf(s@),
        p@.ws.len() == s@.xs.len(),
    ensures
        r is Some <==> loss_fits(kind, p@, s@),
        r is Some ==> (r->Some_0).wf() && (r->Some_0)@ == loss_q(kind, p@, s@),
{
    let res = match residual(p, s) {
        Some(v) => v,
        None => return None,
    };
    let sq = match res.mul(&res) {
        Some(v) => v,
        None => return None,
    };
    let half = Rat::new(1, 2);
    let hsq = match half.mul(&sq) {
        Some(v) => v,
        None => return None,
    };
    match kind {
        LossKind::Ols => Some(hsq),
        LossKind::Tls => {
            let d = match tls_denom(p) {
                Some(v) => v,
                None => return None,
            };
            proof {
                lemma_tls_denom_pos(p@);
            }
            hsq.div_pos(&d)
        },
    }
}

/// The per-sample gradient of the loss with respect to weight `i`; `None`
/// exactly when the computation does not fit the machine word.
pub fn grad_weight(kind: LossKind, p: &Params, s: &Sample, i: usize) -> (r: Option<Rat>)
    requires
        pwf(p@),
        swf(s@),
        p@.ws.len() == s@.xs.len(),
        i < p@.ws.len(),
    ensures
        r is Some <==> grad_w_fits(kind, p@, s@, i as int),
        r is Some ==> (r->Some_0).wf() && (r->Some_0)@ == grad_w_q(kind, p@, s@, i as int),
{
    let res = match residual(p, s) {
        Some(v) => v,
        None => return None,
    };
    proof {
        assert(s.xs@[i as int]@ == s@.xs[i as int]);
        assert(p.ws@[i as int]@ == p@.ws[i as int]);
    }
    match kind {
        LossKind::Ols => s.xs[i].mul(&res),
        LossKind::Tls => {
            let d = match tls_denom(p) {
                Some(v) => v,
                None => return None,
            };
            proof {
                lemma_tls_denom_pos(p@);
            }
            let rx = match res.mul(&s.xs[i]) {
                Some(v) => v,
                None => return None,
            };
            let t1 = match rx.div_pos(&d) {
                Some(v) => v,
                None => return None,
            };
            let rr = match res.mul(&res) {
                Some(v) => v,
                None => return None,
            };
            let rrw = match rr.mul(&p.ws[i]) {
                Some(v) => v,
                None => return None,
            };
            let dd = match d.mul(&d) {
                Some(v) => v,
                None => return None,
            };
            proof {
                lemma_mul_pos(d@.n, d@.n);
            }
            let t2 = match rrw.div_pos(&dd) {
                Some(v) => v,
                None => return None,
            };
            t1.sub(&t2)
        },
    }
}

/// The per-sample gradient of the loss with respect to the bias; `None`
/// exactly when the computation does not fit the machine word.
pub fn grad_bias(kind: LossKind, p: &Params, s: &Sample) -> (r: Option<Rat>)
    requires
        pwf(p@),
        swf(s@),
        p@.ws.len() == s@.xs.len(),
    ensures
        r is Some <==> grad_b_fits(kind, p@, s@),
        r is Some ==> (r->Some_0).wf() && (r->Some_0)@ == grad_b_q(kind, p@, s@),
{
    let res = match residual(p, s) {
        Some(v) => v,
        None => return None,
    };
    match kind {
        LossKind::Ols => Some(res),
        LossKind::Tls => {
            let d = match tls_denom(p) {
                Some(v) => v,
                None => return None,
            };
            proof {
                lemma_tls_denom_pos(p@);
            }
            res.div_pos(&d)
        },
    }
}

} // verus!
