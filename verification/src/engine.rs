//! The optimization engine: chunked gradient-descent epochs over a sample
//! sequence.
//!
//! All three schedules are one loop. Each epoch visits the samples in the
//! order given by [`crate::permute::permute_q`], partitioned into
//! consecutive chunks of the schedule's size (the last chunk may be
//! shorter). For each chunk, per-sample losses and gradients are evaluated
//! at the parameter snapshot taken before the chunk, the gradient sum is
//! divided by the chunk size, and the parameters move once by `η` times
//! that mean gradient. Stochastic descent is chunk size 1, mini-batch a
//! fixed size, full-batch the whole sample count. Running sums and updated
//! parameters are kept in reduced form, which changes no value.

use vstd::prelude::*;

use crate::loss::{
    grad_b_fits, grad_b_q, grad_bias, grad_w_fits, grad_w_q, loss_fits, loss_per_sample, loss_q,
};
use crate::model::{
    pwf, swf, views_of, zero_params_q, LossKind, Params, ParamsV, Report, ReportV, RunConfig,
    RunResult, Sample, SampleV, Schedule,
};
use crate::permute::{idxs_of, permute_indices, permute_q};
use crate::rat::{
    add_fits, div_fits, mul_fits, qadd, qdiv_pos, qint, qmul, qnorm, qsub, sub_fits, Qv, Rat,
};

verus! {

/// The per-sample gradient as a vector with the parameters' shape. For a
/// model without a bias the bias slot is zero and stays untouched.
pub open spec fn grad_vec_q(kind: LossKind, p: ParamsV, s: SampleV) -> ParamsV {
    ParamsV {
        ws: Seq::new(p.ws.len(), |i: int| grad_w_q(kind, p, s, i)),
        b: if p.has_bias {
            grad_b_q(kind, p, s)
        } else {
            qint(0)
        },
        has_bias: p.has_bias,
    }
}

/// Componentwise sum of two gradient vectors of the same shape, each
/// component in reduced form.
pub open spec fn pv_add(a: ParamsV, b: ParamsV) -> ParamsV {
    ParamsV {
        ws: Seq::new(a.ws.len(), |i: int| qnorm(qadd(a.ws[i], b.ws[i]))),
        b: qnorm(qadd(a.b, b.b)),
        has_bias: a.has_bias,
    }
}

/// Left fold of the per-sample gradients of `samples[idxs[j]]`, all
/// evaluated at the same snapshot `p`, from position `j` up.
pub open spec fn gsum_from_q(
    kind: LossKind,
    samples: Seq<SampleV>,
    p: ParamsV,
    idxs: Seq<int>,
    j: int,
    acc: ParamsV,
) -> ParamsV
    decreases idxs.len() - j,
{
    if j < 0 || j >= idxs.len() {
        acc
    } else {
        gsum_from_q(kind, samples, p, idxs, j + 1, pv_add(acc, grad_vec_q(kind, p, samples[idxs[j]])))
    }
}

/// The gradient sum over a chunk, started from the zero vector.
pub open spec fn chunk_grad_sum_q(
    kind: LossKind,
    samples: Seq<SampleV>,
    p: ParamsV,
    idxs: Seq<int>,
) -> ParamsV {
    gsum_from_q(kind, samples, p, idxs, 0, zero_params_q(p.ws.len() as int, p.has_bias))
}

/// The mean gradient of a chunk: the gradient sum divided by the chunk
/// size.
pub open spec fn mean_grad_q(
    kind: LossKind,
    samples: Seq<SampleV>,
    p: ParamsV,
    idxs: Seq<int>,
) -> ParamsV {
    let sum = chunk_grad_sum_q(kind, samples, p, idxs);
    let cnt = qint(idxs.len() as int);
    ParamsV {
        ws: Seq::new(sum.ws.len(), |i: int| qdiv_pos(sum.ws[i], cnt)),
        b: qdiv_pos(sum.b, cnt),
        has_bias: sum.has_bias,
    }
}

/// One parameter update: `params ← params − η·g`, each parameter in
/// reduced form, the bias left alone for models without one.
pub open spec fn apply_update_q(p: ParamsV, lr: Qv, g: ParamsV) -> ParamsV {
    ParamsV {
        ws: Seq::new(p.ws.len(), |i: int| qnorm(qsub(p.ws[i], qmul(lr, g.ws[i])))),
        b: if p.has_bias {
            qnorm(qsub(p.b, qmul(lr, g.b)))
        } else {
            p.b
        },
        has_bias: p.has_bias,
    }
}

/// The parameters after one chunk: one update by the chunk's mean gradient,
/// evaluated at the pre-chunk snapshot.
pub open spec fn chunk_step_q(
    kind: LossKind,
    samples: Seq<SampleV>,
    lr: Qv,
    p: ParamsV,
    idxs: Seq<int>,
) -> ParamsV {
    apply_update_q(p, lr, mean_grad_q(kind, samples, p, idxs))
}

/// Left fold of the per-sample losses of a chunk, all evaluated at the same
/// snapshot `p`, from position `j` up; the running sum is kept reduced.
pub open spec fn losses_from_q(
    kind: LossKind,
    samples: Seq<SampleV>,
    p: ParamsV,
    idxs: Seq<int>,
    j: int,
    acc: Qv,
) -> Qv
    decreases idxs.len() - j,
{
    if j < 0 || j >= idxs.len() {
        acc
    } else {
        losses_from_q(kind, samples, p, idxs, j + 1, qnorm(qadd(acc, loss_q(kind, p, samples[idxs[j]]))))
    }
}

/// The loss of one chunk, summed from zero.
pub open spec fn chunk_loss_q(
    kind: LossKind,
    samples: Seq<SampleV>,
    p: ParamsV,
    idxs: Seq<int>,
) -> Qv {
    losses_from_q(kind, samples, p, idxs, 0, qint(0))
}

/// Exactly when computing the whole per-sample gradient vector succeeds.
pub open spec fn grad_vec_fits(kind: LossKind, p: ParamsV, s: SampleV) -> bool {
    &&& forall|i: int| 0 <= i < p.ws.len() ==> #[trigger] grad_w_fits(kind, p, s, i)
    &&& (p.has_bias ==> grad_b_fits(kind, p, s))
}

/// Exactly when the componentwise sum of two gradient vectors fits the
/// machine word.
pub open spec fn pv_add_fits(a: ParamsV, b: ParamsV) -> bool {
    &&& forall|i: int| 0 <= i < a.ws.len() ==> #[trigger] add_fits(a.ws[i], b.ws[i])
    &&& add_fits(a.b, b.b)
}

/// Whether every gradient and loss evaluation of a chunk, and every
/// accumulation step, fits the machine word, from position `j` on.
pub open spec fn chunk_scan_fits(
    kind: LossKind,
    samples: Seq<SampleV>,
    p: ParamsV,
    idxs: Seq<int>,
    j: int,
    gacc: ParamsV,
    lacc: Qv,
) -> bool
    decreases idxs.len() - j,
{
    if j < 0 || j >= idxs.len() {
        true
    } else {
        let g = grad_vec_q(kind, p, samples[idxs[j]]);
        let l = loss_q(kind, p, samples[idxs[j]]);
        &&& grad_vec_fits(kind, p, samples[idxs[j]])
        &&& loss_fits(kind, p, samples[idxs[j]])
        &&& pv_add_fits(gacc, g)
        &&& add_fits(lacc, l)
        &&& chunk_scan_fits(kind, samples, p, idxs, j + 1, pv_add(gacc, g), qnorm(qadd(lacc, l)))
    }
}

/// Exactly when dividing one gradient-sum component by the chunk size,
/// scaling by the learning rate, and updating weight `i` fits the machine
/// word.
pub open spec fn upd_w_fits(lr: Qv, p: ParamsV, sum: ParamsV, cnt: int, i: int) -> bool {
    &&& div_fits(sum.ws[i], qint(cnt))
    &&& mul_fits(lr, qdiv_pos(sum.ws[i], qint(cnt)))
    &&& sub_fits(p.ws[i], qmul(lr, qdiv_pos(sum.ws[i], qint(cnt))))
}

/// Exactly when applying the mean-gradient update to every parameter fits
/// the machine word: `sum` is the chunk's gradient sum and `cnt` its size.
pub open spec fn update_fits(lr: Qv, p: ParamsV, sum: ParamsV, cnt: int) -> bool {
    &&& forall|i: int| 0 <= i < p.ws.len() ==> #[trigger] upd_w_fits(lr, p, sum, cnt, i)
    &&& (p.has_bias ==> {
        &&& div_fits(sum.b, qint(cnt))
        &&& mul_fits(lr, qdiv_pos(sum.b, qint(cnt)))
        &&& sub_fits(p.b, qmul(lr, qdiv_pos(sum.b, qint(cnt))))
    })
}

/// Exactly when [`chunk_step`] succeeds on a chunk.
pub open spec fn chunk_fits(
    kind: LossKind,
    samples: Seq<SampleV>,
    lr: Qv,
    p: ParamsV,
    idxs: Seq<int>,
) -> bool {
    &&& chunk_scan_fits(
        kind,
        samples,
        p,
        idxs,
        0,
        zero_params_q(p.ws.len() as int, p.has_bias),
        qint(0),
    )
    &&& update_fits(lr, p, chunk_grad_sum_q(kind, samples, p, idxs), idxs.len() as int)
}

/// The fixed surroundings of a run: loss kind, samples, model shape, chunk
/// size, and learning rate.
pub ghost struct EnvV {
    pub kind: LossKind,
    pub samples: Seq<SampleV>,
    pub arity: int,
    pub has_bias: bool,
    pub bsz: int,
    pub lr: Qv,
}

/// The parameters and the accumulated epoch loss after working through the
/// visitation order from position `pos` on, chunk by chunk.
pub open spec fn epoch_from_q(env: EnvV, p: ParamsV, order: Seq<int>, pos: int, loss_acc: Qv) -> (
    ParamsV,
    Qv,
)
    decreases order.len() - pos,
{
    if pos < 0 || pos >= order.len() || env.bsz < 1 {
        (p, loss_acc)
    } else {
        let end = if pos + env.bsz > order.len() {
            order.len() as int
        } else {
            pos + env.bsz
        };
        let idxs = order.subrange(pos, end);
        epoch_from_q(
            env,
            chunk_step_q(env.kind, env.samples, env.lr, p, idxs),
            order,
            end,
            qnorm(qadd(loss_acc, chunk_loss_q(env.kind, env.samples, p, idxs))),
        )
    }
}

/// One full epoch over a visitation order: final parameters and epoch loss.
pub open spec fn epoch_q(env: EnvV, p: ParamsV, order: Seq<int>) -> (ParamsV, Qv) {
    epoch_from_q(env, p, order, 0, qint(0))
}

/// Whether every chunk of the epoch, and every loss accumulation, fits the
/// machine word, from position `pos` on.
pub open spec fn epoch_fits_from(env: EnvV, p: ParamsV, order: Seq<int>, pos: int, loss_acc: Qv) -> bool
    decreases order.len() - pos,
{
    if pos < 0 || pos >= order.len() || env.bsz < 1 {
        true
    } else {
        let end = if pos + env.bsz > order.len() {
            order.len() as int
        } else {
            pos + env.bsz
        };
        let idxs = order.subrange(pos, end);
        &&& chunk_fits(env.kind, env.samples, env.lr, p, idxs)
        &&& add_fits(loss_acc, chunk_loss_q(env.kind, env.samples, p, idxs))
        &&& epoch_fits_from(
            env,
            chunk_step_q(env.kind, env.samples, env.lr, p, idxs),
            order,
            end,
            qnorm(qadd(loss_acc, chunk_loss_q(env.kind, env.samples, p, idxs))),
        )
    }
}

/// Exactly when [`run_epoch`] succeeds on a full visitation order.
pub open spec fn epoch_fits(env: EnvV, p: ParamsV, order: Seq<int>) -> bool {
    epoch_fits_from(env, p, order, 0, qint(0))
}

/// The parameters after `e` epochs, starting from the zero vector.
pub open spec fn run_to_q(env: EnvV, e: int) -> ParamsV
    decreases e,
{
    if e <= 0 {
        zero_params_q(env.arity, env.has_bias)
    } else {
        epoch_q(env, run_to_q(env, e - 1), permute_q(env.samples.len() as int, e - 1)).0
    }
}

/// The loss accumulated over epoch `e`.
pub open spec fn epoch_loss_at_q(env: EnvV, e: int) -> Qv {
    epoch_q(env, run_to_q(env, e), permute_q(env.samples.len() as int, e)).1
}

/// Exactly when [`run`] succeeds over the first `e` epochs: every epoch's
/// computation fits the machine word.
pub open spec fn run_fits_to(env: EnvV, e: int) -> bool
    decreases e,
{
    if e <= 0 {
        true
    } else {
        &&& run_fits_to(env, e - 1)
        &&& epoch_fits(env, run_to_q(env, e - 1), permute_q(env.samples.len() as int, e - 1))
    }
}

/// A run that fits through `big` epochs fits through each single epoch
/// `e < big`.
pub proof fn lemma_run_fits_prefix(env: EnvV, e: int, big: int)
    requires
        0 <= e < big,
        run_fits_to(env, big),
    ensures
        epoch_fits(env, run_to_q(env, e), permute_q(env.samples.len() as int, e)),
    decreases big,
{
    if e < big - 1 {
        lemma_run_fits_prefix(env, e, big - 1);
    }
}

/// The progress reports collected over the first `e` epochs: one per epoch
/// index divisible by `interval`, holding that epoch's loss and the
/// parameters after its updates.
pub open spec fn reports_to_q(env: EnvV, interval: int, e: int) -> Seq<ReportV>
    decreases e,
{
    if e <= 0 {
        Seq::empty()
    } else {
        let prev = reports_to_q(env, interval, e - 1);
        if (e - 1) % interval == 0 {
            prev.push(
                ReportV {
                    epoch: e - 1,
                    loss: epoch_loss_at_q(env, e - 1),
                    params: run_to_q(env, e),
                },
            )
        } else {
            prev
        }
    }
}

/// The chunk size a schedule stands for, over `n` samples.
pub open spec fn chunk_size_spec(sched: Schedule, n: int) -> int {
    match sched {
        Schedule::Sgd => 1,
        Schedule::MiniBatch { size } => size as int,
        Schedule::FullBatch => if n < 1 {
            1
        } else {
            n
        },
    }
}

/// The run surroundings determined by the public entry point's arguments.
pub open spec fn env_of(
    kind: LossKind,
    samples: Seq<SampleV>,
    arity: int,
    has_bias: bool,
    sched: Schedule,
    lr: Qv,
) -> EnvV {
    EnvV {
        kind,
        samples,
        arity,
        has_bias,
        bsz: chunk_size_spec(sched, samples.len() as int),
        lr,
    }
}

/// A full-batch epoch is exactly one update by the mean of the per-sample
/// gradients — the gradient sum divided by the sample count — evaluated at
/// the epoch's starting parameters.
pub proof fn lemma_full_batch_is_mean_step(env: EnvV, p: ParamsV, order: Seq<int>)
    requires
        env.bsz == order.len(),
        order.len() >= 1,
    ensures
        epoch_q(env, p, order).0 == chunk_step_q(env.kind, env.samples, env.lr, p, order),
        epoch_q(env, p, order).0 == apply_update_q(
            p,
            env.lr,
            mean_grad_q(env.kind, env.samples, p, order),
        ),
{
    let len = order.len() as int;
    let idxs = order.subrange(0, len);
    assert(idxs =~= order);
    let p2 = chunk_step_q(env.kind, env.samples, env.lr, p, idxs);
    let l2 = qnorm(qadd(qint(0), chunk_loss_q(env.kind, env.samples, p, idxs)));
    assert(epoch_from_q(env, p2, order, len, l2) == (p2, l2));
    assert(epoch_q(env, p, order).0 == p2);
}

/// Mini-batch descent with chunk size 1 is stochastic descent: the whole
/// run produces identical parameters after every epoch count.
pub proof fn lemma_minibatch_one_is_sgd(
    kind: LossKind,
    samples: Seq<SampleV>,
    arity: int,
    has_bias: bool,
    lr: Qv,
    e: int,
)
    ensures
        run_to_q(env_of(kind, samples, arity, has_bias, Schedule::MiniBatch { size: 1 }, lr), e)
            == run_to_q(env_of(kind, samples, arity, has_bias, Schedule::Sgd, lr), e),
{
    assert(env_of(kind, samples, arity, has_bias, Schedule::MiniBatch { size: 1 }, lr) == env_of(
        kind,
        samples,
        arity,
        has_bias,
        Schedule::Sgd,
        lr,
    ));
}

/// Mini-batch descent with chunk size `n`, the sample count, is full-batch
/// descent: the whole run produces identical parameters after every epoch
/// count.
pub proof fn lemma_minibatch_full_is_full_batch(
    kind: LossKind,
    samples: Seq<SampleV>,
    arity: int,
    has_bias: bool,
    lr: Qv,
    n: usize,
    e: int,
)
    requires
        samples.len() == n as int,
        n >= 1,
    ensures
        run_to_q(env_of(kind, samples, arity, has_bias, Schedule::MiniBatch { size: n }, lr), e)
            == run_to_q(env_of(kind, samples, arity, has_bias, Schedule::FullBatch, lr), e),
{
    assert(env_of(kind, samples, arity, has_bias, Schedule::MiniBatch { size: n }, lr) == env_of(
        kind,
        samples,
        arity,
        has_bias,
        Schedule::FullBatch,
        lr,
    ));
}

/// The per-sample gradient vector; `None` exactly when the computation does
/// not fit the machine word.
pub fn grad_vec(kind: LossKind, p: &Params, s: &Sample) -> (r: Option<Params>)
    requires
        pwf(p@),
        swf(s@),
        p@.ws.len() == s@.xs.len(),
    ensures
        r is Some <==> grad_vec_fits(kind, p@, s@),
        r is Some ==> pwf((r->Some_0)@) && (r->Some_0)@ == grad_vec_q(kind, p@, s@),
{
    let arity = p.ws.len();
    let mut ws: Vec<Rat> = Vec::new();
    let mut i: usize = 0;
    while i < arity
        invariant
            i <= arity,
            arity == p@.ws.len(),
            pwf(p@),
            swf(s@),
            p@.ws.len() == s@.xs.len(),
            ws@.len() == i,
            forall|j: int|
                0 <= j < i ==> (#[trigger] ws@[j]).wf() && ws@[j]@ == grad_w_q(kind, p@, s@, j),
            forall|j: int| 0 <= j < i ==> #[trigger] grad_w_fits(kind, p@, s@, j),
        decreases arity - i,
    {
        let g = match crate::loss::grad_weight(kind, p, s, i) {
            Some(v) => v,
            None => return None,
        };
        ws.push(g);
        i += 1;
    }
    let b = if p.has_bias {
        match grad_bias(kind, p, s) {
            Some(v) => v,
            None => return None,
        }
    } else {
        Rat::from_int(0)
    };
    let r = Params { ws, b, has_bias: p.has_bias };
    proof {
        assert(r@.ws =~= grad_vec_q(kind, p@, s@).ws);
        assert(r@ =~= grad_vec_q(kind, p@, s@));
    }
    Some(r)
}

/// Componentwise sum of a gradient accumulator and one gradient vector;
/// `None` exactly when a component sum does not fit the machine word.
fn pv_add_exec(acc: Params, g: &Params) -> (r: Option<Params>)
    requires
        pwf(acc@),
        pwf(g@),
        acc@.ws.len() == g@.ws.len(),
        acc@.has_bias == g@.has_bias,
    ensures
        r is Some <==> pv_add_fits(acc@, g@),
        r is Some ==> pwf((r->Some_0)@) && (r->Some_0)@ == pv_add(acc@, g@),
{
    let arity = acc.ws.len();
    let mut ws: Vec<Rat> = Vec::new();
    let mut i: usize = 0;
    while i < arity
        invariant
            i <= arity,
            arity == acc@.ws.len(),
            acc@.ws.len() == g@.ws.len(),
            pwf(acc@),
            pwf(g@),
            ws@.len() == i,
            forall|j: int|
                0 <= j < i ==> (#[trigger] ws@[j]).wf() && ws@[j]@ == qnorm(qadd(acc@.ws[j], g@.ws[j])),
            forall|j: int| 0 <= j < i ==> #[trigger] add_fits(acc@.ws[j], g@.ws[j]),
        decreases arity - i,
    {
        proof {
            assert(acc.ws@[i as int]@ == acc@.ws[i as int]);
            assert(g.ws@[i as int]@ == g@.ws[i as int]);
        }
        let w = match acc.ws[i].add(&g.ws[i]) {
            Some(v) => v,
            None => return None,
        };
        let w = w.reduce();
        ws.push(w);
        i += 1;
    }
    let b = match acc.b.add(&g.b) {
        Some(v) => v,
        None => return None,
    };
    let b = b.reduce();
    let r = Params { ws, b, has_bias: acc.has_bias };
    proof {
        assert(r@.ws =~= pv_add(acc@, g@).ws);
        assert(r@ =~= pv_add(acc@, g@));
    }
    Some(r)
}

/// One chunk of an epoch: sums losses and gradients of
/// `order[start..end]` at the snapshot `p`, then applies one update by the
/// mean gradient. Returns the updated parameters and the chunk's loss sum;
/// `None` exactly when the chunk's computation does not fit the machine
/// word.
pub fn chunk_step(
    kind: LossKind,
    p: Params,
    samples: &Vec<Sample>,
    order: &Vec<usize>,
    start: usize,
    end: usize,
    lr: &Rat,
) -> (r: Option<(Params, Rat)>)
    requires
        pwf(p@),
        lr.wf(),
        forall|i: int|
            0 <= i < samples@.len() ==> swf(#[trigger] samples@[i]@) && samples@[i]@.xs.len()
                == p@.ws.len(),
        forall|j: int| start <= j < end ==> #[trigger] order@[j] < samples@.len(),
        start < end,
        end <= order@.len(),
    ensures
        ({
            let idxs = idxs_of(order@).subrange(start as int, end as int);
            let sviews = views_of(samples@);
            &&& r is Some <==> chunk_fits(kind, sviews, lr@, p@, idxs)
            &&& r is Some ==> {
                &&& pwf((r->Some_0).0@)
                &&& (r->Some_0).0@ == chunk_step_q(kind, sviews, lr@, p@, idxs)
                &&& (r->Some_0).1.wf()
                &&& (r->Some_0).1@ == chunk_loss_q(kind, sviews, p@, idxs)
            }
        }),
{
    let ghost idxs = idxs_of(order@).subrange(start as int, end as int);
    let ghost sviews = views_of(samples@);
    let arity = p.ws.len();
    let cnt = end - start;
    let mut gsum = Params::zeros(arity, p.has_bias);
    let mut lsum = Rat::from_int(0);
    let mut j = start;
    while j < end
        invariant
            start <= j <= end,
            end <= order@.len(),
            arity == p@.ws.len(),
            cnt == end - start,
            idxs == idxs_of(order@).subrange(start as int, end as int),
            sviews == views_of(samples@),
            pwf(p@),
            forall|i: int|
                0 <= i < samples@.len() ==> swf(#[trigger] samples@[i]@) && samples@[i]@.xs.len()
                    == p@.ws.len(),
            forall|jj: int| start <= jj < end ==> #[trigger] order@[jj] < samples@.len(),
            pwf(gsum@),
            gsum@.ws.len() == p@.ws.len(),
            gsum@.has_bias == p@.has_bias,
            lsum.wf(),
            gsum_from_q(kind, sviews, p@, idxs, j - start, gsum@) == chunk_grad_sum_q(
                kind,
                sviews,
                p@,
                idxs,
            ),
            losses_from_q(kind, sviews, p@, idxs, j - start, lsum@) == chunk_loss_q(
                kind,
                sviews,
                p@,
                idxs,
            ),
            chunk_scan_fits(kind, sviews, p@, idxs, j - start, gsum@, lsum@) == chunk_scan_fits(
                kind,
                sviews,
                p@,
                idxs,
                0,
                zero_params_q(p@.ws.len() as int, p@.has_bias),
                qint(0),
            ),
        decreases end - j,
    {
        let idx = order[j];
        let s = &samples[idx];
        proof {
            assert(idxs[j - start] == order@[j as int] as int);
            assert(sviews[order@[j as int] as int] == samples@[order@[j as int] as int]@);
        }
        let g = match grad_vec(kind, &p, s) {
            Some(v) => v,
            None => return None,
        };
        let l = match loss_per_sample(kind, &p, s) {
            Some(v) => v,
            None => return None,
        };
        gsum = match pv_add_exec(gsum, &g) {
            Some(v) => v,
            None => return None,
        };
        lsum = match lsum.add(&l) {
            Some(v) => v,
            None => return None,
        };
        lsum = lsum.reduce();
        j += 1;
    }
    let cntq = Rat::from_int(cnt as i128);
    let ghost mg = mean_grad_q(kind, sviews, p@, idxs);
    let ghost target = chunk_step_q(kind, sviews, lr@, p@, idxs);
    let mut new_ws: Vec<Rat> = Vec::new();
    let mut i: usize = 0;
    while i < arity
        invariant
            i <= arity,
            arity == p@.ws.len(),
            pwf(p@),
            lr.wf(),
            cnt >= 1,
            cntq.wf(),
            cntq@ == qint(cnt as int),
            cnt == idxs.len(),
            idxs == idxs_of(order@).subrange(start as int, end as int),
            sviews == views_of(samples@),
            pwf(gsum@),
            gsum@.ws.len() == p@.ws.len(),
            gsum@ == chunk_grad_sum_q(kind, sviews, p@, idxs),
            mg == mean_grad_q(kind, sviews, p@, idxs),
            target == chunk_step_q(kind, sviews, lr@, p@, idxs),
            new_ws@.len() == i,
            forall|ii: int|
                0 <= ii < i ==> (#[trigger] new_ws@[ii]).wf() && new_ws@[ii]@ == target.ws[ii],
            forall|ii: int|
                0 <= ii < i ==> #[trigger] upd_w_fits(lr@, p@, gsum@, cnt as int, ii),
        decreases arity - i,
    {
        proof {
            assert(gsum.ws@[i as int]@ == gsum@.ws[i as int]);
            assert(p.ws@[i as int]@ == p@.ws[i as int]);
        }
        let ghost sum_c = chunk_grad_sum_q(kind, sviews, p@, idxs);
        let ghost len_c = idxs.len() as int;
        let m = match gsum.ws[i].div_pos(&cntq) {
            Some(v) => v,
            None => {
                proof {
                    assert(!div_fits(sum_c.ws[i as int], qint(len_c)));
                    assert(!upd_w_fits(lr@, p@, sum_c, len_c, i as int));
                    assert(!update_fits(lr@, p@, sum_c, len_c));
                }
                return None;
            },
        };
        let delta = match lr.mul(&m) {
            Some(v) => v,
            None => {
                proof {
                    assert(!mul_fits(lr@, qdiv_pos(sum_c.ws[i as int], qint(len_c))));
                    assert(!upd_w_fits(lr@, p@, sum_c, len_c, i as int));
                    assert(!update_fits(lr@, p@, sum_c, len_c));
                }
                return None;
            },
        };
        let w2 = match p.ws[i].sub(&delta) {
            Some(v) => v,
            None => {
                proof {
                    assert(!sub_fits(p@.ws[i as int], qmul(lr@, qdiv_pos(sum_c.ws[i as int], qint(len_c)))));
                    assert(!upd_w_fits(lr@, p@, sum_c, len_c, i as int));
                    assert(!update_fits(lr@, p@, sum_c, len_c));
                }
                return None;
            },
        };
        let w2 = w2.reduce();
        proof {
            assert(m@ == mg.ws[i as int]);
            assert(w2@ == target.ws[i as int]);
        }
        new_ws.push(w2);
        i += 1;
    }
    let new_b = if p.has_bias {
        let m = match gsum.b.div_pos(&cntq) {
            Some(v) => v,
            None => return None,
        };
        let delta = match lr.mul(&m) {
            Some(v) => v,
            None => return None,
        };
        let b2 = match p.b.sub(&delta) {
            Some(v) => v,
            None => return None,
        };
        b2.reduce()
    } else {
        p.b
    };
    let p2 = Params { ws: new_ws, b: new_b, has_bias: p.has_bias };
    proof {
        assert(p2@.ws =~= target.ws);
        assert(p2@ =~= target);
    }
    Some((p2, lsum))
}

/// One epoch over a visitation order: works through the order chunk by
/// chunk, each of size `bsz` (the last possibly shorter). Returns the
/// parameters after the epoch and the epoch's accumulated loss; `None`
/// exactly when the epoch's computation does not fit the machine word.
pub fn run_epoch(
    kind: LossKind,
    p: Params,
    samples: &Vec<Sample>,
    order: &Vec<usize>,
    bsz: usize,
    lr: &Rat,
) -> (r: Option<(Params, Rat)>)
    requires
        pwf(p@),
        lr.wf(),
        bsz >= 1,
        forall|i: int|
            0 <= i < samples@.len() ==> swf(#[trigger] samples@[i]@) && samples@[i]@.xs.len()
                == p@.ws.len(),
        forall|j: int| 0 <= j < order@.len() ==> #[trigger] order@[j] < samples@.len(),
    ensures
        ({
            let env = EnvV {
                kind,
                samples: views_of(samples@),
                arity: p@.ws.len() as int,
                has_bias: p@.has_bias,
                bsz: bsz as int,
                lr: lr@,
            };
            let goal = epoch_from_q(env, p@, idxs_of(order@), 0, qint(0));
            &&& r is Some <==> epoch_fits(env, p@, idxs_of(order@))
            &&& r is Some ==> {
                &&& pwf((r->Some_0).0@)
                &&& (r->Some_0).0@.ws.len() == p@.ws.len()
                &&& (r->Some_0).0@.has_bias == p@.has_bias
                &&& (r->Some_0).0@ == goal.0
                &&& (r->Some_0).1.wf()
                &&& (r->Some_0).1@ == goal.1
            }
            &&& order@.len() == 0 ==> r is Some
        }),
{
    let ghost env = EnvV {
        kind,
        samples: views_of(samples@),
        arity: p@.ws.len() as int,
        has_bias: p@.has_bias,
        bsz: bsz as int,
        lr: lr@,
    };
    let ghost ord = idxs_of(order@);
    let ghost p0 = p@;
    let n_ord = order.len();
    let mut pcur = p;
    let mut lacc = Rat::from_int(0);
    let mut pos: usize = 0;
    while pos < n_ord
        invariant
            pos <= n_ord,
            n_ord == order@.len(),
            bsz >= 1,
            p0 == p@,
            env == (EnvV {
                kind,
                samples: views_of(samples@),
                arity: p0.ws.len() as int,
                has_bias: p0.has_bias,
                bsz: bsz as int,
                lr: lr@,
            }),
            ord == idxs_of(order@),
            lr.wf(),
            pwf(pcur@),
            pcur@.ws.len() == p0.ws.len(),
            pcur@.has_bias == p0.has_bias,
            lacc.wf(),
            forall|i: int|
                0 <= i < samples@.len() ==> swf(#[trigger] samples@[i]@) && samples@[i]@.xs.len()
                    == p0.ws.len(),
            forall|j: int| 0 <= j < order@.len() ==> #[trigger] order@[j] < samples@.len(),
            epoch_from_q(env, pcur@, ord, pos as int, lacc@) == epoch_from_q(
                env,
                p0,
                ord,
                0,
                qint(0),
            ),
            epoch_fits_from(env, pcur@, ord, pos as int, lacc@) == epoch_fits_from(
                env,
                p0,
                ord,
                0,
                qint(0),
            ),
        decreases n_ord - pos,
    {
        let end = if bsz > n_ord - pos {
            n_ord
        } else {
            pos + bsz
        };
        let step = match chunk_step(kind, pcur, samples, order, pos, end, lr) {
            Some(v) => v,
            None => return None,
        };
        lacc = match lacc.add(&step.1) {
            Some(v) => v,
            None => return None,
        };
        lacc = lacc.reduce();
        pcur = step.0;
        pos = end;
    }
    Some((pcur, lacc))
}

/// Runs gradient descent from the zero parameter vector: `cfg.epochs` full
/// passes over `samples`, each visiting every sample exactly once in the
/// epoch's rotated order, with one update per chunk of the schedule's size.
/// A report is collected for every epoch index divisible by
/// `cfg.report_interval`, carrying that epoch's loss and the parameters
/// after it. Returns `None` exactly when an intermediate value no longer
/// fits the machine integers (see [`run_fits_to`]); a run over zero epochs
/// or zero samples always succeeds and leaves the parameters at zero.
pub fn run(
    samples: &Vec<Sample>,
    arity: usize,
    has_bias: bool,
    kind: LossKind,
    sched: Schedule,
    cfg: &RunConfig,
) -> (r: Option<RunResult>)
    requires
        cfg.lr.wf(),
        cfg.lr@.n > 0,
        cfg.report_interval >= 1,
        forall|i: int|
            0 <= i < samples@.len() ==> swf(#[trigger] samples@[i]@) && samples@[i]@.xs.len()
                == arity as int,
        sched matches Schedule::MiniBatch { size } ==> 1 <= size <= samples@.len(),
    ensures
        ({
            let env = env_of(kind, views_of(samples@), arity as int, has_bias, sched, cfg.lr@);
            let reps = reports_to_q(env, cfg.report_interval as int, cfg.epochs as int);
            &&& r is Some <==> run_fits_to(env, cfg.epochs as int)
            &&& r is Some ==> {
                &&& pwf((r->Some_0).params@)
                &&& (r->Some_0).params@ == run_to_q(env, cfg.epochs as int)
                &&& (r->Some_0).reports@.len() == reps.len()
                &&& forall|i: int|
                    0 <= i < reps.len() ==> (#[trigger] (r->Some_0).reports@[i])@ == reps[i]
            }
            &&& cfg.epochs == 0 ==> r is Some && (r->Some_0).params@ == zero_params_q(
                arity as int,
                has_bias,
            )
            &&& samples@.len() == 0 ==> r is Some
        }),
{
    let n = samples.len();
    let bsz: usize = match sched {
        Schedule::Sgd => 1,
        Schedule::MiniBatch { size } => size,
        Schedule::FullBatch => if n == 0 {
            1
        } else {
            n
        },
    };
    let ghost env = env_of(kind, views_of(samples@), arity as int, has_bias, sched, cfg.lr@);
    let mut params = Params::zeros(arity, has_bias);
    let mut reports: Vec<Report> = Vec::new();
    let mut epoch: usize = 0;
    while epoch < cfg.epochs
        invariant
            epoch <= cfg.epochs,
            n == samples@.len(),
            cfg.lr.wf(),
            cfg.lr@.n > 0,
            cfg.report_interval >= 1,
            bsz >= 1,
            env == env_of(kind, views_of(samples@), arity as int, has_bias, sched, cfg.lr@),
            bsz as int == env.bsz,
            forall|i: int|
                0 <= i < samples@.len() ==> swf(#[trigger] samples@[i]@) && samples@[i]@.xs.len()
                    == arity as int,
            pwf(params@),
            params@.ws.len() == arity as int,
            params@.has_bias == has_bias,
            params@ == run_to_q(env, epoch as int),
            run_fits_to(env, epoch as int),
            reports@.len() == reports_to_q(env, cfg.report_interval as int, epoch as int).len(),
            forall|i: int|
                0 <= i < reports@.len() ==> (#[trigger] reports@[i])@ == reports_to_q(
                    env,
                    cfg.report_interval as int,
                    epoch as int,
                )[i],
        decreases cfg.epochs - epoch,
    {
        let order = permute_indices(n, epoch);
        let step = match run_epoch(kind, params, samples, &order, bsz, &cfg.lr) {
            Some(v) => v,
            None => {
                proof {
                    assert(idxs_of(order@) == permute_q(n as int, epoch as int));
                    if run_fits_to(env, cfg.epochs as int) {
                        lemma_run_fits_prefix(env, epoch as int, cfg.epochs as int);
                        assert(false);
                    }
                }
                return None;
            },
        };
        params = step.0;
        proof {
            assert(idxs_of(order@) == permute_q(n as int, epoch as int));
            assert(params@ == run_to_q(env, epoch as int + 1));
            assert(step.1@ == epoch_loss_at_q(env, epoch as int));
        }
        if epoch % cfg.report_interval == 0 {
            let rep = Report { epoch, loss: step.1, params: params.duplicate() };
            reports.push(rep);
        }
        epoch += 1;
    }
    Some(RunResult { params, reports })
}

} // verus!
