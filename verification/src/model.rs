//! Data model: samples, parameter vectors, loss kinds, schedules, run
//! configuration, and progress reports.

use vstd::prelude::*;

use crate::rat::{qint, qrep, qwf, Qv, Rat};

verus! {

/// The mathematical value of a sample: feature values and a target.
pub ghost struct SampleV {
    pub xs: Seq<Qv>,
    pub y: Qv,
}

/// A sample is well-formed when every feature and the target are.
pub open spec fn swf(s: SampleV) -> bool {
    &&& forall|i: int| 0 <= i < s.xs.len() ==> qwf(#[trigger] s.xs[i]) && qrep(s.xs[i])
    &&& qwf(s.y)
    &&& qrep(s.y)
}

/// An immutable record of feature values and one target value.
pub struct Sample {
    pub xs: Vec<Rat>,
    pub y: Rat,
}

impl View for Sample {
    type V = SampleV;

    open spec fn view(&self) -> SampleV {
        SampleV { xs: self.xs@.map_values(|r: Rat| r@), y: self.y@ }
    }
}

impl Sample {
    /// Builds a sample from its features and target.
    pub fn new(xs: Vec<Rat>, y: Rat) -> (r: Sample)
        requires
            forall|i: int| 0 <= i < xs@.len() ==> (#[trigger] xs@[i]).wf(),
            y.wf(),
        ensures
            r@.xs == xs@.map_values(|q: Rat| q@),
            r@.y == y@,
            r@.xs.len() == xs@.len(),
            swf(r@),
    {
        let s = Sample { xs, y };
        proof {
            assert forall|i: int| 0 <= i < s@.xs.len() implies qwf(#[trigger] s@.xs[i]) && qrep(
                s@.xs[i],
            ) by {
                assert(s@.xs[i] == s.xs@[i]@);
            }
        }
        s
    }
}

/// The views of a sequence of samples.
pub open spec fn views_of(samples: Seq<Sample>) -> Seq<SampleV> {
    samples.map_values(|s: Sample| s@)
}

/// The mathematical value of a parameter vector: the weights, the bias, and
/// whether the model uses the bias at all.
#[verifier::ext_equal]
pub ghost struct ParamsV {
    pub ws: Seq<Qv>,
    pub b: Qv,
    pub has_bias: bool,
}

/// A parameter vector is well-formed when every weight and the bias are.
pub open spec fn pwf(p: ParamsV) -> bool {
    &&& forall|i: int| 0 <= i < p.ws.len() ==> qwf(#[trigger] p.ws[i]) && qrep(p.ws[i])
    &&& qwf(p.b)
    &&& qrep(p.b)
}

/// The all-zero parameter vector of the given arity.
pub open spec fn zero_params_q(arity: int, has_bias: bool) -> ParamsV {
    ParamsV { ws: Seq::new(arity as nat, |i: int| qint(0)), b: qint(0), has_bias }
}

/// The current model state: one weight per feature and, for models that use
/// one, a bias term.
pub struct Params {
    pub ws: Vec<Rat>,
    pub b: Rat,
    pub has_bias: bool,
}

impl View for Params {
    type V = ParamsV;

    open spec fn view(&self) -> ParamsV {
        ParamsV { ws: self.ws@.map_values(|r: Rat| r@), b: self.b@, has_bias: self.has_bias }
    }
}

impl Params {
    /// The zero-initialized parameter vector of the given arity.
    pub fn zeros(arity: usize, has_bias: bool) -> (r: Params)
        ensures
            r@ == zero_params_q(arity as int, has_bias),
            pwf(r@),
    {
        let mut ws: Vec<Rat> = Vec::new();
        let mut i: usize = 0;
        while i < arity
            invariant
                i <= arity,
                ws@.len() == i,
                forall|j: int| 0 <= j < i ==> #[trigger] ws@[j]@ == qint(0),
            decreases arity - i,
        {
            ws.push(Rat::from_int(0));
            i += 1;
        }
        let r = Params { ws, b: Rat::from_int(0), has_bias };
        proof {
            assert(r@.ws =~= zero_params_q(arity as int, has_bias).ws);
        }
        r
    }

    /// An independent copy with the same value.
    pub fn duplicate(&self) -> (r: Params)
        ensures
            r@ == self@,
    {
        let mut ws: Vec<Rat> = Vec::new();
        let mut i: usize = 0;
        while i < self.ws.len()
            invariant
                i <= self.ws@.len(),
                ws@.len() == i,
                forall|j: int| 0 <= j < i ==> #[trigger] ws@[j] == self.ws@[j],
            decreases self.ws@.len() - i,
        {
            ws.push(self.ws[i]);
            i += 1;
        }
        let r = Params { ws, b: self.b, has_bias: self.has_bias };
        proof {
            assert(r@.ws =~= self@.ws);
            assert(r@ =~= self@);
        }
        r
    }

    /// Builds a parameter vector from explicit values.
    pub fn new(ws: Vec<Rat>, b: Rat, has_bias: bool) -> (r: Params)
        requires
            forall|i: int| 0 <= i < ws@.len() ==> (#[trigger] ws@[i]).wf(),
            b.wf(),
        ensures
            r@.ws == ws@.map_values(|q: Rat| q@),
            r@.b == b@,
            r@.has_bias == has_bias,
            r@.ws.len() == ws@.len(),
            pwf(r@),
    {
        let p = Params { ws, b, has_bias };
        proof {
            assert forall|i: int| 0 <= i < p@.ws.len() implies qwf(#[trigger] p@.ws[i]) && qrep(
                p@.ws[i],
            ) by {
                assert(p@.ws[i] == p.ws@[i]@);
            }
        }
        p
    }
}

/// The loss formulation a run minimizes.
#[derive(Clone, Copy, Debug, PartialEq, Eq, Structural)]
pub enum LossKind {
    /// Ordinary least squares: half the squared vertical residual.
    Ols,
    /// Total least squares: half the squared residual divided by `1 + ‖w‖²`.
    Tls,
}

/// How gradients are accumulated before each parameter update.
#[derive(Clone, Copy, Debug, PartialEq, Eq, Structural)]
pub enum Schedule {
    /// One update per sample (chunk size 1).
    Sgd,
    /// One update per fixed-size chunk of samples.
    MiniBatch { size: usize },
    /// One update per epoch (chunk size = sample count).
    FullBatch,
}

/// Fixed inputs of a run: step size, epoch count, and how often progress is
/// recorded.
#[derive(Clone, Copy)]
pub struct RunConfig {
    /// Learning rate; must be positive.
    pub lr: Rat,
    /// Number of full passes over the samples.
    pub epochs: usize,
    /// A report is recorded for every epoch index divisible by this; must be
    /// at least 1.
    pub report_interval: usize,
}

/// The mathematical value of one progress report.
pub ghost struct ReportV {
    pub epoch: int,
    pub loss: Qv,
    pub params: ParamsV,
}

/// One progress record: the epoch index, the loss summed over that epoch,
/// and the parameters after that epoch's updates.
pub struct Report {
    pub epoch: usize,
    pub loss: Rat,
    pub params: Params,
}

impl View for Report {
    type V = ReportV;

    open spec fn view(&self) -> ReportV {
        ReportV { epoch: self.epoch as int, loss: self.loss@, params: self.params@ }
    }
}

/// What a finished run hands back: the final parameters and the progress
/// reports collected along the way.
pub struct RunResult {
    pub params: Params,
    pub reports: Vec<Report>,
}

} // verus!
