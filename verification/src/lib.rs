//! Gradient-descent parameter estimation for small linear models, carried out
//! in exact rational arithmetic.
//!
//! The crate fits models of the form `y = w1*x1 + ... + wk*xk (+ b)` by
//! gradient descent under one of two loss formulations: ordinary least
//! squares (squared vertical residual) and total least squares (squared
//! residual normalized by `1 + ‖w‖²`). Three update schedules are offered —
//! per-sample stochastic descent, fixed-size mini-batches, and full-batch
//! descent — all as instances of one chunked epoch loop. Sample order within
//! an epoch comes from a deterministic rotation permutation, so every run is
//! reproducible.
//!
//! Numbers are exact rationals over checked 128-bit integers: every public
//! operation either returns a value equal to the mathematical result, or
//! reports that an intermediate value no longer fits the machine integers.
//! Each operation's contract states exactly on which inputs it succeeds, so
//! success is a deterministic function of the arguments.

pub mod engine;
pub mod loss;
pub mod model;
pub mod permute;
pub mod rat;
