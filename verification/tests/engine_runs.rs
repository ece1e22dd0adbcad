//! Tests for the chunked epoch engine and the full run entry point.

use graddesc::engine::{chunk_step, run, run_epoch};
use graddesc::model::{LossKind, Params, RunConfig, Sample, Schedule};
use graddesc::permute::permute_indices;
use graddesc::rat::Rat;

fn rat_eq(a: &Rat, b: &Rat) -> bool {
    a.eq_val(b).unwrap()
}

fn line_data() -> Vec<Sample> {
    // Exact fit y = 2x.
    vec![
        Sample::new(vec![Rat::from_int(1)], Rat::from_int(2)),
        Sample::new(vec![Rat::from_int(2)], Rat::from_int(4)),
        Sample::new(vec![Rat::from_int(3)], Rat::from_int(6)),
    ]
}

fn config(epochs: usize) -> RunConfig {
    RunConfig { lr: Rat::new(1, 10), epochs, report_interval: 1 }
}

#[test]
fn golden_trace_of_epoch_zero() {
    // Single-weight OLS, lr = 1/10, w starting at 0, order 0,1,2: the w
    // values after each sample follow w <- w - lr*x*(w*x - y) exactly.
    let data = line_data();
    let order: Vec<usize> = vec![0, 1, 2];
    let lr = Rat::new(1, 10);
    let p0 = Params::zeros(1, false);

    let (p1, l1) = chunk_step(LossKind::Ols, p0, &data, &order, 0, 1, &lr).unwrap();
    assert!(rat_eq(&p1.ws[0], &Rat::new(1, 5)));
    assert!(rat_eq(&l1, &Rat::from_int(2)));

    let (p2, _l2) = chunk_step(LossKind::Ols, p1, &data, &order, 1, 2, &lr).unwrap();
    assert!(rat_eq(&p2.ws[0], &Rat::new(23, 25)));

    let (p3, _l3) = chunk_step(LossKind::Ols, p2, &data, &order, 2, 3, &lr).unwrap();
    assert!(rat_eq(&p3.ws[0], &Rat::new(473, 250)));
}

#[test]
fn run_epoch_matches_golden_trace() {
    let data = line_data();
    let order = permute_indices(3, 0);
    let lr = Rat::new(1, 10);
    let p0 = Params::zeros(1, false);
    let (p, epoch_loss) = run_epoch(LossKind::Ols, p0, &data, &order, 1, &lr).unwrap();
    assert!(rat_eq(&p.ws[0], &Rat::new(473, 250)));
    // 2 + 162/25 + 6561/1250 summed at the successive snapshots.
    assert!(rat_eq(&epoch_loss, &Rat::new(17161, 1250)));
}

#[test]
fn zero_epochs_leave_parameters_at_zero() {
    let data = line_data();
    for sched in [Schedule::Sgd, Schedule::MiniBatch { size: 2 }, Schedule::FullBatch] {
        for kind in [LossKind::Ols, LossKind::Tls] {
            let out = run(&data, 1, false, kind, sched, &config(0)).unwrap();
            assert!(rat_eq(&out.params.ws[0], &Rat::from_int(0)));
            assert!(out.reports.is_empty());
        }
    }
}

#[test]
fn empty_sample_set_is_a_no_op_run() {
    let data: Vec<Sample> = Vec::new();
    let out = run(&data, 1, true, LossKind::Ols, Schedule::FullBatch, &config(3)).unwrap();
    assert!(rat_eq(&out.params.ws[0], &Rat::from_int(0)));
    assert!(rat_eq(&out.params.b, &Rat::from_int(0)));
    assert_eq!(out.reports.len(), 3);
    for rep in &out.reports {
        assert!(rat_eq(&rep.loss, &Rat::from_int(0)));
    }
}

#[test]
fn minibatch_of_one_equals_sgd() {
    let data = line_data();
    let a = run(&data, 1, false, LossKind::Ols, Schedule::MiniBatch { size: 1 }, &config(2))
        .unwrap();
    let b = run(&data, 1, false, LossKind::Ols, Schedule::Sgd, &config(2)).unwrap();
    assert_eq!(a.params.ws[0].num(), b.params.ws[0].num());
    assert_eq!(a.params.ws[0].den(), b.params.ws[0].den());
    assert_eq!(a.reports.len(), b.reports.len());
    for (ra, rb) in a.reports.iter().zip(b.reports.iter()) {
        assert_eq!(ra.epoch, rb.epoch);
        assert_eq!(ra.loss.num(), rb.loss.num());
        assert_eq!(ra.loss.den(), rb.loss.den());
    }
}

#[test]
fn minibatch_of_full_size_equals_full_batch() {
    let data = line_data();
    let a = run(&data, 1, false, LossKind::Ols, Schedule::MiniBatch { size: 3 }, &config(2))
        .unwrap();
    let b = run(&data, 1, false, LossKind::Ols, Schedule::FullBatch, &config(2)).unwrap();
    assert_eq!(a.params.ws[0].num(), b.params.ws[0].num());
    assert_eq!(a.params.ws[0].den(), b.params.ws[0].den());
}

#[test]
fn full_batch_update_is_mean_of_independent_gradients() {
    // One full-batch epoch from w = 0: gradients at w = 0 are -2, -8, -18;
    // their mean is -28/3; the update gives w = 28/30 = 14/15. Cross-check
    // against a direct loop over the per-sample gradient function.
    let data = line_data();
    let p0 = Params::zeros(1, false);
    let mut sum = Rat::from_int(0);
    for s in &data {
        let g = graddesc::loss::grad_weight(LossKind::Ols, &p0, s, 0).unwrap();
        sum = sum.add(&g).unwrap();
    }
    let mean = sum.div_pos(&Rat::from_int(3)).unwrap();
    assert!(rat_eq(&mean, &Rat::new(-28, 3)));
    let lr = Rat::new(1, 10);
    let expected = Rat::from_int(0).sub(&lr.mul(&mean).unwrap()).unwrap();
    assert!(rat_eq(&expected, &Rat::new(14, 15)));

    let out = run(&data, 1, false, LossKind::Ols, Schedule::FullBatch, &config(1)).unwrap();
    assert!(rat_eq(&out.params.ws[0], &expected));
}

#[test]
fn epoch_loss_strictly_decreases_on_the_exact_fit_data() {
    let data = line_data();
    let out = run(&data, 1, false, LossKind::Ols, Schedule::Sgd, &config(3)).unwrap();
    assert_eq!(out.reports.len(), 3);
    for w in out.reports.windows(2) {
        // Strict decrease: the later loss is <= and not equal.
        assert!(w[1].loss.le_val(&w[0].loss).unwrap());
        assert!(!w[0].loss.le_val(&w[1].loss).unwrap());
    }
}

#[test]
fn sgd_converges_toward_the_exact_weight() {
    // |w - 2| shrinks over the epochs on the exact-fit data.
    let data = line_data();
    let two = Rat::from_int(2);
    let out = run(&data, 1, false, LossKind::Ols, Schedule::Sgd, &config(4)).unwrap();
    let mut prev_gap: Option<Rat> = None;
    for rep in &out.reports {
        let gap = two.sub(&rep.params.ws[0]).unwrap();
        // w stays below 2 from above here, so the gap is positive.
        assert!(Rat::from_int(0).le_val(&gap).unwrap());
        if let Some(p) = prev_gap {
            assert!(gap.le_val(&p).unwrap());
            assert!(!p.le_val(&gap).unwrap());
        }
        prev_gap = Some(gap);
    }
}

#[test]
fn report_interval_selects_epochs() {
    let data = line_data();
    let cfg = RunConfig { lr: Rat::new(1, 10), epochs: 4, report_interval: 2 };
    let out = run(&data, 1, false, LossKind::Ols, Schedule::FullBatch, &cfg).unwrap();
    let epochs: Vec<usize> = out.reports.iter().map(|r| r.epoch).collect();
    assert_eq!(epochs, vec![0, 2]);
}

#[test]
fn last_chunk_may_be_shorter() {
    // Batch size 2 over 3 samples: chunks [0,1] and [2].
    let data = line_data();
    let order = permute_indices(3, 0);
    let lr = Rat::new(1, 10);
    let p0 = Params::zeros(1, false);
    let (p1, _) = chunk_step(LossKind::Ols, p0, &data, &order, 0, 2, &lr).unwrap();
    let (p2, _) = chunk_step(LossKind::Ols, p1, &data, &order, 2, 3, &lr).unwrap();
    let out = run(&data, 1, false, LossKind::Ols, Schedule::MiniBatch { size: 2 }, &config(1))
        .unwrap();
    assert!(rat_eq(&out.params.ws[0], &p2.ws[0]));
}

#[test]
fn run_reports_overflow_as_none() {
    // One huge sample: the first gradient product already outgrows i128.
    let huge = 20_000_000_000_000_000_000i128;
    let data = vec![Sample::new(vec![Rat::from_int(huge)], Rat::from_int(huge))];
    let out = run(&data, 1, false, LossKind::Ols, Schedule::Sgd, &config(1));
    assert!(out.is_none());
}

#[test]
fn tls_run_keeps_losses_nonnegative() {
    let data = line_data();
    let cfg = RunConfig { lr: Rat::new(1, 10), epochs: 1, report_interval: 1 };
    let out = run(&data, 1, false, LossKind::Tls, Schedule::Sgd, &cfg).unwrap();
    let zero = Rat::from_int(0);
    for rep in &out.reports {
        assert!(zero.le_val(&rep.loss).unwrap());
    }
}

#[test]
fn two_feature_model_with_bias_runs() {
    // y = x1 + x2 + 1 data, fit with OLS full-batch for two epochs.
    let data = vec![
        Sample::new(vec![Rat::from_int(1), Rat::from_int(0)], Rat::from_int(2)),
        Sample::new(vec![Rat::from_int(0), Rat::from_int(1)], Rat::from_int(2)),
        Sample::new(vec![Rat::from_int(1), Rat::from_int(1)], Rat::from_int(3)),
    ];
    let cfg = RunConfig { lr: Rat::new(1, 10), epochs: 2, report_interval: 1 };
    let out = run(&data, 2, true, LossKind::Ols, Schedule::FullBatch, &cfg).unwrap();
    assert_eq!(out.params.ws.len(), 2);
    // First full-batch step: residuals at zero are -2, -2, -3; the mean
    // gradients are (-5/3, -5/3, -7/3), so the weights move by 1/6 and the
    // bias by 7/30.
    let first = &out.reports[0].params;
    assert!(rat_eq(&first.ws[0], &Rat::new(1, 6)));
    assert!(rat_eq(&first.ws[1], &Rat::new(1, 6)));
    assert!(rat_eq(&first.b, &Rat::new(7, 30)));
}
