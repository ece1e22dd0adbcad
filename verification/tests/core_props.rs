//! Tests for the rational arithmetic, the permutation generator, and the
//! per-sample loss and gradient functions.

use graddesc::loss::{grad_bias, grad_weight, loss_per_sample, residual, tls_denom};
use graddesc::model::{LossKind, Params, Sample};
use graddesc::permute::permute_indices;
use graddesc::rat::Rat;

fn rat_eq(a: &Rat, b: &Rat) -> bool {
    a.eq_val(b).unwrap()
}

fn params1(w: Rat) -> Params {
    Params::new(vec![w], Rat::from_int(0), false)
}

fn sample1(x: i128, y: i128) -> Sample {
    Sample::new(vec![Rat::from_int(x)], Rat::from_int(y))
}

#[test]
fn rat_add_sub_mul_div_exact() {
    let half = Rat::new(1, 2);
    let third = Rat::new(1, 3);
    let sum = half.add(&third).unwrap();
    assert!(rat_eq(&sum, &Rat::new(5, 6)));
    let diff = half.sub(&third).unwrap();
    assert!(rat_eq(&diff, &Rat::new(1, 6)));
    let prod = half.mul(&third).unwrap();
    assert!(rat_eq(&prod, &Rat::new(1, 6)));
    let quot = half.div_pos(&third).unwrap();
    assert!(rat_eq(&quot, &Rat::new(3, 2)));
}

#[test]
fn rat_eq_val_across_representations() {
    let a = Rat::new(2, 4);
    let b = Rat::new(1, 2);
    assert!(rat_eq(&a, &b));
    assert!(!rat_eq(&a, &Rat::new(2, 3)));
}

#[test]
fn rat_reduce_gives_lowest_terms() {
    let r = Rat::new(6, 8).reduce();
    assert_eq!(r.num(), 3);
    assert_eq!(r.den(), 4);
    let n = Rat::new(-10, 4).reduce();
    assert_eq!(n.num(), -5);
    assert_eq!(n.den(), 2);
    let z = Rat::new(0, 7).reduce();
    assert_eq!(z.num(), 0);
    assert_eq!(z.den(), 1);
}

#[test]
fn rat_operations_report_overflow_as_none() {
    let big = Rat::new(i128::MAX, 1);
    assert!(big.add(&big).is_none());
    assert!(big.mul(&big).is_none());
    assert!(big.sub(&Rat::new(-1, 1)).is_none());
    assert!(Rat::new(1, i128::MAX).div_pos(&Rat::new(i128::MAX, 1)).is_none());
    // Within range, the same operations succeed.
    assert!(big.sub(&Rat::new(1, 1)).is_some());
}

#[test]
fn rat_le_val_orders_values() {
    let a = Rat::new(-1, 2);
    let b = Rat::new(1, 3);
    assert!(a.le_val(&b).unwrap());
    assert!(!b.le_val(&a).unwrap());
    assert!(a.le_val(&a).unwrap());
}

#[test]
fn permute_is_left_rotation() {
    assert_eq!(permute_indices(5, 0), vec![0, 1, 2, 3, 4]);
    assert_eq!(permute_indices(5, 2), vec![2, 3, 4, 0, 1]);
    assert_eq!(permute_indices(5, 4), vec![4, 0, 1, 2, 3]);
}

#[test]
fn permute_is_bijection_for_every_epoch() {
    for n in [1usize, 2, 3, 5, 8] {
        for epoch in 0..(2 * n + 3) {
            let mut order = permute_indices(n, epoch);
            order.sort();
            let expected: Vec<usize> = (0..n).collect();
            assert_eq!(order, expected);
        }
    }
}

#[test]
fn permute_is_periodic_in_the_epoch() {
    for epoch in 0..10usize {
        assert_eq!(permute_indices(5, epoch), permute_indices(5, epoch + 5));
        assert_eq!(permute_indices(7, epoch), permute_indices(7, epoch + 7));
    }
}

#[test]
fn permute_of_zero_samples_is_empty() {
    assert_eq!(permute_indices(0, 3), Vec::<usize>::new());
}

#[test]
fn ols_loss_and_gradient_values() {
    // w = 0 on (1, 2): residual -2, loss one half of 4, gradient x times r.
    let p = params1(Rat::from_int(0));
    let s = sample1(1, 2);
    let r = residual(&p, &s).unwrap();
    assert!(rat_eq(&r, &Rat::from_int(-2)));
    let l = loss_per_sample(LossKind::Ols, &p, &s).unwrap();
    assert!(rat_eq(&l, &Rat::from_int(2)));
    let g = grad_weight(LossKind::Ols, &p, &s, 0).unwrap();
    assert!(rat_eq(&g, &Rat::from_int(-2)));
}

#[test]
fn ols_gradient_with_bias() {
    // w = 0, b = 1 on (2, 5): prediction 1, residual -4.
    let p = Params::new(vec![Rat::from_int(0)], Rat::from_int(1), true);
    let s = sample1(2, 5);
    let gw = grad_weight(LossKind::Ols, &p, &s, 0).unwrap();
    assert!(rat_eq(&gw, &Rat::from_int(-8)));
    let gb = grad_bias(LossKind::Ols, &p, &s).unwrap();
    assert!(rat_eq(&gb, &Rat::from_int(-4)));
}

#[test]
fn tls_denominator_and_loss_values() {
    // w = 1 on (2, 3): r = -1, D = 2, loss = 1/4.
    let p = params1(Rat::from_int(1));
    let s = sample1(2, 3);
    let d = tls_denom(&p).unwrap();
    assert!(rat_eq(&d, &Rat::from_int(2)));
    let l = loss_per_sample(LossKind::Tls, &p, &s).unwrap();
    assert!(rat_eq(&l, &Rat::new(1, 4)));
    // dL/dw = (r*x)/D - (r^2*w)/D^2 = -1 - 1/4 = -5/4.
    let g = grad_weight(LossKind::Tls, &p, &s, 0).unwrap();
    assert!(rat_eq(&g, &Rat::new(-5, 4)));
}

#[test]
fn tls_gradient_of_bias() {
    // w = 1, b = 0 on (2, 3): r/D = -1/2.
    let p = Params::new(vec![Rat::from_int(1)], Rat::from_int(0), true);
    let s = sample1(2, 3);
    let gb = grad_bias(LossKind::Tls, &p, &s).unwrap();
    assert!(rat_eq(&gb, &Rat::new(-1, 2)));
}

#[test]
fn tls_loss_never_negative_and_zero_only_at_exact_fit() {
    let zero = Rat::from_int(0);
    let s = sample1(1, 2);
    for num in [-7i128, -2, 0, 1, 2, 3, 10] {
        for den in [1i128, 2, 5] {
            let p = params1(Rat::new(num, den));
            let l = loss_per_sample(LossKind::Tls, &p, &s).unwrap();
            assert!(zero.le_val(&l).unwrap());
            let r = residual(&p, &s).unwrap();
            let exact = r.eq_val(&zero).unwrap();
            let loss_zero = l.eq_val(&zero).unwrap();
            assert_eq!(exact, loss_zero);
        }
    }
    // w = 2 predicts (1, 2) exactly: loss is zero.
    let exact_p = params1(Rat::from_int(2));
    let l = loss_per_sample(LossKind::Tls, &exact_p, &s).unwrap();
    assert!(l.eq_val(&zero).unwrap());
}

#[test]
fn loss_with_two_features_and_bias() {
    // w = (1, 2), b = 3 on (x1, x2, y) = (4, 5, 10): prediction 17, r = 7.
    let p = Params::new(vec![Rat::from_int(1), Rat::from_int(2)], Rat::from_int(3), true);
    let s = Sample::new(vec![Rat::from_int(4), Rat::from_int(5)], Rat::from_int(10));
    let l = loss_per_sample(LossKind::Ols, &p, &s).unwrap();
    assert!(rat_eq(&l, &Rat::new(49, 2)));
    let g0 = grad_weight(LossKind::Ols, &p, &s, 0).unwrap();
    let g1 = grad_weight(LossKind::Ols, &p, &s, 1).unwrap();
    assert!(rat_eq(&g0, &Rat::from_int(28)));
    assert!(rat_eq(&g1, &Rat::from_int(35)));
}
