//! Deterministic epoch-indexed permutation of sample indices.
//!
//! In place of a random shuffle, each epoch visits the indices `0..n` left-
//! rotated by `epoch mod n` (no rotation when `n == 0`). The same `(n,
//! epoch)` always yields the same order, so runs are reproducible; every
//! epoch still visits each index exactly once.

use vstd::arithmetic::div_mod::{
    lemma_mod_add_multiples_vanish, lemma_mod_division_less_than_divisor, lemma_small_mod,
};
use vstd::prelude::*;

verus! {

/// How far the natural order is rotated for this epoch: `epoch mod n`, or 0
/// when there is nothing to rotate.
pub open spec fn rot_amount(n: int, epoch: int) -> int {
    if n == 0 {
        0
    } else {
        epoch % n
    }
}

/// The visitation order of epoch `epoch` over `n` samples: the sequence
/// whose entry `i` is `(i + epoch mod n) mod n`.
pub open spec fn permute_q(n: int, epoch: int) -> Seq<int> {
    Seq::new(n as nat, |i: int| (i + rot_amount(n, epoch)) % n)
}

/// The integer values of a sequence of indices.
pub open spec fn idxs_of(order: Seq<usize>) -> Seq<int> {
    order.map_values(|u: usize| u as int)
}

/// Closed form of one permutation entry: `i + rot`, wrapped once past `n`.
pub proof fn lemma_permute_entry(n: int, epoch: int, i: int)
    requires
        0 < n,
        0 <= i < n,
    ensures
        permute_q(n, epoch)[i] == if i + rot_amount(n, epoch) < n {
            i + rot_amount(n, epoch)
        } else {
            i + rot_amount(n, epoch) - n
        },
        0 <= permute_q(n, epoch)[i] < n,
{
    let rot = rot_amount(n, epoch);
    lemma_mod_division_less_than_divisor(epoch, n);
    if i + rot < n {
        lemma_small_mod((i + rot) as nat, n as nat);
    } else {
        lemma_mod_add_multiples_vanish(i + rot - n, n);
        lemma_small_mod((i + rot - n) as nat, n as nat);
    }
}

/// For every epoch, the visitation order is a bijection on `[0, n)`: it has
/// length `n`, stays within `[0, n)`, repeats no index, and reaches every
/// index.
pub proof fn lemma_permute_bijection(n: int, epoch: int)
    requires
        n >= 0,
    ensures
        permute_q(n, epoch).len() == n,
        forall|i: int| 0 <= i < n ==> 0 <= #[trigger] permute_q(n, epoch)[i] < n,
        forall|i: int, j: int|
            0 <= i < n && 0 <= j < n && i != j ==> permute_q(n, epoch)[i] != permute_q(
                n,
                epoch,
            )[j],
        forall|v: int| 0 <= v < n ==> #[trigger] permute_q(n, epoch).contains(v),
{
    if n > 0 {
        let rot = rot_amount(n, epoch);
        lemma_mod_division_less_than_divisor(epoch, n);
        assert forall|i: int| 0 <= i < n implies 0 <= #[trigger] permute_q(n, epoch)[i] < n by {
            lemma_permute_entry(n, epoch, i);
        }
        assert forall|i: int, j: int|
            0 <= i < n && 0 <= j < n && i != j implies permute_q(n, epoch)[i] != permute_q(
            n,
            epoch,
        )[j] by {
            lemma_permute_entry(n, epoch, i);
            lemma_permute_entry(n, epoch, j);
        }
        assert forall|v: int| 0 <= v < n implies #[trigger] permute_q(n, epoch).contains(v) by {
            let i = if v >= rot {
                v - rot
            } else {
                v + n - rot
            };
            lemma_permute_entry(n, epoch, i);
            assert(permute_q(n, epoch)[i] == v);
        }
    }
}

/// The visitation order is periodic in the epoch index with period `n`:
/// `permute(n, epoch + n) == permute(n, epoch)`.
pub proof fn lemma_permute_periodic(n: int, epoch: int)
    requires
        n >= 0,
    ensures
        permute_q(n, epoch + n) == permute_q(n, epoch),
{
    if n > 0 {
        lemma_mod_add_multiples_vanish(epoch, n);
        assert(rot_amount(n, epoch + n) == rot_amount(n, epoch));
    }
    assert(permute_q(n, epoch + n) =~= permute_q(n, epoch));
}

/// The indices `0..n`, left-rotated by `epoch mod n`: the deterministic
/// stand-in for a per-epoch shuffle.
pub fn permute_indices(n: usize, epoch: usize) -> (r: Vec<usize>)
    ensures
        r@.len() == n,
        idxs_of(r@) == permute_q(n as int, epoch as int),
        forall|j: int| 0 <= j < n ==> #[trigger] r@[j] < n,
{
    let shift: usize = if n == 0 {
        0
    } else {
        epoch % n
    };
    let mut v: Vec<usize> = Vec::new();
    let mut i: usize = 0;
    proof {
        if n > 0 {
            lemma_mod_division_less_than_divisor(epoch as int, n as int);
        }
    }
    while i < n
        invariant
            i <= n,
            v@.len() == i,
            shift as int == rot_amount(n as int, epoch as int),
            n > 0 ==> shift < n,
            forall|j: int|
                0 <= j < i ==> #[trigger] v@[j] < n && v@[j] as int == permute_q(
                    n as int,
                    epoch as int,
                )[j],
        decreases n - i,
    {
        let val: usize = if i < n - shift {
            i + shift
        } else {
            i - (n - shift)
        };
        proof {
            lemma_permute_entry(n as int, epoch as int, i as int);
        }
        v.push(val);
        i += 1;
    }
    proof {
        assert(idxs_of(v@) =~= permute_q(n as int, epoch as int));
    }
    v
}

} // verus!
