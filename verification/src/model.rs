//! The mathematical model of Ducci sequences.
//!
//! A tuple is modelled as a `Seq<int>`. The Ducci map `D` sends a tuple
//! `t` of length `n` to the tuple whose `i`-th component is
//! `|t[i] - t[(i + 1) mod n]|`. Iterating `D` from a tuple whose length
//! is a power of two always reaches the all-zero tuple; the proof of
//! that classical fact lives in the `theory` module.

use vstd::prelude::*;

verus! {

/// The absolute difference `|a - b|` of two integers.
pub open spec fn abs_diff(a: int, b: int) -> int {
    if a >= b {
        a - b
    } else {
        b - a
    }
}

/// The cyclic successor of index `i` in a tuple of length `n`:
/// `(i + 1) mod n`, written without `%` since `0 <= i < n`.
pub open spec fn succ(i: int, n: int) -> int {
    if i + 1 == n {
        0
    } else {
        i + 1
    }
}

/// The Ducci map: component `i` of the image is the absolute difference
/// of components `i` and `(i + 1) mod n` of the argument.
pub open spec fn ducci_map(t: Seq<int>) -> Seq<int> {
    Seq::new(t.len(), |i: int| abs_diff(t[i], t[succ(i, t.len() as int)]))
}

/// `k`-fold iteration of the Ducci map.
pub open spec fn ducci_iter(k: nat, t: Seq<int>) -> Seq<int>
    decreases k,
{
    if k == 0 {
        t
    } else {
        ducci_map(ducci_iter((k - 1) as nat, t))
    }
}

/// Every component is zero.
pub open spec fn all_zero(t: Seq<int>) -> bool {
    forall|i: int| 0 <= i < t.len() ==> t[i] == 0
}

/// Every component is even.
pub open spec fn all_even(t: Seq<int>) -> bool {
    forall|i: int| 0 <= i < t.len() ==> t[i] % 2 == 0
}

/// Every component lies in `[0, m]`.
pub open spec fn bounded_by(t: Seq<int>, m: int) -> bool {
    forall|i: int| 0 <= i < t.len() ==> 0 <= #[trigger] t[i] <= m
}

/// The tuple with every component doubled.
pub open spec fn doubled(t: Seq<int>) -> Seq<int> {
    Seq::new(t.len(), |i: int| 2 * t[i])
}

/// The tuple with every component halved (integer division).
pub open spec fn halved(t: Seq<int>) -> Seq<int> {
    Seq::new(t.len(), |i: int| t[i] / 2)
}

/// The tuple rotated by one position: component `i` of the result is
/// component `(i + 1) mod n` of the argument.
pub open spec fn rotated(t: Seq<int>) -> Seq<int> {
    Seq::new(t.len(), |i: int| t[succ(i, t.len() as int)])
}

/// `2^k`.
pub open spec fn two_pow(k: nat) -> nat
    decreases k,
{
    if k == 0 {
        1nat
    } else {
        2 * two_pow((k - 1) as nat)
    }
}

/// `n` is a positive power of two.
pub open spec fn is_pow2(n: nat) -> bool
    decreases n,
{
    if n == 0 {
        false
    } else if n == 1 {
        true
    } else {
        n % 2 == 0 && is_pow2(n / 2)
    }
}

/// A machine tuple seen as a mathematical tuple.
pub open spec fn int_view(s: Seq<i64>) -> Seq<int> {
    Seq::new(s.len(), |i: int| s[i] as int)
}

/// Every cyclic adjacent difference of `t` fits in an `i64`, so one
/// Ducci step can be computed in 64-bit arithmetic.
pub open spec fn diffs_fit(t: Seq<int>) -> bool {
    forall|i: int| 0 <= i < t.len() ==> abs_diff(t[i], t[succ(i, t.len() as int)]) <= i64::MAX
}

/// Some iterate of the Ducci map from `t` is the all-zero tuple.
pub open spec fn reaches_zero(t: Seq<int>) -> bool {
    exists|k: nat| all_zero(ducci_iter(k, t))
}

/// `k` is the least number of Ducci steps that takes `t` to the
/// all-zero tuple.
pub open spec fn is_first_zero_step(t: Seq<int>, k: nat) -> bool {
    &&& all_zero(ducci_iter(k, t))
    &&& forall|j: nat| j < k ==> !all_zero(ducci_iter(j, t))
}

/// The least number of Ducci steps that takes `t` to the all-zero
/// tuple (meaningful when `reaches_zero(t)` holds).
pub open spec fn steps_to_zero(t: Seq<int>) -> nat {
    choose|k: nat| is_first_zero_step(t, k)
}

} // verus!
