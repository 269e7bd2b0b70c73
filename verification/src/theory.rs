//! Proofs about the Ducci map.
//!
//! The centrepiece is the classical convergence theorem: from any tuple
//! whose length is a power of two, iterating the Ducci map reaches the
//! all-zero tuple. The argument is the standard one: working modulo 2
//! the map is linear, and `2^k` steps shift parities by `2^k` places,
//! so after `n = 2^k` steps every component is even; halving an
//! all-even tuple commutes with the map and shrinks the bound on its
//! components, so induction on that bound finishes the proof. The
//! least-steps count derived from the theorem serves as the
//! termination measure of the executable driver loop.

use vstd::prelude::*;
use vstd::arithmetic::div_mod::{
    lemma_add_mod_noop, lemma_div_decreases, lemma_div_is_ordered, lemma_div_pos_is_pos,
    lemma_fundamental_div_mod, lemma_mod_bound, lemma_mod_multiples_vanish, lemma_small_mod,
};

use crate::model::{
    abs_diff, all_even, all_zero, bounded_by, diffs_fit, doubled, ducci_iter, ducci_map, halved,
    int_view, is_first_zero_step, is_pow2, reaches_zero, rotated, steps_to_zero, succ, two_pow,
};

verus! {

/// The Ducci map preserves the length of a tuple, and so does every
/// iterate of it.
pub proof fn lemma_iter_len(k: nat, t: Seq<int>)
    ensures
        ducci_iter(k, t).len() == t.len(),
    decreases k,
{
    if k > 0 {
        lemma_iter_len((k - 1) as nat, t);
    }
}

/// Iterating after one step is one step after iterating: the map
/// commutes with its own iterates.
pub proof fn lemma_iter_commute(k: nat, t: Seq<int>)
    ensures
        ducci_iter(k, ducci_map(t)) == ducci_map(ducci_iter(k, t)),
    decreases k,
{
    if k > 0 {
        lemma_iter_commute((k - 1) as nat, t);
    }
}

/// Iterates compose: `a + b` steps from `t` is `a` steps from the
/// tuple reached after `b` steps.
pub proof fn lemma_iter_add(a: nat, b: nat, t: Seq<int>)
    ensures
        ducci_iter(a + b, t) == ducci_iter(a, ducci_iter(b, t)),
    decreases a,
{
    if a > 0 {
        lemma_iter_add((a - 1) as nat, b, t);
        assert(ducci_iter(a + b, t) == ducci_map(ducci_iter((a + b - 1) as nat, t)));
    }
}

/// An absolute difference has the parity of the sum.
pub proof fn lemma_abs_diff_parity(a: int, b: int)
    ensures
        abs_diff(a, b) % 2 == (a + b) % 2,
{
    if a >= b {
        lemma_mod_multiples_vanish(b, a - b, 2);
        assert(2 * b + (a - b) == a + b);
    } else {
        lemma_mod_multiples_vanish(a, b - a, 2);
        assert(2 * a + (b - a) == a + b);
    }
}

/// `2^k` is positive.
proof fn lemma_two_pow_pos(k: nat)
    ensures
        two_pow(k) >= 1,
    decreases k,
{
    if k > 0 {
        lemma_two_pow_pos((k - 1) as nat);
    }
}

/// Inside a tuple, the cyclic successor is addition of one modulo the
/// length.
proof fn lemma_succ_is_mod(i: int, n: int)
    requires
        0 <= i < n,
    ensures
        succ(i, n) == (i + 1) % n,
{
    if i + 1 == n {
        lemma_mod_multiples_vanish(1, 0, n);
        lemma_small_mod(0nat, n as nat);
    } else {
        lemma_small_mod((i + 1) as nat, n as nat);
    }
}

/// After `2^k` Ducci steps, each component's parity is the parity of
/// the sum of the original components at distance `2^k` apart: modulo 2
/// the map is linear, and squaring the step count doubles the shift.
proof fn lemma_iter_pow2_parity(k: nat, t: Seq<int>)
    requires
        t.len() >= 1,
    ensures
        forall|i: int|
            0 <= i < t.len() ==> #[trigger] ducci_iter(two_pow(k), t)[i] % 2 == (t[i] + t[(i
                + two_pow(k)) % (t.len() as int)]) % 2,
    decreases k,
{
    let n = t.len() as int;
    if k == 0 {
        assert(ducci_iter(1, t) == ducci_map(ducci_iter(0, t)));
        assert forall|i: int| 0 <= i < n implies #[trigger] ducci_iter(two_pow(0nat), t)[i] % 2
            == (t[i] + t[(i + two_pow(0nat)) % n]) % 2 by {
            assert(ducci_map(t)[i] == abs_diff(t[i], t[succ(i, n)]));
            lemma_abs_diff_parity(t[i], t[succ(i, n)]);
            lemma_succ_is_mod(i, n);
        }
    } else {
        let h = (k - 1) as nat;
        let p = two_pow(h) as int;
        lemma_two_pow_pos(h);
        let u = ducci_iter(two_pow(h), t);
        lemma_iter_len(two_pow(h), t);
        lemma_iter_add(two_pow(h), two_pow(h), t);
        assert(ducci_iter(two_pow(k), t) == ducci_iter(two_pow(h), u));
        lemma_iter_pow2_parity(h, t);
        lemma_iter_pow2_parity(h, u);
        assert forall|i: int| 0 <= i < n implies #[trigger] ducci_iter(two_pow(k), t)[i] % 2 == (
        t[i] + t[(i + two_pow(k)) % n]) % 2 by {
            let s1 = (i + p) % n;
            let s2 = (i + 2 * p) % n;
            lemma_mod_bound(i + p, n);
            // `(s1 + p) % n == s2`: push the outer shift through the modulus.
            lemma_add_mod_noop(i + p, p, n);
            lemma_add_mod_noop(s1, p, n);
            lemma_small_mod(s1 as nat, n as nat);
            assert((s1 + p) % n == s2);
            // The three parity facts from the induction hypotheses.
            assert(u[i] % 2 == (t[i] + t[s1]) % 2);
            assert(u[s1] % 2 == (t[s1] + t[s2]) % 2);
            assert(ducci_iter(two_pow(h), u)[i] % 2 == (u[i] + u[s1]) % 2);
            // Combine them: the middle component appears twice and drops out.
            lemma_add_mod_noop(u[i], u[s1], 2);
            lemma_add_mod_noop(t[i] + t[s1], t[s1] + t[s2], 2);
            lemma_mod_multiples_vanish(t[s1], t[i] + t[s2], 2);
            assert((t[i] + t[s1]) + (t[s1] + t[s2]) == 2 * t[s1] + (t[i] + t[s2]));
        }
    }
}

/// `two_pow` only takes power-of-two values.
proof fn lemma_two_pow_is_pow2(k: nat)
    ensures
        is_pow2(two_pow(k)),
    decreases k,
{
    if k > 0 {
        lemma_two_pow_pos((k - 1) as nat);
        lemma_two_pow_is_pow2((k - 1) as nat);
        lemma_fundamental_div_mod(two_pow(k) as int, 2);
    }
}

/// The powers of two are exactly the values `2^k`.
pub proof fn lemma_is_pow2_iff_two_pow(n: nat)
    ensures
        is_pow2(n) <==> exists|k: nat| n == two_pow(k),
    decreases n,
{
    if is_pow2(n) {
        if n == 1 {
            assert(n == two_pow(0));
        } else {
            lemma_fundamental_div_mod(n as int, 2);
            lemma_div_decreases(n as int, 2);
            lemma_is_pow2_iff_two_pow(n / 2);
            let k = choose|k: nat| n / 2 == two_pow(k);
            assert(n == two_pow(k + 1));
        }
    } else {
        if exists|k: nat| n == two_pow(k) {
            let k = choose|k: nat| n == two_pow(k);
            lemma_two_pow_is_pow2(k);
        }
    }
}

/// After as many Ducci steps as the (power-of-two) length, every
/// component is even: the shift of the parity theorem has gone all the
/// way around the tuple, so each component meets its own parity.
proof fn lemma_pow2_all_even(t: Seq<int>)
    requires
        is_pow2(t.len()),
    ensures
        all_even(ducci_iter(t.len(), t)),
{
    let n = t.len() as int;
    lemma_is_pow2_iff_two_pow(t.len());
    let k = choose|k: nat| t.len() == two_pow(k);
    lemma_iter_pow2_parity(k, t);
    lemma_iter_len(t.len(), t);
    assert forall|i: int| 0 <= i < n implies #[trigger] ducci_iter(t.len(), t)[i] % 2 == 0 by {
        lemma_mod_multiples_vanish(1, i, n);
        lemma_small_mod(i as nat, n as nat);
        assert((i + n) % n == i);
        lemma_mod_multiples_vanish(t[i], 0, 2);
        assert(t[i] + t[i] == 2 * t[i] + 0);
    }
}

/// One Ducci step of a tuple with components in `[0, m]` stays in
/// `[0, m]`.
proof fn lemma_map_bounded(t: Seq<int>, m: int)
    requires
        bounded_by(t, m),
    ensures
        bounded_by(ducci_map(t), m),
{
    assert forall|i: int| 0 <= i < ducci_map(t).len() implies 0 <= #[trigger] ducci_map(t)[i]
        <= m by {
        let n = t.len() as int;
        assert(0 <= t[i] <= m);
        assert(0 <= t[succ(i, n)] <= m);
    }
}

/// Iterating the Ducci map keeps components in `[0, m]`.
proof fn lemma_iter_bounded(k: nat, t: Seq<int>, m: int)
    requires
        bounded_by(t, m),
    ensures
        bounded_by(ducci_iter(k, t), m),
    decreases k,
{
    if k > 0 {
        lemma_iter_bounded((k - 1) as nat, t, m);
        lemma_map_bounded(ducci_iter((k - 1) as nat, t), m);
    }
}

/// One Ducci step of a tuple whose adjacent differences fit in an
/// `i64` has all components in `[0, i64::MAX]`.
pub proof fn lemma_map_of_fitting(t: Seq<int>)
    requires
        diffs_fit(t),
    ensures
        bounded_by(ducci_map(t), i64::MAX as int),
{
    assert forall|i: int| 0 <= i < ducci_map(t).len() implies 0 <= #[trigger] ducci_map(t)[i]
        <= i64::MAX by {
        assert(abs_diff(t[i], t[succ(i, t.len() as int)]) <= i64::MAX);
    }
}

/// A tuple with components in `[0, i64::MAX]` has adjacent differences
/// that fit in an `i64`.
pub proof fn lemma_bounded_diffs_fit(t: Seq<int>)
    requires
        bounded_by(t, i64::MAX as int),
    ensures
        diffs_fit(t),
{
    assert forall|i: int|
        0 <= i < t.len() implies #[trigger] abs_diff(t[i], t[succ(i, t.len() as int)])
        <= i64::MAX by {
        assert(0 <= t[i] <= i64::MAX);
        assert(0 <= t[succ(i, t.len() as int)] <= i64::MAX);
    }
}

/// The Ducci map commutes with doubling every component.
proof fn lemma_map_doubled(t: Seq<int>)
    ensures
        ducci_map(doubled(t)) == doubled(ducci_map(t)),
{
    let n = t.len() as int;
    assert forall|i: int| 0 <= i < n implies ducci_map(doubled(t))[i] == doubled(ducci_map(t))[
    i] by {
        assert(0 <= succ(i, n) < n);
    }
    assert(ducci_map(doubled(t)) =~= doubled(ducci_map(t)));
}

/// Iterating the Ducci map commutes with doubling every component.
proof fn lemma_iter_doubled(k: nat, t: Seq<int>)
    ensures
        ducci_iter(k, doubled(t)) == doubled(ducci_iter(k, t)),
    decreases k,
{
    if k > 0 {
        lemma_iter_doubled((k - 1) as nat, t);
        lemma_map_doubled(ducci_iter((k - 1) as nat, t));
    }
}

/// An all-even tuple is its own half doubled.
proof fn lemma_even_halves(t: Seq<int>)
    requires
        all_even(t),
    ensures
        t == doubled(halved(t)),
{
    assert forall|i: int| 0 <= i < t.len() implies t[i] == doubled(halved(t))[i] by {
        lemma_fundamental_div_mod(t[i], 2);
    }
    assert(t =~= doubled(halved(t)));
}

/// Halving a tuple bounded by `m` bounds it by `m / 2`.
proof fn lemma_halved_bound(t: Seq<int>, m: int)
    requires
        bounded_by(t, m),
        m >= 0,
    ensures
        bounded_by(halved(t), m / 2),
{
    assert forall|i: int| 0 <= i < halved(t).len() implies 0 <= #[trigger] halved(t)[i] <= m
        / 2 by {
        assert(0 <= t[i] <= m);
        lemma_div_pos_is_pos(t[i], 2);
        lemma_div_is_ordered(t[i], m, 2);
    }
}

/// The convergence theorem: from a tuple of power-of-two length with
/// components in `[0, m]`, iterated Ducci steps reach the all-zero
/// tuple. The proof runs by induction on the bound `m`: one trip of
/// `n` steps around the tuple makes every component even, halving
/// commutes with the map, and the half is bounded by `m / 2`.
pub proof fn lemma_bounded_reaches_zero(t: Seq<int>, m: int)
    requires
        is_pow2(t.len()),
        bounded_by(t, m),
        m >= 0,
    ensures
        reaches_zero(t),
    decreases m,
{
    let n = t.len();
    if all_zero(t) {
        assert(all_zero(ducci_iter(0, t)));
    } else {
        let i0 = choose|i: int| 0 <= i < t.len() && t[i] != 0;
        assert(m >= t[i0] >= 1);
        let u = ducci_iter(n, t);
        lemma_pow2_all_even(t);
        lemma_iter_bounded(n, t, m);
        lemma_iter_len(n, t);
        let v = halved(u);
        lemma_even_halves(u);
        lemma_halved_bound(u, m);
        lemma_div_pos_is_pos(m, 2);
        lemma_div_decreases(m, 2);
        lemma_bounded_reaches_zero(v, m / 2);
        let k = choose|k: nat| all_zero(ducci_iter(k, v));
        lemma_iter_doubled(k, v);
        assert(all_zero(ducci_iter(k, u))) by {
            lemma_iter_len(k, v);
            assert(forall|i: int|
                0 <= i < ducci_iter(k, u).len() ==> #[trigger] ducci_iter(k, u)[i] == 2
                    * ducci_iter(k, v)[i]);
        };
        lemma_iter_add(k, n, t);
        assert(all_zero(ducci_iter((k + n) as nat, t)));
    }
}

/// Among the step counts that reach the all-zero tuple there is a
/// least one.
proof fn lemma_first_zero_step_exists(k: nat, t: Seq<int>)
    requires
        all_zero(ducci_iter(k, t)),
    ensures
        exists|j: nat| is_first_zero_step(t, j),
    decreases k,
{
    if forall|j: nat| j < k ==> !all_zero(ducci_iter(j, t)) {
        assert(is_first_zero_step(t, k));
    } else {
        let j = choose|j: nat| j < k && all_zero(ducci_iter(j, t));
        lemma_first_zero_step_exists(j, t);
    }
}

/// There is only one least step count.
proof fn lemma_first_zero_step_unique(t: Seq<int>, a: nat, b: nat)
    requires
        is_first_zero_step(t, a),
        is_first_zero_step(t, b),
    ensures
        a == b,
{
    if a < b {
        assert(!all_zero(ducci_iter(a, t)));
    }
    if b < a {
        assert(!all_zero(ducci_iter(b, t)));
    }
}

/// On a tuple that reaches zero, `steps_to_zero` is the least step
/// count that does.
pub proof fn lemma_steps_to_zero_spec(t: Seq<int>)
    requires
        reaches_zero(t),
    ensures
        is_first_zero_step(t, steps_to_zero(t)),
{
    let k = choose|k: nat| all_zero(ducci_iter(k, t));
    lemma_first_zero_step_exists(k, t);
}

/// One Ducci step of a not-yet-zero tuple that reaches zero still
/// reaches zero and needs exactly one step fewer: the measure of the
/// iteration loop.
pub proof fn lemma_steps_decrease(t: Seq<int>)
    requires
        reaches_zero(t),
        !all_zero(t),
    ensures
        reaches_zero(ducci_map(t)),
        steps_to_zero(ducci_map(t)) == steps_to_zero(t) - 1,
{
    lemma_steps_to_zero_spec(t);
    let r = steps_to_zero(t);
    assert(r >= 1) by {
        assert(ducci_iter(0, t) == t);
    };
    lemma_iter_commute((r - 1) as nat, t);
    assert(ducci_iter(r, t) == ducci_map(ducci_iter((r - 1) as nat, t)));
    assert(all_zero(ducci_iter((r - 1) as nat, ducci_map(t))));
    assert(reaches_zero(ducci_map(t)));
    assert forall|j: nat| j < r - 1 implies !all_zero(ducci_iter(j, ducci_map(t))) by {
        lemma_iter_commute(j, t);
        assert(ducci_iter((j + 1) as nat, t) == ducci_map(ducci_iter(j, t)));
        assert(!all_zero(ducci_iter((j + 1) as nat, t)));
    };
    assert(is_first_zero_step(ducci_map(t), (r - 1) as nat));
    lemma_steps_to_zero_spec(ducci_map(t));
    lemma_first_zero_step_unique(ducci_map(t), steps_to_zero(ducci_map(t)), (r - 1) as nat);
}

/// The power-of-two predicate agrees with the familiar bit trick: a
/// 64-bit `n` is a positive power of two exactly when `n > 0` and
/// `n & (n - 1) == 0`.
pub proof fn lemma_is_pow2_bit_form(n: u64)
    ensures
        is_pow2(n as nat) == (n > 0 && (n & ((n - 1) as u64)) == 0),
    decreases n,
{
    if n == 0 {
    } else if n == 1 {
        assert((1u64 & 0u64) == 0) by (bit_vector);
    } else if n % 2 == 1 {
        assert((n & ((n - 1) as u64)) != 0) by (bit_vector)
            requires
                n >= 2 && n % 2 == 1,
        ;
    } else {
        let h = (n / 2) as u64;
        lemma_is_pow2_bit_form(h);
        assert(((n & ((n - 1) as u64)) == 0) == ((h & ((h - 1) as u64)) == 0)) by (bit_vector)
            requires
                n >= 2 && n % 2 == 0 && h == (n / 2) as u64,
        ;
        assert(h as nat == (n as nat) / 2);
    }
}

/// The Ducci map is length-preserving.
pub proof fn lemma_ducci_map_len(t: Seq<int>)
    ensures
        ducci_map(t).len() == t.len(),
{
}

/// The Ducci map sends non-negative tuples to non-negative tuples.
pub proof fn lemma_ducci_map_nonneg(t: Seq<int>)
    requires
        forall|i: int| 0 <= i < t.len() ==> #[trigger] t[i] >= 0,
    ensures
        forall|i: int| 0 <= i < t.len() ==> #[trigger] ducci_map(t)[i] >= 0,
{
    assert forall|i: int| 0 <= i < t.len() implies #[trigger] ducci_map(t)[i] >= 0 by {
        assert(ducci_map(t)[i] == abs_diff(t[i], t[succ(i, t.len() as int)]));
    }
}

/// The all-zero tuple is a fixed point of the Ducci map.
pub proof fn lemma_ducci_map_zero_fixed(t: Seq<int>)
    requires
        all_zero(t),
    ensures
        ducci_map(t) == t,
{
    assert forall|i: int| 0 <= i < t.len() implies #[trigger] ducci_map(t)[i] == t[i] by {
        assert(t[succ(i, t.len() as int)] == 0);
    }
    assert(ducci_map(t) =~= t);
}

/// The Ducci map commutes with rotating the tuple by one position.
pub proof fn lemma_ducci_map_rotated(t: Seq<int>)
    ensures
        ducci_map(rotated(t)) == rotated(ducci_map(t)),
{
    let n = t.len() as int;
    assert forall|i: int| 0 <= i < n implies #[trigger] ducci_map(rotated(t))[i] == rotated(
        ducci_map(t),
    )[i] by {
        assert(0 <= succ(i, n) < n);
        assert(rotated(t)[i] == t[succ(i, n)]);
        assert(rotated(t)[succ(i, n)] == t[succ(succ(i, n), n)]);
    }
    assert(ducci_map(rotated(t)) =~= rotated(ducci_map(t)));
}

} // verus!
