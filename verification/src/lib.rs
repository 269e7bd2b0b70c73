//! A library for creating Ducci sequences from n-tuples.
//!
//! The Ducci map sends a tuple `(a_0, ..., a_{n-1})` of signed 64-bit
//! integers to the tuple of cyclic adjacent absolute differences
//! `(|a_0 - a_1|, ..., |a_{n-1} - a_0|)`. When `n` is a power of two,
//! iterating the map always reaches the all-zero tuple; this crate
//! returns the full iteration history up to and including that terminal
//! tuple, and proves both the history's shape and the termination of
//! the iteration.

pub mod model;
pub mod theory;

use vstd::prelude::*;

use crate::model::{
    abs_diff, all_zero, diffs_fit, ducci_iter, ducci_map, int_view, is_pow2, reaches_zero,
    steps_to_zero,
    succ,
};
use crate::theory::{
    lemma_bounded_diffs_fit, lemma_bounded_reaches_zero, lemma_iter_commute, lemma_map_of_fitting,
    lemma_steps_decrease,
};

verus! {

/// An ordered sequence of signed 64-bit integers.
pub type Tuple = Vec<i64>;

/// The absolute difference `|a - b|` of two 64-bit signed integers.
///
/// The inputs must be close enough that the difference itself fits in
/// an `i64`; realistic Ducci inputs (small integers) always are.
pub fn sub_abs(a: i64, b: i64) -> (r: i64)
    requires
        abs_diff(a as int, b as int) <= i64::MAX,
    ensures
        r as int == abs_diff(a as int, b as int),
{
    if a >= b {
        a - b
    } else {
        b - a
    }
}

/// One Ducci step: the successor of `tuple` under the map `D`, the
/// tuple of cyclic adjacent absolute differences.
///
/// The adjacent differences must fit in an `i64`; every tuple that a
/// Ducci step has already produced satisfies that, since its components
/// lie in `[0, i64::MAX]`.
pub fn create_following_ducci(tuple: Tuple) -> (res: Tuple)
    requires
        diffs_fit(int_view(tuple@)),
    ensures
        res@.len() == tuple@.len(),
        int_view(res@) == ducci_map(int_view(tuple@)),
{
    let n = tuple.len();
    let mut result: Vec<i64> = Vec::new();
    let mut index: usize = 0;
    while index < n
        invariant
            n == tuple@.len(),
            diffs_fit(int_view(tuple@)),
            index <= n,
            result@.len() == index,
            forall|i: int|
                0 <= i < index ==> #[trigger] result@[i] as int == ducci_map(int_view(tuple@))[i],
        decreases n - index,
    {
        let a = tuple[index];
        let b = if index == n - 1 {
            tuple[0]
        } else {
            tuple[index + 1]
        };
        proof {
            let t = int_view(tuple@);
            assert(t.len() as int == n as int);
            assert(a as int == t[index as int]);
            assert(b as int == t[succ(index as int, t.len() as int)]);
            assert(abs_diff(t[index as int], t[succ(index as int, t.len() as int)]) <= i64::MAX);
        }
        result.push(sub_abs(a, b));
        index += 1;
    }
    proof {
        assert(int_view(result@) =~= ducci_map(int_view(tuple@)));
    }
    result
}

/// The Ducci sequence of `entry_sequence`: the full iteration history
/// of the Ducci map, starting with the input tuple itself and ending
/// with the first all-zero tuple reached.
///
/// When the input length is a positive power of two the history is
/// non-empty, its first element is the input, consecutive elements are
/// related by one Ducci step, no element but the last is all zero, and
/// the last is the all-zero tuple of the input's length. When the
/// length is not a power of two (in particular, when it is zero) the
/// history is empty: such sequences need not ever reach zero, and the
/// library does not iterate them.
///
/// The loop terminates because `steps_to_zero` of the current tuple
/// falls by one at each step; that it is well defined at all is the
/// convergence theorem `lemma_bounded_reaches_zero`.
pub fn create_ducci_sequence(entry_sequence: Tuple) -> (res: Vec<Tuple>)
    requires
        is_pow2(entry_sequence@.len()) ==> diffs_fit(int_view(entry_sequence@)),
    ensures
        !is_pow2(entry_sequence@.len()) ==> res@.len() == 0,
        is_pow2(entry_sequence@.len()) ==> {
            &&& res@.len() >= 1
            &&& res@[0]@ == entry_sequence@
            &&& all_zero(int_view(res@[res@.len() - 1]@))
            &&& forall|j: int|
                0 <= j < res@.len() - 1 ==> #[trigger] int_view(res@[j + 1]@) == ducci_map(
                    int_view(res@[j]@),
                )
            &&& forall|j: int| 0 <= j < res@.len() - 1 ==> !all_zero(int_view(#[trigger] res@[j]@))
            &&& forall|j: int|
                0 <= j < res@.len() ==> (#[trigger] res@[j]@).len() == entry_sequence@.len()
        },
{
    if !is_power_of_two(entry_sequence.len()) {
        return Vec::new();
    }
    let ghost start = entry_sequence@;
    let mut res_vector: Vec<Tuple> = Vec::new();
    let mut current = entry_sequence;
    proof {
        // The convergence theorem, applied one step in: the input may
        // have negative components, but its first Ducci image is
        // non-negative and bounded.
        if !all_zero(int_view(start)) {
            lemma_map_of_fitting(int_view(start));
            lemma_bounded_diffs_fit(ducci_map(int_view(start)));
            lemma_bounded_reaches_zero(ducci_map(int_view(start)), i64::MAX as int);
            let k = choose|k: nat| all_zero(ducci_iter(k, ducci_map(int_view(start))));
            lemma_iter_commute(k, int_view(start));
            assert(all_zero(ducci_iter(k + 1, int_view(start))));
        } else {
            assert(all_zero(ducci_iter(0, int_view(start))));
        }
    }
    while !tuple_is_zero(&current)
        invariant
            current@.len() == start.len(),
            diffs_fit(int_view(current@)),
            reaches_zero(int_view(current@)),
            res_vector@.len() == 0 ==> current@ == start,
            res_vector@.len() > 0 ==> res_vector@[0]@ == start,
            res_vector@.len() > 0 ==> int_view(current@) == ducci_map(
                int_view(res_vector@[res_vector@.len() - 1]@),
            ),
            forall|j: int|
                0 <= j < res_vector@.len() - 1 ==> #[trigger] int_view(res_vector@[j + 1]@)
                    == ducci_map(int_view(res_vector@[j]@)),
            forall|j: int|
                0 <= j < res_vector@.len() ==> !all_zero(int_view(#[trigger] res_vector@[j]@)),
            forall|j: int|
                0 <= j < res_vector@.len() ==> (#[trigger] res_vector@[j]@).len() == start.len(),
        decreases steps_to_zero(int_view(current@)),
    {
        let copied = copy_tuple(&current);
        res_vector.push(copied);
        proof {
            lemma_steps_decrease(int_view(current@));
            lemma_map_of_fitting(int_view(current@));
            lemma_bounded_diffs_fit(ducci_map(int_view(current@)));
        }
        current = create_following_ducci(current);
    }
    res_vector.push(current);
    res_vector
}

/// Whether `n` is a positive power of two, the lengths for which the
/// Ducci iteration is guaranteed to terminate.
fn is_power_of_two(n: usize) -> (b: bool)
    ensures
        b == is_pow2(n as nat),
{
    if n == 0 {
        return false;
    }
    let mut m = n;
    while m > 1
        invariant
            1 <= m <= n,
            is_pow2(n as nat) == is_pow2(m as nat),
        decreases m,
    {
        if m % 2 == 1 {
            return false;
        }
        m = m / 2;
    }
    true
}

/// Whether every component of the tuple is zero.
fn tuple_is_zero(tuple: &Tuple) -> (b: bool)
    ensures
        b == all_zero(int_view(tuple@)),
{
    let n = tuple.len();
    let mut index: usize = 0;
    while index < n
        invariant
            n == tuple@.len(),
            index <= n,
            forall|i: int| 0 <= i < index ==> #[trigger] int_view(tuple@)[i] == 0,
        decreases n - index,
    {
        if tuple[index] != 0 {
            proof {
                assert(int_view(tuple@)[index as int] != 0);
            }
            return false;
        }
        index += 1;
    }
    true
}

/// A fresh tuple with the same components.
fn copy_tuple(tuple: &Tuple) -> (res: Tuple)
    ensures
        res@ == tuple@,
{
    let n = tuple.len();
    let mut result: Vec<i64> = Vec::new();
    let mut index: usize = 0;
    while index < n
        invariant
            n == tuple@.len(),
            index <= n,
            result@ == tuple@.subrange(0, index as int),
        decreases n - index,
    {
        result.push(tuple[index]);
        proof {
            assert(result@ =~= tuple@.subrange(0, index + 1));
        }
        index += 1;
    }
    proof {
        assert(result@ =~= tuple@);
    }
    result
}

} // verus!
