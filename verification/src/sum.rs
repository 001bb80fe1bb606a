//! Sums whose order of addition is fixed.
//!
//! The numbers are whatever the caller adds: rounding makes addition depend on
//! its order, so the order is part of what is stated here.

use vstd::prelude::*;

verus! {

/// How the value at index `k` takes a running sum from `before` to `after`: its
/// term is added, or there is none and the sum stays.
pub open spec fn index_adds<X, S, T, Term: Fn(X, usize, S) -> Option<T>, Plus: Fn(T, T) -> T>(
    of: X,
    term: Term,
    plus: Plus,
    k: int,
    value: S,
    before: T,
    after: T,
) -> bool {
    ||| call_ensures(term, (of, k as usize, value), None::<T>) && after == before
    ||| exists|t: T|
        {
            &&& #[trigger] call_ensures(term, (of, k as usize, value), Some(t))
            &&& call_ensures(plus, (before, t), after)
        }
}

/// `sums` starts at `zero` and takes in the values one by one, first to last.
pub open spec fn running_sum<X, S, T, Term: Fn(X, usize, S) -> Option<T>, Plus: Fn(T, T) -> T>(
    of: X,
    values: Seq<S>,
    zero: T,
    term: Term,
    plus: Plus,
    sums: Seq<T>,
) -> bool {
    &&& sums.len() == values.len() + 1
    &&& sums[0] == zero
    &&& forall|k: int|
        0 <= k < values.len() ==> index_adds(
            of,
            term,
            plus,
            k,
            #[trigger] values[k],
            sums[k],
            sums[k + 1],
        )
}

/// The sum of the terms that `of` has for some values, first to last, starting
/// at `zero`. A value without a term adds nothing.
pub fn ordered_sum<
    X: Copy,
    S: Copy,
    T: Copy,
    Term: Fn(X, usize, S) -> Option<T>,
    Plus: Fn(T, T) -> T,
>(of: X, values: &Vec<S>, zero: T, term: &Term, plus: &Plus) -> (total: T)
    requires
        forall|k: usize, s: S| k < values.len() ==> #[trigger] call_requires(*term, (of, k, s)),
        forall|a: T, b: T| #[trigger] call_requires(*plus, (a, b)),
    ensures
        exists|sums: Seq<T>|
            {
                &&& #[trigger] running_sum(of, values@, zero, *term, *plus, sums)
                &&& total == sums.last()
            },
{
    let mut total: T = zero;
    let ghost mut sums: Seq<T> = seq![zero];
    let mut k: usize = 0;
    while k < values.len()
        invariant
            k <= values.len(),
            forall|j: usize, s: S| j < values.len() ==> #[trigger] call_requires(*term, (of, j, s)),
            forall|a: T, b: T| #[trigger] call_requires(*plus, (a, b)),
            running_sum(of, values@.take(k as int), zero, *term, *plus, sums),
            total == sums.last(),
        decreases values.len() - k,
    {
        let ghost before = total;
        match term(of, k, values[k]) {
            None => {},
            Some(t) => {
                total = plus(total, t);
            },
        }
        assert(index_adds(of, *term, *plus, k as int, values@[k as int], before, total));
        k += 1;
        proof {
            let more = sums.push(total);
            let seen = values@.take(k as int);
            assert forall|j: int| 0 <= j < seen.len() implies index_adds(
                of,
                *term,
                *plus,
                j,
                #[trigger] seen[j],
                more[j],
                more[j + 1],
            ) by {
                if j < k - 1 {
                    assert(values@.take(k - 1)[j] == seen[j]);
                }
            }
            sums = more;
        }
    }
    assert(values@.take(k as int) =~= values@);
    total
}

/// `sums` starts at `zero` and takes in the values themselves one by one, first
/// to last.
pub open spec fn running_total<T, Plus: Fn(T, T) -> T>(
    values: Seq<T>,
    zero: T,
    plus: &Plus,
    sums: Seq<T>,
) -> bool {
    &&& sums.len() == values.len() + 1
    &&& sums[0] == zero
    &&& forall|k: int|
        0 <= k < values.len() ==> call_ensures(
            plus,
            (sums[k], #[trigger] values[k]),
            sums[k + 1],
        )
}

/// The sum of some values, first to last, starting at `zero`.
pub fn total<T: Copy, Plus: Fn(T, T) -> T>(values: &Vec<T>, zero: T, plus: &Plus) -> (r: T)
    requires
        forall|a: T, b: T| #[trigger] call_requires(plus, (a, b)),
    ensures
        exists|sums: Seq<T>|
            {
                &&& #[trigger] running_total(values@, zero, plus, sums)
                &&& r == sums.last()
            },
{
    let mut r: T = zero;
    let ghost mut sums: Seq<T> = seq![zero];
    let mut k: usize = 0;
    while k < values.len()
        invariant
            k <= values.len(),
            forall|a: T, b: T| #[trigger] call_requires(plus, (a, b)),
            running_total(values@.take(k as int), zero, plus, sums),
            r == sums.last(),
        decreases values.len() - k,
    {
        let ghost before = r;
        r = plus(r, values[k]);
        k += 1;
        proof {
            let more = sums.push(r);
            let seen = values@.take(k as int);
            assert forall|j: int| 0 <= j < seen.len() implies call_ensures(
                plus,
                (more[j], #[trigger] seen[j]),
                more[j + 1],
            ) by {
                if j < k - 1 {
                    assert(values@.take(k - 1)[j] == seen[j]);
                }
            }
            sums = more;
        }
    }
    assert(values@.take(k as int) =~= values@);
    r
}

/// What `n` steps make of a value, the first step first.
pub open spec fn fold<T>(n: nat, zero: T, step: spec_fn(int, T) -> T) -> T
    decreases n,
{
    if n == 0 {
        zero
    } else {
        step(n - 1, fold((n - 1) as nat, zero, step))
    }
}

/// Values that follow one another by steps end where the steps lead.
pub proof fn sums_fold<T>(n: nat, zero: T, step: spec_fn(int, T) -> T, sums: Seq<T>)
    requires
        sums.len() == n + 1,
        sums[0] == zero,
        forall|k: int| 0 <= k < n ==> #[trigger] sums[k + 1] == step(k, sums[k]),
    ensures
        sums.last() == fold(n, zero, step),
    decreases n,
{
    if n > 0 {
        sums_fold((n - 1) as nat, zero, step, sums.drop_last());
        assert(sums[(n - 1) + 1] == step(n - 1, sums[n - 1]));
    }
}

/// An ordered sum, in terms of what the given functions answer: every value's
/// term is added, the first value's first, and a value without a term is passed
/// over.
pub proof fn a_sum_takes_in_every_term_in_order<
    X,
    S,
    T,
    Term: Fn(X, usize, S) -> Option<T>,
    Plus: Fn(T, T) -> T,
>(
    of: X,
    values: Seq<S>,
    zero: T,
    term: Term,
    plus: Plus,
    sums: Seq<T>,
    term_is: spec_fn(X, usize, S) -> Option<T>,
    plus_is: spec_fn(T, T) -> T,
    step: spec_fn(int, T) -> T,
)
    requires
        running_sum(of, values, zero, term, plus, sums),
        forall|x: X, k: usize, s: S, t: Option<T>| #[trigger]
            call_ensures(term, (x, k, s), t) ==> t == term_is(x, k, s),
        forall|a: T, b: T, x: T| #[trigger] call_ensures(plus, (a, b), x) ==> x == plus_is(a, b),
        forall|k: int, x: T|
            0 <= k < values.len() ==> #[trigger] step(k, x) == (match term_is(
                of,
                k as usize,
                values[k],
            ) {
                None => x,
                Some(t) => plus_is(x, t),
            }),
    ensures
        sums.last() == fold(values.len(), zero, step),
{
    assert forall|k: int| 0 <= k < values.len() implies #[trigger] sums[k + 1] == step(
        k,
        sums[k],
    ) by {
        assert(index_adds(of, term, plus, k, values[k], sums[k], sums[k + 1]));
    }
    sums_fold(values.len(), zero, step, sums);
}

/// A total, in terms of what the given function answers: every value is added,
/// the first one first.
pub proof fn a_total_takes_in_every_value_in_order<T, Plus: Fn(T, T) -> T>(
    values: Seq<T>,
    zero: T,
    plus: &Plus,
    sums: Seq<T>,
    plus_is: spec_fn(T, T) -> T,
    step: spec_fn(int, T) -> T,
)
    requires
        running_total(values, zero, plus, sums),
        forall|a: T, b: T, x: T| #[trigger] call_ensures(plus, (a, b), x) ==> x == plus_is(a, b),
        forall|k: int, x: T|
            0 <= k < values.len() ==> #[trigger] step(k, x) == plus_is(x, values[k]),
    ensures
        sums.last() == fold(values.len(), zero, step),
{
    assert forall|k: int| 0 <= k < values.len() implies #[trigger] sums[k + 1] == step(
        k,
        sums[k],
    ) by {
        assert(call_ensures(plus, (sums[k], values[k]), sums[k + 1]));
    }
    sums_fold(values.len(), zero, step, sums);
}

} // verus!
