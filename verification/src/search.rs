//! Searching: the first candidate that fits, the candidate with the highest
//! score, and counting.

use vstd::prelude::*;

verus! {

/// How many entries satisfy `p`.
pub open spec fn count_if(s: Seq<u64>, p: spec_fn(u64) -> bool) -> nat
    decreases s.len(),
{
    if s.len() == 0 {
        0
    } else {
        count_if(s.drop_last(), p) + if p(s.last()) {
            1nat
        } else {
            0
        }
    }
}

/// The sum of `f` over the entries.
pub open spec fn sum_of(s: Seq<u64>, f: spec_fn(u64) -> nat) -> nat
    decreases s.len(),
{
    if s.len() == 0 {
        0
    } else {
        sum_of(s.drop_last(), f) + f(s.last())
    }
}

/// The first entry that satisfies `p`.
pub open spec fn first_in(s: Seq<u64>, p: spec_fn(u64) -> bool) -> Option<u64>
    decreases s.len(),
{
    if s.len() == 0 {
        None
    } else {
        match first_in(s.drop_last(), p) {
            Some(x) => Some(x),
            None => if p(s.last()) {
                Some(s.last())
            } else {
                None
            },
        }
    }
}

/// The first of `at, at + step, ..` below `hi` that satisfies `p`.
pub open spec fn first_from(p: spec_fn(int) -> bool, at: int, step: int, hi: int) -> Option<int>
    decreases
        (if at < hi {
            hi - at
        } else {
            0
        }),
{
    if step <= 0 || at >= hi {
        None
    } else if p(at) {
        Some(at)
    } else {
        first_from(p, at + step, step, hi)
    }
}

/// The highest score among the first `n` of `lo, lo + step, ..`, with the first
/// candidate that has it; (0, -1) where no candidate scores.
pub open spec fn best(score: spec_fn(int) -> nat, lo: int, step: int, n: nat) -> (nat, int)
    decreases n,
{
    if n == 0 {
        (0, -1)
    } else {
        let b = best(score, lo, step, (n - 1) as nat);
        let x = lo + step * (n - 1);
        if score(x) > b.0 {
            (score(x), x)
        } else {
            b
        }
    }
}

/// Every `step`-th entry from `at` on, `k` of them at most.
pub open spec fn spread(s: Seq<u64>, step: int, at: int, k: nat) -> Seq<u64>
    decreases k,
{
    if k == 0 || at >= s.len() {
        Seq::empty()
    } else {
        seq![s[at]] + spread(s, step, at + step, (k - 1) as nat)
    }
}

/// The winner scores, nothing scores more, and nothing before it scores as
/// much.
pub proof fn law_best_is_first_maximum(
    score: spec_fn(int) -> nat,
    lo: int,
    step: int,
    n: nat,
    i: nat,
)
    requires
        i < n,
    ensures
        score(lo + step * i) <= best(score, lo, step, n).0,
        best(score, lo, step, n).0 > 0 ==> score(best(score, lo, step, n).1) == best(
            score,
            lo,
            step,
            n,
        ).0,
        step > 0 && best(score, lo, step, n).0 > 0 && lo + step * i < best(score, lo, step, n).1
            ==> score(lo + step * i) < best(score, lo, step, n).0,
    decreases n,
{
    let b = best(score, lo, step, (n - 1) as nat);
    if i < n - 1 {
        law_best_is_first_maximum(score, lo, step, (n - 1) as nat, i);
    } else {
        if n >= 2 {
            law_best_is_first_maximum(score, lo, step, (n - 1) as nat, 0);
            lemma_best_in_range(score, lo, step, (n - 1) as nat);
            if step > 0 {
                assert(step * (n - 2) < step * (n - 1)) by (nonlinear_arith)
                    requires
                        step > 0,
                        n >= 2,
                ;
            }
        }
    }
}

/// A winner is one of the candidates.
pub proof fn lemma_best_in_range(score: spec_fn(int) -> nat, lo: int, step: int, n: nat)
    ensures
        ({
            let b = best(score, lo, step, n);
            b.0 > 0 ==> exists|j: int|
                0 <= j < n && b.1 == lo + #[trigger] (step * j)
        }),
        step > 0 && n > 0 && best(score, lo, step, n).0 > 0 ==> lo <= best(score, lo, step, n).1 <= lo
            + step * (n - 1),
    decreases n,
{
    if n > 0 {
        lemma_best_in_range(score, lo, step, (n - 1) as nat);
        let b = best(score, lo, step, (n - 1) as nat);
        let x = lo + step * (n - 1);
        if step > 0 {
            assert(step * (n - 1) >= 0) by (nonlinear_arith)
                requires
                    step > 0,
                    n > 0,
            ;
        }
        if score(x) > b.0 {
            assert(x == lo + step * (n - 1));
        } else if b.0 > 0 {
            let j = choose|j: int| 0 <= j < n - 1 && b.1 == lo + #[trigger] (step * j);
            if step > 0 {
                assert(0 <= step * j <= step * (n - 1)) by (nonlinear_arith)
                    requires
                        step > 0,
                        0 <= j < n - 1,
                ;
            }
        }
    }
}

/// The first of a list that satisfies a test is an entry that does, and none
/// before it does; there is none exactly where no entry does.
pub proof fn law_first_in(s: Seq<u64>, p: spec_fn(u64) -> bool)
    ensures
        first_in(s, p) matches Some(x) ==> exists|i: int|
            0 <= i < s.len() && #[trigger] s[i] == x && p(x) && forall|j: int|
                0 <= j < i ==> !p(#[trigger] s[j]),
        first_in(s, p) is None <==> forall|i: int| 0 <= i < s.len() ==> !p(#[trigger] s[i]),
    decreases s.len(),
{
    if s.len() > 0 {
        let d = s.drop_last();
        let n = s.len() - 1;
        law_first_in(d, p);
        assert(forall|i: int| 0 <= i < n ==> #[trigger] d[i] == s[i]);
        if let Some(x) = first_in(d, p) {
            let i = choose|i: int|
                0 <= i < d.len() && #[trigger] d[i] == x && p(x) && forall|j: int|
                    0 <= j < i ==> !p(#[trigger] d[j]);
            assert(s[i] == x);
            assert forall|j: int| 0 <= j < i implies !p(#[trigger] s[j]) by {
                assert(d[j] == s[j]);
            }
        } else {
            assert forall|j: int| 0 <= j < n implies !p(#[trigger] s[j]) by {
                assert(d[j] == s[j]);
            }
            assert(s[n] == s.last());
        }
    }
}

/// Counting what satisfies a test is keeping it and taking the length.
pub proof fn law_count_if(s: Seq<u64>, p: spec_fn(u64) -> bool)
    ensures
        count_if(s, p) == s.filter(p).len(),
    decreases s.len(),
{
    reveal(Seq::filter);
    if s.len() > 0 {
        law_count_if(s.drop_last(), p);
    }
}

/// A sum over a list and one more entry; the sum of nothing is 0.
pub proof fn law_sum_of(s: Seq<u64>, x: u64, f: spec_fn(u64) -> nat)
    ensures
        sum_of(Seq::empty(), f) == 0,
        sum_of(s.push(x), f) == sum_of(s, f) + f(x),
{
    assert(s.push(x).drop_last() =~= s);
}

/// The spread of a list has every `step`-th entry of it, from `at` on, and as
/// many as there are, or as are asked for.
pub proof fn law_spread(s: Seq<u64>, step: int, at: int, k: nat)
    requires
        step > 0,
        at >= 0,
    ensures
        spread(s, step, at, k).len() <= k,
        forall|i: int|
            0 <= i < spread(s, step, at, k).len() ==> at + #[trigger] (step * i) < s.len()
                && spread(s, step, at, k)[i] == s[at + step * i],
        spread(s, step, at, k).len() < k ==> at + step * spread(s, step, at, k).len() >= s.len(),
    decreases k,
{
    if k > 0 && at < s.len() {
        let rest = spread(s, step, at + step, (k - 1) as nat);
        law_spread(s, step, at + step, (k - 1) as nat);
        let all = spread(s, step, at, k);
        assert forall|i: int| 0 <= i < all.len() implies at + #[trigger] (step * i) < s.len()
            && all[i] == s[at + step * i] by {
            if i > 0 {
                assert(all[i] == rest[i - 1]);
                assert(step * i == step + step * (i - 1)) by (nonlinear_arith);
                assert(at + step * i == (at + step) + step * (i - 1));
            } else {
                assert(all[0] == s[at]);
                assert(step * i == 0) by (nonlinear_arith)
                    requires
                        i == 0,
                ;
            }
        }
        assert(step * all.len() == step + step * rest.len()) by (nonlinear_arith)
            requires
                all.len() == rest.len() + 1,
        ;
    } else {
        assert(spread(s, step, at, k) =~= Seq::empty());
        assert(step * 0 == 0);
    }
}

/// The first fit is a candidate that fits, and none before it does; there is
/// none exactly where no candidate fits.
pub proof fn law_first_from(p: spec_fn(int) -> bool, at: int, step: int, hi: int)
    requires
        step > 0,
    ensures
        first_from(p, at, step, hi) matches Some(x) ==> at <= x < hi && p(x),
        first_from(p, at, step, hi) matches Some(x) ==> exists|k: nat|
            x == at + #[trigger] (step * k),
        first_from(p, at, step, hi) matches Some(x) ==> forall|k: nat|
            at + #[trigger] (step * k) < x ==> !p(at + step * k),
        first_from(p, at, step, hi) is None ==> forall|k: nat|
            at + #[trigger] (step * k) < hi ==> !p(at + step * k),
    decreases
        (if at < hi {
            hi - at
        } else {
            0
        }),
{
    if at < hi && !p(at) {
        law_first_from(p, at + step, step, hi);
        if let Some(x) = first_from(p, at, step, hi) {
            let j = choose|j: nat| x == (at + step) + #[trigger] (step * j);
            let k: nat = j + 1;
            assert(step * k == step + step * j) by (nonlinear_arith)
                requires
                    k == j + 1,
            ;
            assert forall|k: nat| at + #[trigger] (step * k) < x implies !p(at + step * k) by {
                if k > 0 {
                    let j = (k - 1) as nat;
                    assert(step * k == step + step * j) by (nonlinear_arith)
                        requires
                            k == j + 1,
                    ;
                    assert((at + step) + step * j < x);
                } else {
                    assert(step * k == 0) by (nonlinear_arith)
                        requires
                            k == 0,
                    ;
                }
            }
        } else {
            assert forall|k: nat| at + #[trigger] (step * k) < hi implies !p(at + step * k) by {
                if k > 0 {
                    let j = (k - 1) as nat;
                    assert(step * k == step + step * j) by (nonlinear_arith)
                        requires
                            k == j + 1,
                    ;
                    assert((at + step) + step * j < hi);
                } else {
                    assert(step * k == 0) by (nonlinear_arith)
                        requires
                            k == 0,
                    ;
                }
            }
        }
    } else if at < hi {
        assert(step * 0nat == 0) by (nonlinear_arith);
        assert forall|k: nat| at + #[trigger] (step * k) < at implies !p(at + step * k) by {
            assert(step * k >= 0) by (nonlinear_arith)
                requires
                    step > 0,
                    k >= 0,
            ;
        }
    } else {
        assert forall|k: nat| at + #[trigger] (step * k) < hi implies !p(at + step * k) by {
            assert(step * k >= 0) by (nonlinear_arith)
                requires
                    step > 0,
                    k >= 0,
            ;
        }
    }
}

/// The first of all numbers from `at` on that fits, below `hi`.
pub proof fn law_first_number(p: spec_fn(int) -> bool, at: int, hi: int)
    ensures
        first_from(p, at, 1, hi) matches Some(x) ==> at <= x < hi && p(x) && forall|i: int|
            at <= i < x ==> !#[trigger] p(i),
        first_from(p, at, 1, hi) is None ==> forall|i: int| at <= i < hi ==> !#[trigger] p(i),
    decreases
        (if at < hi {
            hi - at
        } else {
            0
        }),
{
    if at < hi && !p(at) {
        law_first_number(p, at + 1, hi);
    }
}

/// A count is at most the number of entries.
pub proof fn lemma_count_bound(s: Seq<u64>, p: spec_fn(u64) -> bool)
    ensures
        count_if(s, p) <= s.len(),
    decreases s.len(),
{
    if s.len() > 0 {
        lemma_count_bound(s.drop_last(), p);
    }
}

/// Counts the entries that `f` accepts.
pub(crate) fn count_where<F: Fn(u64) -> bool>(
    s: &Vec<u64>,
    f: F,
    Ghost(p): Ghost<spec_fn(u64) -> bool>,
) -> (n: usize)
    requires
        forall|c: u64| #[trigger] call_requires(f, (c,)),
        forall|c: u64, b: bool| #[trigger] call_ensures(f, (c,), b) ==> b == p(c),
    ensures
        n == count_if(s@, p),
{
    let mut n: usize = 0;
    let mut i: usize = 0;
    while i < s.len()
        invariant
            i <= s.len(),
            n <= i,
            n == count_if(s@.take(i as int), p),
            forall|c: u64| #[trigger] call_requires(f, (c,)),
            forall|c: u64, b: bool| #[trigger] call_ensures(f, (c,), b) ==> b == p(c),
        decreases s.len() - i,
    {
        assert(s@.take(i + 1).drop_last() == s@.take(i as int));
        if f(s[i]) {
            n = n + 1;
        }
        i = i + 1;
    }
    assert(s@.take(i as int) == s@);
    n
}

/// The first entry that `f` accepts.
pub(crate) fn find_where<F: Fn(u64) -> bool>(
    s: &Vec<u64>,
    f: F,
    Ghost(p): Ghost<spec_fn(u64) -> bool>,
) -> (r: Option<u64>)
    requires
        forall|c: u64| #[trigger] call_requires(f, (c,)),
        forall|c: u64, b: bool| #[trigger] call_ensures(f, (c,), b) ==> b == p(c),
    ensures
        r == first_in(s@, p),
{
    let mut i: usize = 0;
    while i < s.len()
        invariant
            i <= s.len(),
            first_in(s@.take(i as int), p) is None,
            forall|c: u64| #[trigger] call_requires(f, (c,)),
            forall|c: u64, b: bool| #[trigger] call_ensures(f, (c,), b) ==> b == p(c),
        decreases s.len() - i,
    {
        assert(s@.take(i + 1).drop_last() == s@.take(i as int));
        if f(s[i]) {
            proof {
                lemma_first_in_prefix(s@, i + 1, p);
            }
            return Some(s[i]);
        }
        i = i + 1;
    }
    assert(s@.take(i as int) == s@);
    None
}

/// What is first in a prefix is first in the whole.
proof fn lemma_first_in_prefix(s: Seq<u64>, i: int, p: spec_fn(u64) -> bool)
    requires
        0 <= i <= s.len(),
        first_in(s.take(i), p) is Some,
    ensures
        first_in(s, p) == first_in(s.take(i), p),
    decreases s.len(),
{
    if i == s.len() {
        assert(s.take(i) == s);
    } else {
        assert(s.drop_last().take(i) == s.take(i));
        lemma_first_in_prefix(s.drop_last(), i, p);
    }
}

/// The entries of `s` that `f` accepts, in order.
pub(crate) fn keep_where<F: Fn(u64) -> bool>(
    s: &Vec<u64>,
    top: usize,
    f: F,
    Ghost(p): Ghost<spec_fn(u64) -> bool>,
) -> (r: Vec<u64>)
    requires
        top <= s.len(),
        forall|c: u64| #[trigger] call_requires(f, (c,)),
        forall|c: u64, b: bool| #[trigger] call_ensures(f, (c,), b) ==> b == p(c),
    ensures
        r@ == s@.take(top as int).filter(p),
{
    let mut r: Vec<u64> = Vec::new();
    let mut i: usize = 0;
    reveal(Seq::filter);
    assert(s@.take(0).filter(p) == Seq::<u64>::empty());
    while i < top
        invariant
            i <= top <= s.len(),
            r@ == s@.take(i as int).filter(p),
            forall|c: u64| #[trigger] call_requires(f, (c,)),
            forall|c: u64, b: bool| #[trigger] call_ensures(f, (c,), b) ==> b == p(c),
        decreases top - i,
    {
        reveal(Seq::filter);
        assert(s@.take(i + 1).drop_last() == s@.take(i as int));
        if f(s[i]) {
            r.push(s[i]);
        }
        i = i + 1;
    }
    r
}

/// The sum of `f` over the first `top` entries; `f` is at most 4.
pub(crate) fn sum_where<F: Fn(u64) -> usize>(
    s: &Vec<u64>,
    top: usize,
    f: F,
    Ghost(p): Ghost<spec_fn(u64) -> nat>,
) -> (n: usize)
    requires
        top <= s.len(),
        top <= 0x1000_0000,
        forall|c: u64| #[trigger] call_requires(f, (c,)),
        forall|c: u64, v: usize| #[trigger] call_ensures(f, (c,), v) ==> v == p(c) && v <= 4,
    ensures
        n == sum_of(s@.take(top as int), p),
        n <= 4 * top,
{
    let mut n: usize = 0;
    let mut i: usize = 0;
    while i < top
        invariant
            i <= top <= s.len(),
            top <= 0x1000_0000,
            n <= 4 * i,
            n == sum_of(s@.take(i as int), p),
            forall|c: u64| #[trigger] call_requires(f, (c,)),
            forall|c: u64, v: usize| #[trigger]
                call_ensures(f, (c,), v) ==> v == p(c) && v <= 4,
        decreases top - i,
    {
        assert(s@.take(i + 1).drop_last() == s@.take(i as int));
        n = n + f(s[i]);
        i = i + 1;
    }
    n
}

/// The number in an option, as an integer.
pub open spec fn opt_int(r: Option<u64>) -> Option<int> {
    match r {
        Some(x) => Some(x as int),
        None => None,
    }
}

/// The first candidate that `f` accepts.
pub(crate) fn first_where<F: Fn(u64) -> bool>(
    lo: u64,
    step: u64,
    hi: u64,
    f: F,
    Ghost(p): Ghost<spec_fn(int) -> bool>,
) -> (r: Option<u64>)
    requires
        step > 0,
        hi + step <= u64::MAX,
        forall|x: u64| x < hi ==> #[trigger] call_requires(f, (x,)),
        forall|x: u64, b: bool| #[trigger] call_ensures(f, (x,), b) ==> b == p(x as int),
    ensures
        opt_int(r) == first_from(p, lo as int, step as int, hi as int),
{
    let mut x: u64 = lo;
    while x < hi
        invariant
            step > 0,
            hi + step <= u64::MAX,
            forall|x: u64| x < hi ==> #[trigger] call_requires(f, (x,)),
            forall|x: u64, b: bool| #[trigger] call_ensures(f, (x,), b) ==> b == p(x as int),
            first_from(p, lo as int, step as int, hi as int) == first_from(
                p,
                x as int,
                step as int,
                hi as int,
            ),
        decreases
            (if x < hi {
                hi - x
            } else {
                0
            }),
    {
        if f(x) {
            return Some(x);
        }
        x = x + step;
    }
    None
}

/// The candidate that `f` scores highest. `aborted` is asked before every
/// `every`-th candidate; where it says yes, nothing is returned.
pub(crate) fn best_where<F: Fn(u64) -> usize, G: Fn() -> bool>(
    lo: u64,
    step: u64,
    n: u64,
    f: F,
    aborted: &G,
    every: u64,
    Ghost(score): Ghost<spec_fn(int) -> nat>,
) -> (r: Option<(usize, u64)>)
    requires
        lo + step * n <= u64::MAX,
        every > 0,
        call_requires(aborted, ()),
        forall|x: u64| lo <= x <= lo + step * n ==> #[trigger] call_requires(f, (x,)),
        forall|x: u64, v: usize| #[trigger] call_ensures(f, (x,), v) ==> v == score(x as int),
    ensures
        r is None ==> call_ensures(aborted, (), true),
        n > 0 && (forall|b: bool| call_ensures(aborted, (), b) ==> b) ==> r is None,
        r matches Some(b) ==> {
            &&& b.0 == best(score, lo as int, step as int, n as nat).0
            &&& b.0 > 0 ==> b.1 == best(score, lo as int, step as int, n as nat).1
        },
{
    let mut top: usize = 0;
    let mut at: u64 = 0;
    let mut i: u64 = 0;
    let mut x: u64 = lo;
    let mut until: u64 = 0;
    while i < n
        invariant
            i <= n,
            every > 0,
            lo + step * n <= u64::MAX,
            x == lo + step * i,
            i == 0 ==> until == 0,
            i > 0 ==> !(forall|b: bool| call_ensures(aborted, (), b) ==> b),
            call_requires(aborted, ()),
            forall|x: u64| lo <= x <= lo + step * n ==> #[trigger] call_requires(f, (x,)),
            forall|x: u64, v: usize| #[trigger] call_ensures(f, (x,), v) ==> v == score(x as int),
            top == best(score, lo as int, step as int, i as nat).0,
            top > 0 ==> at == best(score, lo as int, step as int, i as nat).1,
        decreases n - i,
    {
        if until == 0 {
            if aborted() {
                return None;
            }
            until = every;
        }
        until = until - 1;
        assert(step * (i + 1) == step * i + step) by (nonlinear_arith);
        assert(step * (i + 1) <= step * n) by (nonlinear_arith)
            requires
                i < n,
        ;
        assert(step * i >= 0) by (nonlinear_arith);
        let v: usize = f(x);
        if v > top {
            top = v;
            at = x;
        }
        x = x + step;
        i = i + 1;
    }
    Some((top, at))
}

/// Every `step`-th entry, `max` of them at most.
pub(crate) fn spread_of(s: &Vec<u64>, step: usize, max: usize) -> (r: Vec<u64>)
    requires
        step > 0,
    ensures
        r@ == spread(s@, step as int, 0, max as nat),
{
    let mut r: Vec<u64> = Vec::new();
    let mut at: usize = 0;
    let mut k: usize = max;
    while k > 0 && at < s.len()
        invariant
            step > 0,
            k <= max,
            spread(s@, step as int, 0, max as nat) == r@ + spread(
                s@,
                step as int,
                at as int,
                k as nat,
            ),
        decreases k,
    {
        let ghost rest = spread(s@, step as int, at + step, (k - 1) as nat);
        let ghost r0 = r@;
        r.push(s[at]);
        k = k - 1;
        assert(r0 + (seq![s@[at as int]] + rest) == r@ + rest);
        if step > s.len() - at {
            assert(rest == Seq::<u64>::empty());
            at = s.len();
            assert(spread(s@, step as int, at as int, k as nat) == Seq::<u64>::empty());
        } else {
            at = at + step;
        }
    }
    assert(r@ + Seq::<u64>::empty() == r@);
    r
}

} // verus!
