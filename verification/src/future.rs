//! Futures driven by a poll closure, and the merge of two of them.
use std::marker::PhantomData;

use vstd::prelude::*;

verus! {

/// The result of one poll.
#[derive(PartialEq, Eq, Debug)]
pub enum PollState<T> {
    Ready(T),
    Pending,
}

/// A future whose every poll calls `poll_func`: `Some(v)` is readiness with
/// `v`, `None` is pending.
pub struct DynFuture<F, R> {
    poll_func: F,
    result: PhantomData<R>,
}

impl<R, F: Fn() -> Option<R>> DynFuture<F, R> {
    /// The poll closure.
    pub closed spec fn func(&self) -> F {
        self.poll_func
    }

    pub fn new(func: F) -> (r: Self)
        ensures
            r.func() == func,
    {
        DynFuture { poll_func: func, result: PhantomData }
    }

    /// Calls the poll closure once and reports its answer as a poll result.
    pub fn poll(&self) -> (r: PollState<R>)
        requires
            self.func().requires(()),
        ensures
            match r {
                PollState::Ready(v) => self.func().ensures((), Some(v)),
                PollState::Pending => self.func().ensures((), None),
            },
    {
        match (self.poll_func)() {
            Some(v) => PollState::Ready(v),
            None => PollState::Pending,
        }
    }
}

/// One poll of a merge as a step on the values produced so far, given what the
/// first and the second future answer when polled: the new values and the
/// poll's result.  Until the first has produced, it is polled; then, until the
/// second has, the second is; then the pair is ready and both start over.
pub open spec fn merge_step<T, U>(a: Option<T>, b: Option<U>, answer_a: Option<T>, answer_b: Option<
    U,
>) -> (Option<T>, Option<U>, PollState<(T, U)>) {
    match (a, b) {
        (Some(x), Some(y)) => (None, None, PollState::Ready((x, y))),
        (Some(x), None) => (Some(x), answer_b, PollState::Pending),
        (None, _) => (answer_a, b, PollState::Pending),
    }
}

/// A run of `n` polls of a fresh merge whose first future answers its
/// successive polls with `fas` and whose second answers with `fbs` (a future
/// polled past its list answers `None`): the values produced, how often each
/// future was polled, and the result of the last poll.
pub open spec fn merge_run<T, U>(fas: Seq<Option<T>>, fbs: Seq<Option<U>>, n: nat) -> (
    Option<T>,
    Option<U>,
    nat,
    nat,
    PollState<(T, U)>,
)
    decreases n,
{
    if n == 0 {
        (None, None, 0, 0, PollState::Pending)
    } else {
        let prev = merge_run(fas, fbs, (n - 1) as nat);
        let (a, b, ia, ib) = (prev.0, prev.1, prev.2, prev.3);
        let answer_a = if ia < fas.len() {
            fas[ia as int]
        } else {
            None
        };
        let answer_b = if ib < fbs.len() {
            fbs[ib as int]
        } else {
            None
        };
        let step = merge_step(a, b, answer_a, answer_b);
        (
            step.0,
            step.1,
            if a is None {
                ia + 1
            } else {
                ia
            },
            if a is Some && b is None {
                ib + 1
            } else {
                ib
            },
            step.2,
        )
    }
}

/// `k - 1` pending answers and then `v`.
pub open spec fn ready_on<T>(k: nat, v: T) -> Seq<Option<T>> {
    Seq::new((k - 1) as nat, |i: int| None::<T>).push(Some(v))
}

/// Two futures polled one after the other until both are ready.  The values
/// they produced so far are kept in `a` and `b`.
pub struct MergedFuture<FA, FB, T, U> {
    fa: DynFuture<FA, T>,
    fb: DynFuture<FB, U>,
    a: Option<T>,
    b: Option<U>,
}

/// Merges two futures into one that is ready with both of their values.
pub fn merge_futures<T, U, FA: Fn() -> Option<T>, FB: Fn() -> Option<U>>(
    fa: DynFuture<FA, T>,
    fb: DynFuture<FB, U>,
) -> (r: MergedFuture<FA, FB, T, U>)
    ensures
        r.first() == fa,
        r.second() == fb,
        r.first_value() is None,
        r.second_value() is None,
        r.consistent(),
{
    MergedFuture { fa, fb, a: None, b: None }
}

impl<T, U, FA: Fn() -> Option<T>, FB: Fn() -> Option<U>> MergedFuture<FA, FB, T, U> {
    pub closed spec fn first(&self) -> DynFuture<FA, T> {
        self.fa
    }

    pub closed spec fn second(&self) -> DynFuture<FB, U> {
        self.fb
    }

    /// The value the first future produced, once it did.
    pub closed spec fn first_value(&self) -> Option<T> {
        self.a
    }

    /// The value the second future produced, once it did.
    pub closed spec fn second_value(&self) -> Option<U> {
        self.b
    }

    /// Every stored value is one its future can produce.
    pub open spec fn consistent(&self) -> bool {
        &&& (self.first_value() matches Some(x) ==> self.first().func().ensures((), Some(x)))
        &&& (self.second_value() matches Some(y) ==> self.second().func().ensures((), Some(y)))
    }

    /// One poll of the merge.  Until the first future has produced a value,
    /// it is polled; then, until the second has, the second is polled; the poll
    /// after both produced is ready with the pair, and the merge starts over.
    /// Every poll that polls a source is pending.
    pub fn poll(&mut self) -> (r: PollState<(T, U)>)
        requires
            old(self).first().func().requires(()),
            old(self).second().func().requires(()),
            old(self).consistent(),
        ensures
            final(self).first() == old(self).first(),
            final(self).second() == old(self).second(),
            final(self).consistent(),
            (final(self).first_value(), final(self).second_value(), r) == merge_step(
                old(self).first_value(),
                old(self).second_value(),
                final(self).first_value(),
                final(self).second_value(),
            ),
            match (old(self).first_value(), old(self).second_value()) {
                (Some(x), Some(y)) => {
                    &&& r == PollState::Ready((x, y))
                    &&& final(self).first_value() is None
                    &&& final(self).second_value() is None
                },
                (Some(x), None) => {
                    &&& r == PollState::<(T, U)>::Pending
                    &&& final(self).first_value() == Some(x)
                    &&& old(self).second().func().ensures((), final(self).second_value())
                },
                (None, _) => {
                    &&& r == PollState::<(T, U)>::Pending
                    &&& old(self).first().func().ensures((), final(self).first_value())
                    &&& final(self).second_value() == old(self).second_value()
                },
            },
            r matches PollState::Ready((x, y)) ==> {
                &&& old(self).first().func().ensures((), Some(x))
                &&& old(self).second().func().ensures((), Some(y))
            },
    {
        if self.a.is_some() {
            if self.b.is_some() {
                let x = self.a.take().unwrap();
                let y = self.b.take().unwrap();
                PollState::Ready((x, y))
            } else {
                self.b = (self.fb.poll_func)();
                PollState::Pending
            }
        } else {
            self.a = (self.fa.poll_func)();
            PollState::Pending
        }
    }
}

/// When the first future is ready on its `k`-th poll with `x` and the second
/// on its `j`-th with `y`, a fresh merge polls the first `k` times, then the
/// second `j` times, is pending on each of these `k + j` polls, and is ready
/// with `(x, y)` on the next one.
pub proof fn lemma_merge_ready_after<T, U>(k: nat, x: T, j: nat, y: U)
    requires
        k >= 1,
        j >= 1,
    ensures
        forall|n: nat| 1 <= n <= k + j ==> (#[trigger] merge_run(ready_on(k, x), ready_on(j, y), n)).4
            == PollState::<(T, U)>::Pending,
        forall|n: nat| n <= k ==> (#[trigger] merge_run(ready_on(k, x), ready_on(j, y), n)).3 == 0,
        forall|n: nat|
            k <= n <= k + j + 1 ==> (#[trigger] merge_run(ready_on(k, x), ready_on(j, y), n)).2 == k,
        merge_run(ready_on(k, x), ready_on(j, y), k + j + 1).4 == PollState::Ready((x, y)),
{
    assert forall|n: nat| 1 <= n <= k + j implies (#[trigger] merge_run(
        ready_on(k, x),
        ready_on(j, y),
        n,
    )).4 == PollState::<(T, U)>::Pending by {
        lemma_merge_run_prefix(k, x, j, y, n);
    }
    assert forall|n: nat| n <= k implies (#[trigger] merge_run(ready_on(k, x), ready_on(j, y), n)).3
        == 0 by {
        lemma_merge_run_prefix(k, x, j, y, n);
    }
    lemma_merge_run_prefix(k, x, j, y, k + j);
    assert forall|n: nat| k <= n <= k + j + 1 implies (#[trigger] merge_run(
        ready_on(k, x),
        ready_on(j, y),
        n,
    )).2 == k by {
        if n <= k + j {
            lemma_merge_run_prefix(k, x, j, y, n);
        }
    }
}

/// The state of a merge of `ready_on(k, x)` and `ready_on(j, y)` after `n <= k + j`
/// polls.
proof fn lemma_merge_run_prefix<T, U>(k: nat, x: T, j: nat, y: U, n: nat)
    requires
        k >= 1,
        j >= 1,
        n <= k + j,
    ensures
        merge_run(ready_on(k, x), ready_on(j, y), n).0 == (if n >= k {
            Some(x)
        } else {
            None
        }),
        merge_run(ready_on(k, x), ready_on(j, y), n).1 == (if n == k + j {
            Some(y)
        } else {
            None
        }),
        merge_run(ready_on(k, x), ready_on(j, y), n).2 == (if n >= k {
            k
        } else {
            n
        }),
        merge_run(ready_on(k, x), ready_on(j, y), n).3 == (if n >= k {
            (n - k) as nat
        } else {
            0
        }),
        n >= 1 ==> merge_run(ready_on(k, x), ready_on(j, y), n).4 == PollState::<(T, U)>::Pending,
    decreases n,
{
    let fas = ready_on(k, x);
    let fbs = ready_on(j, y);
    if n > 0 {
        lemma_merge_run_prefix(k, x, j, y, (n - 1) as nat);
        let prev = merge_run(fas, fbs, (n - 1) as nat);
        if n - 1 < k {
            assert(fas[(n - 1) as int] == (if n == k {
                Some(x)
            } else {
                None
            }));
        } else {
            assert(fbs[(n - 1 - k) as int] == (if n == k + j {
                Some(y)
            } else {
                None
            }));
        }
    }
}

} // verus!
