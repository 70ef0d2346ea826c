use crate::poll::{PollNext, PollOnce};
use crate::source::{Source, Task};
use core::marker::PhantomData;
use vstd::prelude::*;

verus! {

/// A fold handler over accumulator `A` and item `T`: folds one item into the
/// accumulator, through a mutable reference and synchronously, and answers
/// with a sub-computation of type `U` whose completion signals that the item
/// has been committed.
///
/// The handler's mathematical model is `step`: what one call makes of the
/// accumulator.  A call may update the handler's own state, but never what
/// `step` says.
pub trait FoldHandler<T, A, U: Task<()>>: Sized {
    /// Well-formedness of the handler's private state.
    spec fn inv(&self) -> bool;

    /// The accumulator after folding `item` into `acc`.
    spec fn step(&self, acc: A, item: T) -> A;

    /// Whether every sub-computation this handler answers with is ready at
    /// once (never suspends).
    spec fn ready_subs(&self) -> bool;

    /// Fold `item` into `acc` and answer with the sub-computation that
    /// signals completion.
    fn call(&mut self, acc: &mut A, item: T) -> (sub: U)
        requires
            old(self).inv(),
        ensures
            final(self).inv(),
            *final(acc) == old(self).step(*old(acc), item),
            forall|a: A, t: T| #[trigger] final(self).step(a, t) == old(self).step(a, t),
            sub.inv(),
            !sub.completed(),
            final(self).ready_subs() == old(self).ready_subs(),
            old(self).ready_subs() ==> sub.always_ready(),
    ;
}

/// The strict left-fold of the handler's step over `acc` and `items`.
pub open spec fn fold_mut_all<T, A, U: Task<()>, H: FoldHandler<T, A, U>>(
    h: H,
    acc: A,
    items: Seq<T>,
) -> A
    decreases items.len(),
{
    if items.len() == 0 {
        acc
    } else {
        fold_mut_all(h, h.step(acc, items[0]), items.drop_first())
    }
}

/// Two handlers with the same step fold alike, whatever their private state.
pub proof fn lemma_fold_mut_all_congruent<T, A, U: Task<()>, H: FoldHandler<T, A, U>>(
    h1: H,
    h2: H,
    acc: A,
    items: Seq<T>,
)
    requires
        forall|a: A, t: T| #[trigger] h1.step(a, t) == h2.step(a, t),
    ensures
        fold_mut_all(h1, acc, items) == fold_mut_all(h2, acc, items),
    decreases items.len(),
{
    if items.len() == 0 {
    } else {
        lemma_fold_mut_all_congruent(h1, h2, h1.step(acc, items[0]), items.drop_first());
    }
}

/// The fold invariant: the fold of a sequence is the left-fold of the
/// handler's step over the initial accumulator and the items, applied
/// strictly in order.
pub proof fn lemma_fold_mut_all_is_fold_left<T, A, U: Task<()>, H: FoldHandler<T, A, U>>(
    h: H,
    acc: A,
    items: Seq<T>,
)
    ensures
        fold_mut_all(h, acc, items) == items.fold_left(acc, |a: A, t: T| h.step(a, t)),
    decreases items.len(),
{
    let f = |a: A, t: T| h.step(a, t);
    if items.len() == 0 {
    } else {
        let step0 = h.step(acc, items[0]);
        lemma_fold_mut_all_is_fold_left(h, step0, items.drop_first());
        assert(items.drop_first() =~= items.subrange(1, items.len() as int));
        items.drop_first().lemma_fold_left_alt(step0, f);
        assert(items.fold_left_alt(acc, f) == items.drop_first().fold_left_alt(step0, f));
        items.lemma_fold_left_alt(acc, f);
    }
}

/// Drives a plain sequence to completion, folding every item into a mutable
/// accumulator; the single eventual result is the final accumulator.
///
/// Strictly ordered: a pending sub-computation is polled to completion before
/// the next item is pulled, so each item is fully committed before the next
/// one is consumed, and a suspended sub-computation never loses an upstream
/// item.  The accumulator is handed out exactly once, when the upstream
/// exhausts; polling after that is a usage violation, ruled out by `poll`'s
/// precondition.  The upstream is expected to be fused (to report a definite
/// terminal state); within this crate that holds of every `Source` by
/// construction.
pub struct FoldMut<S, T, A, H, U> {
    src: S,
    acc: Option<A>,
    pending: Option<U>,
    handler: H,
    _item: PhantomData<T>,
}

impl<S, T, A, H, U> FoldMut<S, T, A, H, U> {
    /// Fold the items of `src` into `initial` with `handler`.
    pub fn new(src: S, initial: A, handler: H) -> (r: Self) where
        S: Source<T>,
        U: Task<()>,
        H: FoldHandler<T, A, U>,

        requires
            src.inv(),
            handler.inv(),
        ensures
            r.inv(),
            !r.completed(),
            r.outcome() == fold_mut_all(handler, initial, src.upcoming()),
            r.always_ready() == (src.always_ready() && handler.ready_subs()),
    {
        FoldMut { src, acc: Some(initial), pending: None, handler, _item: PhantomData }
    }
}

impl<T, A, S, H, U> Task<A> for FoldMut<S, T, A, H, U> where
    S: Source<T>,
    U: Task<()>,
    H: FoldHandler<T, A, U>,
 {
    closed spec fn inv(&self) -> bool {
        &&& self.src.inv()
        &&& self.handler.inv()
        &&& (self.pending matches Some(u) ==> u.inv() && !u.completed())
    }

    closed spec fn completed(&self) -> bool {
        self.acc is None
    }

    closed spec fn outcome(&self) -> A {
        fold_mut_all(self.handler, self.acc->0, self.src.upcoming())
    }

    closed spec fn always_ready(&self) -> bool {
        &&& self.src.always_ready()
        &&& self.handler.ready_subs()
        &&& (self.pending matches Some(u) ==> u.always_ready())
    }

    fn poll(&mut self) -> (r: PollOnce<A>) {
        loop
            invariant
                self.inv(),
                self.acc is Some,
                fold_mut_all(self.handler, self.acc->0, self.src.upcoming()) == old(
                    self,
                ).outcome(),
                old(self).always_ready() ==> self.always_ready(),
            decreases self.src.upcoming().len(),
        {
            match self.pending.take() {
                Some(mut sub) => match sub.poll() {
                    PollOnce::Pending => {
                        self.pending = Some(sub);
                        return PollOnce::Pending;
                    },
                    PollOnce::Ready(_committed) => {},
                },
                None => {},
            }
            let ghost pre_src = self.src.upcoming();
            let ghost pre_handler = self.handler;
            let ghost pre_acc = self.acc->0;
            match self.src.poll_next() {
                PollNext::Pending => {
                    return PollOnce::Pending;
                },
                PollNext::Done => {
                    let a = self.acc.take().unwrap();
                    return PollOnce::Ready(a);
                },
                PollNext::Item(v) => {
                    let mut a = self.acc.take().unwrap();
                    let sub = self.handler.call(&mut a, v);
                    self.acc = Some(a);
                    self.pending = Some(sub);
                    proof {
                        assert(fold_mut_all(pre_handler, pre_acc, pre_src) == fold_mut_all(
                            pre_handler,
                            pre_handler.step(pre_acc, v),
                            self.src.upcoming(),
                        ));
                        lemma_fold_mut_all_congruent(
                            pre_handler,
                            self.handler,
                            self.acc->0,
                            self.src.upcoming(),
                        );
                    }
                },
            }
        }
    }
}

/// A fallible fold handler: like [`FoldHandler`], but committing an item can
/// fail.  The model is `step`, what one call makes of the accumulator, and
/// `verdict`, whether the sub-computation will commit the item (`Ok`) or end
/// the whole fold with an error.
pub trait TryFoldHandler<T, A, E, U: Task<Result<(), E>>>: Sized {
    /// Well-formedness of the handler's private state.
    spec fn inv(&self) -> bool;

    /// The accumulator after folding `item` into `acc`.
    spec fn step(&self, acc: A, item: T) -> A;

    /// Whether committing `item` against `acc` succeeds, and with which error
    /// it fails otherwise.
    spec fn verdict(&self, acc: A, item: T) -> Result<(), E>;

    /// Whether every sub-computation this handler answers with is ready at
    /// once (never suspends).
    spec fn ready_subs(&self) -> bool;

    /// Fold `item` into `acc` and answer with the sub-computation that
    /// signals - or refuses - the commit.
    fn call(&mut self, acc: &mut A, item: T) -> (sub: U)
        requires
            old(self).inv(),
        ensures
            final(self).inv(),
            *final(acc) == old(self).step(*old(acc), item),
            forall|a: A, t: T| #[trigger] final(self).step(a, t) == old(self).step(a, t),
            forall|a: A, t: T| #[trigger] final(self).verdict(a, t) == old(self).verdict(a, t),
            sub.inv(),
            !sub.completed(),
            sub.outcome() == old(self).verdict(*old(acc), item),
            final(self).ready_subs() == old(self).ready_subs(),
            old(self).ready_subs() ==> sub.always_ready(),
    ;
}

/// The strict left-fold of a fallible handler over `acc` and the fallible
/// sequence `items`: the first upstream error, or the first refused commit,
/// ends the fold with that error and discards the accumulator; otherwise the
/// fold of the whole sequence.
pub open spec fn try_fold_mut_all<T, A, E, U: Task<Result<(), E>>, H: TryFoldHandler<T, A, E, U>>(
    h: H,
    acc: A,
    items: Seq<Result<T, E>>,
) -> Result<A, E>
    decreases items.len(),
{
    if items.len() == 0 {
        Ok(acc)
    } else {
        match items[0] {
            Err(e) => Err(e),
            Ok(v) => match h.verdict(acc, v) {
                Err(e) => Err(e),
                Ok(committed) => try_fold_mut_all(h, h.step(acc, v), items.drop_first()),
            },
        }
    }
}

/// Two fallible handlers with the same step and verdict fold alike.
pub proof fn lemma_try_fold_mut_all_congruent<
    T,
    A,
    E,
    U: Task<Result<(), E>>,
    H: TryFoldHandler<T, A, E, U>,
>(h1: H, h2: H, acc: A, items: Seq<Result<T, E>>)
    requires
        forall|a: A, t: T| #[trigger] h1.step(a, t) == h2.step(a, t),
        forall|a: A, t: T| #[trigger] h1.verdict(a, t) == h2.verdict(a, t),
    ensures
        try_fold_mut_all(h1, acc, items) == try_fold_mut_all(h2, acc, items),
    decreases items.len(),
{
    if items.len() == 0 {
    } else {
        match items[0] {
            Err(e) => {},
            Ok(v) => {
                lemma_try_fold_mut_all_congruent(
                    h1,
                    h2,
                    h1.step(acc, v),
                    items.drop_first(),
                );
            },
        }
    }
}

/// The fallible fold invariant: on a sequence without upstream errors, and as
/// long as every commit succeeds, the fold's result is `Ok` of the strict
/// left-fold of the handler's step over the initial accumulator and the
/// successes, in order.
pub proof fn lemma_try_fold_mut_all_no_errors<
    T,
    A,
    E,
    U: Task<Result<(), E>>,
    H: TryFoldHandler<T, A, E, U>,
>(h: H, acc: A, items: Seq<Result<T, E>>)
    requires
        forall|i: int| 0 <= i < items.len() ==> items[i] is Ok,
        forall|a: A, t: T| #[trigger] h.verdict(a, t) is Ok,
    ensures
        try_fold_mut_all(h, acc, items) == Ok::<A, E>(
            items.map_values(|it: Result<T, E>| it->Ok_0).fold_left(
                acc,
                |a: A, t: T| h.step(a, t),
            ),
        ),
    decreases items.len(),
{
    let vals = items.map_values(|it: Result<T, E>| it->Ok_0);
    let f = |a: A, t: T| h.step(a, t);
    if items.len() == 0 {
        assert(vals =~= Seq::<T>::empty());
    } else {
        let v = items[0]->Ok_0;
        assert(forall|j: int|
            0 <= j < items.drop_first().len() ==> #[trigger] items.drop_first()[j] == items[j
                + 1]);
        lemma_try_fold_mut_all_no_errors(h, h.step(acc, v), items.drop_first());
        assert(items.drop_first().map_values(|it: Result<T, E>| it->Ok_0) =~= vals.drop_first());
        assert(try_fold_mut_all(h, acc, items) == Ok::<A, E>(
            vals.drop_first().fold_left(f(acc, v), f),
        ));
        assert(vals.drop_first() =~= vals.subrange(1, vals.len() as int));
        assert(vals.fold_left_alt(acc, f) == vals.subrange(1, vals.len() as int).fold_left_alt(
            f(acc, vals[0]),
            f,
        ));
        vals.lemma_fold_left_alt(acc, f);
        vals.subrange(1, vals.len() as int).lemma_fold_left_alt(f(acc, vals[0]), f);
    }
}

/// Drives a fallible sequence to completion, folding every success into a
/// mutable accumulator; the single eventual result is `Ok` of the final
/// accumulator, or the first error - from the upstream or from a refused
/// commit - with the accumulator discarded, never handed out partially
/// folded.
///
/// Strictly ordered as [`FoldMut`]: a pending sub-computation is polled to
/// completion (or to its error) before the next item is pulled.  Polling
/// after the single answer is a usage violation, ruled out by `poll`'s
/// precondition.  The upstream is expected to be fused; within this crate
/// that holds of every `Source` by construction.
pub struct TryFoldMut<S, T, A, H, U> {
    src: S,
    acc: Option<A>,
    pending: Option<U>,
    handler: H,
    _item: PhantomData<T>,
}

impl<S, T, A, H, U> TryFoldMut<S, T, A, H, U> {
    /// Fold the successes of `src` into `initial` with `handler`.
    pub fn new<E>(src: S, initial: A, handler: H) -> (r: Self) where
        S: Source<Result<T, E>>,
        U: Task<Result<(), E>>,
        H: TryFoldHandler<T, A, E, U>,

        requires
            src.inv(),
            handler.inv(),
        ensures
            r.inv(),
            !r.completed(),
            r.outcome() == try_fold_mut_all(handler, initial, src.upcoming()),
            r.always_ready() == (src.always_ready() && handler.ready_subs()),
    {
        TryFoldMut { src, acc: Some(initial), pending: None, handler, _item: PhantomData }
    }
}

/// What a fallible fold will answer: the pending commit's error if it is due
/// to fail, otherwise the fold of the remaining upstream.
spec fn try_fold_eventual<T, A, E, S, H, U>(fold: TryFoldMut<S, T, A, H, U>) -> Result<A, E> where
    S: Source<Result<T, E>>,
    U: Task<Result<(), E>>,
    H: TryFoldHandler<T, A, E, U>,
{
    match fold.pending {
        Some(u) => match u.outcome() {
            Err(e) => Err(e),
            Ok(committed) => try_fold_mut_all(fold.handler, fold.acc->0, fold.src.upcoming()),
        },
        None => try_fold_mut_all(fold.handler, fold.acc->0, fold.src.upcoming()),
    }
}

impl<T, A, E, S, H, U> Task<Result<A, E>> for TryFoldMut<S, T, A, H, U> where
    S: Source<Result<T, E>>,
    U: Task<Result<(), E>>,
    H: TryFoldHandler<T, A, E, U>,
 {
    closed spec fn inv(&self) -> bool {
        &&& self.src.inv()
        &&& self.handler.inv()
        &&& (self.pending matches Some(u) ==> u.inv() && !u.completed())
    }

    closed spec fn completed(&self) -> bool {
        self.acc is None
    }

    closed spec fn outcome(&self) -> Result<A, E> {
        try_fold_eventual(*self)
    }

    closed spec fn always_ready(&self) -> bool {
        &&& self.src.always_ready()
        &&& self.handler.ready_subs()
        &&& (self.pending matches Some(u) ==> u.always_ready())
    }

    fn poll(&mut self) -> (r: PollOnce<Result<A, E>>) {
        loop
            invariant
                self.inv(),
                self.acc is Some,
                try_fold_eventual::<T, A, E, S, H, U>(*self) == old(self).outcome(),
                old(self).always_ready() ==> self.always_ready(),
            decreases self.src.upcoming().len(),
        {
            match self.pending.take() {
                Some(mut sub) => match sub.poll() {
                    PollOnce::Pending => {
                        self.pending = Some(sub);
                        return PollOnce::Pending;
                    },
                    PollOnce::Ready(res) => match res {
                        Ok(_committed) => {},
                        Err(e) => {
                            self.acc = None;
                            return PollOnce::Ready(Err(e));
                        },
                    },
                },
                None => {},
            }
            let ghost pre_src = self.src.upcoming();
            let ghost pre_handler = self.handler;
            let ghost pre_acc = self.acc->0;
            match self.src.poll_next() {
                PollNext::Pending => {
                    return PollOnce::Pending;
                },
                PollNext::Done => {
                    let a = self.acc.take().unwrap();
                    return PollOnce::Ready(Ok(a));
                },
                PollNext::Item(item) => match item {
                    Err(e) => {
                        self.acc = None;
                        return PollOnce::Ready(Err(e));
                    },
                    Ok(v) => {
                        let mut a = self.acc.take().unwrap();
                        let sub = self.handler.call(&mut a, v);
                        self.acc = Some(a);
                        self.pending = Some(sub);
                        proof {
                            lemma_try_fold_mut_all_congruent(
                                pre_handler,
                                self.handler,
                                pre_handler.step(pre_acc, v),
                                self.src.upcoming(),
                            );
                            if pre_handler.verdict(pre_acc, v) is Err {
                                assert(try_fold_eventual::<T, A, E, S, H, U>(*self)
                                    == try_fold_mut_all(pre_handler, pre_acc, pre_src));
                            } else {
                                assert(try_fold_mut_all(pre_handler, pre_acc, pre_src)
                                    == try_fold_mut_all(
                                    pre_handler,
                                    pre_handler.step(pre_acc, v),
                                    self.src.upcoming(),
                                ));
                            }
                        }
                    },
                },
            }
        }
    }
}

} // verus!
