use crate::dedup::{
    fingerprint_deterministic, fingerprint_total, first_occurrences, DedupStream,
};
use crate::fold_mut::{
    fold_mut_all, try_fold_mut_all, FoldHandler, FoldMut, TryFoldHandler, TryFoldMut,
};
use crate::fuse_on_fail::{until_first_err, FuseOnFail};
use crate::nth::{nth_of, try_nth_of, StreamNth, TryStreamNth};
use crate::source::{FusedSource, Source, Task};
use crate::try_dedup::{try_first_occurrences, TryDedupStream};
use crate::try_filter_map_ok::{
    filter_map_ok, transform_deterministic, transform_total, TryFilterMapOk,
};
use vstd::prelude::*;

verus! {

/// Chainable adapters over any plain sequence.  Implemented for every
/// [`Source`] by a blanket impl; each method just wraps the sequence in the
/// named adapter.
pub trait JStreamExt<T>: Source<T> {
    /// Deduplicate: emit only the first occurrence of each item, compared by
    /// `fingerprint`.
    fn dedup<F: Fn(&T) -> u64>(self, fingerprint: F) -> (r: DedupStream<Self, F>)
        requires
            self.inv(),
            fingerprint_deterministic(fingerprint),
            fingerprint_total(fingerprint),
        ensures
            r.inv(),
            r.upcoming() == first_occurrences(self.upcoming(), Set::<u64>::empty(), fingerprint),
            r.always_ready() == self.always_ready(),
            r.hint() == self.hint(),
    ;

    /// Fold every item into a mutable accumulator; the future of the final
    /// accumulator.
    fn fold_mut<A, H, U>(self, initial: A, handler: H) -> (r: FoldMut<Self, T, A, H, U>) where
        U: Task<()>,
        H: FoldHandler<T, A, U>,

        requires
            self.inv(),
            handler.inv(),
        ensures
            r.inv(),
            !r.completed(),
            r.outcome() == fold_mut_all(handler, initial, self.upcoming()),
            r.always_ready() == (self.always_ready() && handler.ready_subs()),
    ;

    /// The future of the first item, or `None` on an empty sequence.
    fn first(self) -> (r: StreamNth<Self>)
        requires
            self.inv(),
        ensures
            r.inv(),
            !r.completed(),
            r.outcome() == nth_of(self.upcoming(), 0),
            r.always_ready() == self.always_ready(),
    ;

    /// The future of the item at zero-based offset `index`, or `None` when
    /// the sequence is too short.
    fn nth(self, index: usize) -> (r: StreamNth<Self>)
        requires
            self.inv(),
        ensures
            r.inv(),
            !r.completed(),
            r.outcome() == nth_of(self.upcoming(), index as nat),
            r.always_ready() == self.always_ready(),
    ;
}

impl<T, S: Source<T>> JStreamExt<T> for S {
    fn dedup<F: Fn(&T) -> u64>(self, fingerprint: F) -> (r: DedupStream<Self, F>) {
        DedupStream::new(self, fingerprint)
    }

    fn fold_mut<A, H, U>(self, initial: A, handler: H) -> (r: FoldMut<Self, T, A, H, U>) where
        U: Task<()>,
        H: FoldHandler<T, A, U>,
    {
        FoldMut::new(self, initial, handler)
    }

    fn first(self) -> (r: StreamNth<Self>) {
        StreamNth::first(self)
    }

    fn nth(self, index: usize) -> (r: StreamNth<Self>) {
        StreamNth::new(self, index)
    }
}

/// Chainable adapters over any fallible sequence: a [`Source`] whose items
/// are results.  Implemented for every such source by a blanket impl; each
/// method just wraps the sequence in the named adapter.
pub trait JTryStreamExt<O, E>: Source<Result<O, E>> {
    /// The future of the first result: `Ok(Some(value))`, the first error, or
    /// `Ok(None)` on an empty sequence.
    fn try_first(self) -> (r: TryStreamNth<Self>)
        requires
            self.inv(),
        ensures
            r.inv(),
            !r.completed(),
            r.outcome() == try_nth_of(self.upcoming(), 0),
            r.always_ready() == self.always_ready(),
    ;

    /// The future of the success at zero-based offset `n`; an error met while
    /// skipping is returned immediately.
    fn try_nth(self, n: usize) -> (r: TryStreamNth<Self>)
        requires
            self.inv(),
        ensures
            r.inv(),
            !r.completed(),
            r.outcome() == try_nth_of(self.upcoming(), n as nat),
            r.always_ready() == self.always_ready(),
    ;

    /// Transform or drop successes with `predicate`; errors pass through
    /// untouched.
    fn try_filter_map_ok<R, F: Fn(O) -> Option<R>>(self, predicate: F) -> (r: TryFilterMapOk<
        Self,
        F,
        O,
    >)
        requires
            self.inv(),
            transform_deterministic(predicate),
            transform_total(predicate),
        ensures
            r.inv(),
            r.upcoming() == filter_map_ok(self.upcoming(), predicate),
            r.always_ready() == self.always_ready(),
            r.hint() == self.hint(),
    ;

    /// Deduplicate successes, compared by `fingerprint`; errors are forwarded
    /// immediately and never counted as seen.
    fn try_dedup<F: Fn(&O) -> u64>(self, fingerprint: F) -> (r: TryDedupStream<Self, F>)
        requires
            self.inv(),
            fingerprint_deterministic(fingerprint),
            fingerprint_total(fingerprint),
        ensures
            r.inv(),
            r.upcoming() == try_first_occurrences(
                self.upcoming(),
                Set::<u64>::empty(),
                fingerprint,
            ),
            r.always_ready() == self.always_ready(),
            r.hint() == self.hint(),
    ;

    /// Terminate permanently after the first error (which is still emitted),
    /// and support the terminal-state query whether or not the upstream does.
    fn fuse_on_fail(self) -> (r: FuseOnFail<Self>)
        requires
            self.inv(),
        ensures
            r.inv(),
            !r.finished(),
            r.upcoming() == until_first_err(self.upcoming()),
            r.always_ready() == self.always_ready(),
            r.hint() == self.hint(),
    ;

    /// Fold every success into a mutable accumulator; the future of `Ok` of
    /// the final accumulator, or of the first error.
    fn try_fold_mut<A, H, U>(self, initial: A, handler: H) -> (r: TryFoldMut<Self, O, A, H, U>)
        where U: Task<Result<(), E>>, H: TryFoldHandler<O, A, E, U>

        requires
            self.inv(),
            handler.inv(),
        ensures
            r.inv(),
            !r.completed(),
            r.outcome() == try_fold_mut_all(handler, initial, self.upcoming()),
            r.always_ready() == (self.always_ready() && handler.ready_subs()),
    ;
}

impl<O, E, S: Source<Result<O, E>>> JTryStreamExt<O, E> for S {
    fn try_first(self) -> (r: TryStreamNth<Self>) {
        TryStreamNth::first(self)
    }

    fn try_nth(self, n: usize) -> (r: TryStreamNth<Self>) {
        TryStreamNth::new(self, n)
    }

    fn try_filter_map_ok<R, F: Fn(O) -> Option<R>>(self, predicate: F) -> (r: TryFilterMapOk<
        Self,
        F,
        O,
    >) {
        TryFilterMapOk::new(self, predicate)
    }

    fn try_dedup<F: Fn(&O) -> u64>(self, fingerprint: F) -> (r: TryDedupStream<Self, F>) {
        TryDedupStream::new(self, fingerprint)
    }

    fn fuse_on_fail(self) -> (r: FuseOnFail<Self>) {
        FuseOnFail::new(self)
    }

    fn try_fold_mut<A, H, U>(self, initial: A, handler: H) -> (r: TryFoldMut<Self, O, A, H, U>)
        where U: Task<Result<(), E>>, H: TryFoldHandler<O, A, E, U>
    {
        TryFoldMut::new(self, initial, handler)
    }
}

} // verus!
