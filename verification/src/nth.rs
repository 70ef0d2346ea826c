use crate::poll::{PollNext, PollOnce};
use crate::source::{Source, Task};
use vstd::prelude::*;

verus! {

/// The result of extracting the item at zero-based offset `k` from the plain
/// sequence `s`: its item at `k`, or `None` when the sequence is too short.
pub open spec fn nth_of<T>(s: Seq<T>, k: nat) -> Option<T> {
    if k < s.len() {
        Some(s[k as int])
    } else {
        None
    }
}

/// The result of extracting the success at zero-based offset `k` from the
/// fallible sequence `s`: the first error met while skipping ends the
/// extraction immediately; otherwise the success at offset `k`, or `Ok(None)`
/// when the sequence exhausts first.
pub open spec fn try_nth_of<O, E>(s: Seq<Result<O, E>>, k: nat) -> Result<Option<O>, E>
    decreases s.len(),
{
    if s.len() == 0 {
        Ok(None)
    } else {
        match s[0] {
            Err(e) => Err(e),
            Ok(v) => if k == 0 {
                Ok(Some(v))
            } else {
                try_nth_of(s.drop_first(), (k - 1) as nat)
            },
        }
    }
}

/// An error at or before the requested offset short-circuits: the first error
/// of the sequence is the extraction's result whenever it comes no later than
/// the offset, and the extractor never waits to reach the offset.
pub proof fn lemma_try_nth_short_circuits<O, E>(s: Seq<Result<O, E>>, k: nat, i: int)
    requires
        0 <= i < s.len(),
        i <= k,
        s[i] is Err,
        forall|j: int| 0 <= j < i ==> s[j] is Ok,
    ensures
        try_nth_of(s, k) == Err::<Option<O>, E>(s[i]->Err_0),
    decreases i,
{
    if i == 0 {
    } else {
        assert(forall|j: int|
            0 <= j < i - 1 ==> #[trigger] s.drop_first()[j] == s[j + 1]);
        lemma_try_nth_short_circuits(s.drop_first(), (k - 1) as nat, i - 1);
    }
}

/// On an error-free sequence the fallible extraction agrees with the plain
/// one: the success at offset `k`, or `Ok(None)` when the sequence is too
/// short.
pub proof fn lemma_try_nth_no_errors<O, E>(s: Seq<Result<O, E>>, k: nat)
    requires
        forall|j: int| 0 <= j < s.len() ==> s[j] is Ok,
    ensures
        try_nth_of(s, k) == if k < s.len() {
            Ok::<Option<O>, E>(Some(s[k as int]->Ok_0))
        } else {
            Ok::<Option<O>, E>(None)
        },
    decreases s.len(),
{
    if s.len() == 0 {
    } else if k == 0 {
    } else {
        assert(forall|j: int|
            0 <= j < s.drop_first().len() ==> #[trigger] s.drop_first()[j] == s[j + 1]);
        lemma_try_nth_no_errors(s.drop_first(), (k - 1) as nat);
    }
}

/// Reduces a plain sequence to a single future: the item at a fixed zero-based
/// offset, or `None` when the upstream exhausts first.
///
/// Each pull keeps pulling the upstream, counting skipped items down from the
/// offset; the item reached at count zero resolves the future.  Once
/// resolved, pulling again is a usage violation, ruled out by `poll`'s
/// precondition.
pub struct StreamNth<S> {
    src: S,
    completed: bool,
    remaining: usize,
}

impl<S> StreamNth<S> {
    /// The future of the item of `src` at zero-based offset `remaining`.
    pub fn new<T>(src: S, remaining: usize) -> (r: Self) where S: Source<T>
        requires
            src.inv(),
        ensures
            r.inv(),
            !r.completed(),
            r.outcome() == nth_of(src.upcoming(), remaining as nat),
            r.always_ready() == src.always_ready(),
    {
        StreamNth { src, completed: false, remaining }
    }

    /// The future of the first item of `src`: extraction at offset zero.
    pub fn first<T>(src: S) -> (r: Self) where S: Source<T>
        requires
            src.inv(),
        ensures
            r.inv(),
            !r.completed(),
            r.outcome() == nth_of(src.upcoming(), 0),
            r.always_ready() == src.always_ready(),
    {
        Self::new(src, 0)
    }
}

impl<T, S: Source<T>> Task<Option<T>> for StreamNth<S> {
    closed spec fn inv(&self) -> bool {
        self.src.inv()
    }

    closed spec fn completed(&self) -> bool {
        self.completed
    }

    closed spec fn outcome(&self) -> Option<T> {
        nth_of(self.src.upcoming(), self.remaining as nat)
    }

    closed spec fn always_ready(&self) -> bool {
        self.src.always_ready()
    }

    fn poll(&mut self) -> (r: PollOnce<Option<T>>) {
        loop
            invariant
                self.inv(),
                !self.completed,
                nth_of(self.src.upcoming(), self.remaining as nat) == old(self).outcome(),
                old(self).always_ready() ==> self.always_ready(),
            decreases self.src.upcoming().len(),
        {
            match self.src.poll_next() {
                PollNext::Pending => {
                    return PollOnce::Pending;
                },
                PollNext::Done => {
                    self.completed = true;
                    return PollOnce::Ready(None);
                },
                PollNext::Item(v) => {
                    if self.remaining == 0 {
                        self.completed = true;
                        return PollOnce::Ready(Some(v));
                    }
                    self.remaining = self.remaining - 1;
                },
            }
        }
    }
}

/// Reduces a fallible sequence to a single future: the success at a fixed
/// zero-based offset, `Ok(None)` when the upstream exhausts first, or the
/// first error met while skipping - returned immediately, the skip abandoned.
///
/// Once resolved, pulling again is a usage violation, ruled out by `poll`'s
/// precondition.
pub struct TryStreamNth<S> {
    src: S,
    completed: bool,
    remaining: usize,
}

impl<S> TryStreamNth<S> {
    /// The future of the success of `src` at zero-based offset `remaining`.
    pub fn new<O, E>(src: S, remaining: usize) -> (r: Self) where S: Source<Result<O, E>>
        requires
            src.inv(),
        ensures
            r.inv(),
            !r.completed(),
            r.outcome() == try_nth_of(src.upcoming(), remaining as nat),
            r.always_ready() == src.always_ready(),
    {
        TryStreamNth { src, completed: false, remaining }
    }

    /// The future of the first result of `src`: extraction at offset zero.
    pub fn first<O, E>(src: S) -> (r: Self) where S: Source<Result<O, E>>
        requires
            src.inv(),
        ensures
            r.inv(),
            !r.completed(),
            r.outcome() == try_nth_of(src.upcoming(), 0),
            r.always_ready() == src.always_ready(),
    {
        Self::new(src, 0)
    }
}

impl<O, E, S: Source<Result<O, E>>> Task<Result<Option<O>, E>> for TryStreamNth<S> {
    closed spec fn inv(&self) -> bool {
        self.src.inv()
    }

    closed spec fn completed(&self) -> bool {
        self.completed
    }

    closed spec fn outcome(&self) -> Result<Option<O>, E> {
        try_nth_of(self.src.upcoming(), self.remaining as nat)
    }

    closed spec fn always_ready(&self) -> bool {
        self.src.always_ready()
    }

    fn poll(&mut self) -> (r: PollOnce<Result<Option<O>, E>>) {
        loop
            invariant
                self.inv(),
                !self.completed,
                try_nth_of(self.src.upcoming(), self.remaining as nat) == old(self).outcome(),
                old(self).always_ready() ==> self.always_ready(),
            decreases self.src.upcoming().len(),
        {
            match self.src.poll_next() {
                PollNext::Pending => {
                    return PollOnce::Pending;
                },
                PollNext::Done => {
                    self.completed = true;
                    return PollOnce::Ready(Ok(None));
                },
                PollNext::Item(item) => match item {
                    Err(e) => {
                        self.completed = true;
                        return PollOnce::Ready(Err(e));
                    },
                    Ok(v) => {
                        if self.remaining == 0 {
                            self.completed = true;
                            return PollOnce::Ready(Ok(Some(v)));
                        }
                        self.remaining = self.remaining - 1;
                    },
                },
            }
        }
    }
}

} // verus!
