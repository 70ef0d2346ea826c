use crate::poll::PollNext;
use crate::source::{FusedSource, Source};
use vstd::prelude::*;

verus! {

/// The prefix of `s` up to and including its first error.  Everything after
/// the first error is cut off; a sequence without errors is kept whole.
pub open spec fn until_first_err<O, E>(s: Seq<Result<O, E>>) -> Seq<Result<O, E>>
    decreases s.len(),
{
    if s.len() == 0 {
        Seq::empty()
    } else if s[0] is Err {
        seq![s[0]]
    } else {
        seq![s[0]] + until_first_err(s.drop_first())
    }
}

/// What is cut is never longer than what it was cut from.
pub proof fn lemma_until_first_err_len<O, E>(s: Seq<Result<O, E>>)
    ensures
        until_first_err(s).len() <= s.len(),
    decreases s.len(),
{
    if s.len() == 0 {
    } else if s[0] is Err {
    } else {
        lemma_until_first_err_len::<O, E>(s.drop_first());
    }
}

/// On a sequence without errors, cutting at the first error changes nothing:
/// composed over such an upstream, the adapter is a plain pass-through.
pub proof fn lemma_until_first_err_no_errors<O, E>(s: Seq<Result<O, E>>)
    requires
        forall|i: int| 0 <= i < s.len() ==> s[i] is Ok,
    ensures
        until_first_err(s) == s,
    decreases s.len(),
{
    if s.len() == 0 {
        assert(until_first_err(s) =~= s);
    } else {
        assert(forall|i: int|
            0 <= i < s.drop_first().len() ==> #[trigger] s.drop_first()[i] == s[i + 1]);
        lemma_until_first_err_no_errors::<O, E>(s.drop_first());
        assert(until_first_err(s) =~= s);
    }
}

/// Only the last emitted item of a fused sequence can be an error: everything
/// past the first error is cut off, so a second error is never observed.
pub proof fn lemma_fuse_error_is_terminal<O, E>(s: Seq<Result<O, E>>)
    ensures
        forall|i: int| 0 <= i < until_first_err(s).len() - 1 ==> until_first_err(s)[i] is Ok,
    decreases s.len(),
{
    if s.len() == 0 {
    } else if s[0] is Err {
    } else {
        lemma_fuse_error_is_terminal::<O, E>(s.drop_first());
        let rest = until_first_err(s.drop_first());
        let out = until_first_err(s);
        assert(out == seq![s[0]] + rest);
        assert forall|i: int| 0 <= i < out.len() - 1 implies out[i] is Ok by {
            if i > 0 {
                assert(out[i] == rest[i - 1]);
            }
        }
    }
}

/// What the adapter emits is a prefix of what its upstream would have
/// emitted: items pass through in order, none invented, none reordered.
pub proof fn lemma_fuse_emits_a_prefix<O, E>(s: Seq<Result<O, E>>)
    ensures
        until_first_err(s) == s.take(until_first_err(s).len() as int),
    decreases s.len(),
{
    let out = until_first_err(s);
    if s.len() == 0 {
        assert(out =~= s.take(out.len() as int));
    } else if s[0] is Err {
        assert(out =~= s.take(1));
    } else {
        lemma_fuse_emits_a_prefix::<O, E>(s.drop_first());
        lemma_until_first_err_len::<O, E>(s.drop_first());
        let rest = until_first_err(s.drop_first());
        assert(out == seq![s[0]] + rest);
        assert forall|i: int| 0 <= i < out.len() implies out[i] == s.take(out.len() as int)[i] by {
            if i > 0 {
                assert(0 <= i - 1 < rest.len());
                assert(out[i] == rest[i - 1]);
                assert(rest[i - 1] == s.drop_first().take(rest.len() as int)[i - 1]);
                assert(i - 1 < s.drop_first().len());
                assert(s.drop_first()[i - 1] == s[i]);
            }
        }
        assert(out =~= s.take(out.len() as int));
    }
}

/// For an upstream that yields `a`, `b`, an error `e` and then `c`, the fused
/// sequence is exactly `a`, `b`, the error - and `c` is never observed.
pub proof fn lemma_fuse_cuts_after_first_err<O, E>(a: O, b: O, e: E, c: O)
    ensures
        until_first_err(seq![Ok::<O, E>(a), Ok(b), Err(e), Ok(c)])
            == seq![Ok::<O, E>(a), Ok(b), Err(e)],
{
    let s = seq![Ok::<O, E>(a), Ok(b), Err(e), Ok(c)];
    let s1 = seq![Ok::<O, E>(b), Err(e), Ok(c)];
    let s2 = seq![Err::<O, E>(e), Ok(c)];
    assert(s.drop_first() =~= s1);
    assert(s1.drop_first() =~= s2);
    assert(until_first_err(s2) == seq![Err::<O, E>(e)]);
    assert(until_first_err(s1) == seq![Ok::<O, E>(b)] + until_first_err(s2));
    assert(until_first_err(s) == seq![Ok::<O, E>(a)] + until_first_err(s1));
    assert(until_first_err(s) =~= seq![Ok::<O, E>(a), Ok(b), Err(e)]);
}

/// Converts a fallible sequence into one that terminates permanently after
/// its first error.
///
/// While running, successes pass through untouched.  The first error is still
/// forwarded on the pull that meets it, but it flips the adapter into its
/// terminal state: every later pull answers `Done` without touching the
/// upstream again, so a consumer may keep pulling safely after an error even
/// when the upstream itself must not be pulled once exhausted.  The adapter
/// answers the terminal-state query regardless of whether its upstream
/// supports one.
pub struct FuseOnFail<S> {
    src: S,
    terminated: bool,
}

impl<S> FuseOnFail<S> {
    /// Wrap `src`; the adapter starts in its running state.
    pub fn new<O, E>(src: S) -> (r: Self) where S: Source<Result<O, E>>
        requires
            src.inv(),
        ensures
            r.inv(),
            !r.finished(),
            r.upcoming() == until_first_err(src.upcoming()),
            r.always_ready() == src.always_ready(),
            r.hint() == src.hint(),
    {
        FuseOnFail { src, terminated: false }
    }
}

impl<O, E, S: Source<Result<O, E>>> Source<Result<O, E>> for FuseOnFail<S> {
    closed spec fn inv(&self) -> bool {
        self.src.inv()
    }

    closed spec fn upcoming(&self) -> Seq<Result<O, E>> {
        if self.terminated {
            Seq::empty()
        } else {
            until_first_err(self.src.upcoming())
        }
    }

    closed spec fn always_ready(&self) -> bool {
        self.src.always_ready()
    }

    closed spec fn hint(&self) -> (usize, Option<usize>) {
        self.src.hint()
    }

    fn poll_next(&mut self) -> (r: PollNext<Result<O, E>>)
        ensures
            old(self).finished() ==> r is Done && *final(self) == *old(self),
            r is Done ==> final(self).finished(),
            (r matches PollNext::Item(v) && v is Err) ==> final(self).finished(),
    {
        if self.terminated {
            return PollNext::Done;
        }
        match self.src.poll_next() {
            PollNext::Pending => PollNext::Pending,
            PollNext::Done => {
                self.terminated = true;
                PollNext::Done
            },
            PollNext::Item(item) => match item {
                Ok(v) => {
                    proof {
                        assert(old(self).src.upcoming().drop_first()
                            =~= self.src.upcoming());
                        assert(until_first_err(old(self).src.upcoming()).drop_first()
                            =~= until_first_err(self.src.upcoming()));
                    }
                    PollNext::Item(Ok(v))
                },
                Err(e) => {
                    self.terminated = true;
                    proof {
                        assert(until_first_err(old(self).src.upcoming())
                            =~= seq![old(self).src.upcoming()[0]]);
                    }
                    PollNext::Item(Err(e))
                },
            },
        }
    }

    fn size_hint(&self) -> (r: (usize, Option<usize>)) {
        proof {
            lemma_until_first_err_len::<O, E>(self.src.upcoming());
        }
        self.src.size_hint()
    }
}

impl<O, E, S: Source<Result<O, E>>> FusedSource<Result<O, E>> for FuseOnFail<S> {
    closed spec fn finished(&self) -> bool {
        self.terminated
    }

    fn is_terminated(&self) -> (r: bool) {
        self.terminated
    }
}

} // verus!
