use crate::poll::PollNext;
use crate::source::{FusedSource, Source};
use core::marker::PhantomData;
use vstd::prelude::*;

verus! {

/// The transform answers the same on every call with the same input.
pub open spec fn transform_deterministic<O, R, F: Fn(O) -> Option<R>>(f: F) -> bool {
    forall|v: O, r1: Option<R>, r2: Option<R>|
        #[trigger] call_ensures(f, (v,), r1) && #[trigger] call_ensures(f, (v,), r2)
            ==> r1 == r2
}

/// The transform accepts every input.
pub open spec fn transform_total<O, R, F: Fn(O) -> Option<R>>(f: F) -> bool {
    forall|v: O| #[trigger] call_requires(f, (v,))
}

/// The answer of the transform on `v`: `Some(replacement)` to keep the item,
/// `None` to drop it.
pub open spec fn transform_of<O, R, F: Fn(O) -> Option<R>>(f: F, v: O) -> Option<R> {
    choose|r: Option<R>| call_ensures(f, (v,), r)
}

/// `s` with every success put through the transform - replaced where it
/// answers `Some`, dropped where it answers `None` - and every error kept
/// verbatim, in place.
pub open spec fn filter_map_ok<O, E, R, F: Fn(O) -> Option<R>>(
    s: Seq<Result<O, E>>,
    f: F,
) -> Seq<Result<R, E>>
    decreases s.len(),
{
    if s.len() == 0 {
        Seq::empty()
    } else {
        let rest = filter_map_ok(s.drop_first(), f);
        match s[0] {
            Err(e) => seq![Err(e)] + rest,
            Ok(v) => match transform_of(f, v) {
                Some(r) => seq![Ok(r)] + rest,
                None => rest,
            },
        }
    }
}

/// The transformed sequence is never longer than its upstream.
pub proof fn lemma_filter_map_ok_len<O, E, R, F: Fn(O) -> Option<R>>(s: Seq<Result<O, E>>, f: F)
    ensures
        filter_map_ok(s, f).len() <= s.len(),
    decreases s.len(),
{
    if s.len() == 0 {
    } else {
        lemma_filter_map_ok_len(s.drop_first(), f);
    }
}

/// The errors of a fallible sequence, in emission order.
pub open spec fn errors_of<O, E>(s: Seq<Result<O, E>>) -> Seq<E>
    decreases s.len(),
{
    if s.len() == 0 {
        Seq::empty()
    } else {
        match s[0] {
            Err(e) => seq![e] + errors_of(s.drop_first()),
            Ok(_) => errors_of(s.drop_first()),
        }
    }
}

/// Errors bypass the transform entirely: whatever the transform keeps or
/// drops, the transformed sequence carries exactly the upstream's errors,
/// in the upstream's order.
pub proof fn lemma_filter_map_ok_keeps_errors<O, E, R, F: Fn(O) -> Option<R>>(
    s: Seq<Result<O, E>>,
    f: F,
)
    ensures
        errors_of(filter_map_ok(s, f)) == errors_of(s),
    decreases s.len(),
{
    if s.len() == 0 {
        assert(errors_of(filter_map_ok(s, f)) =~= errors_of(s));
    } else {
        lemma_filter_map_ok_keeps_errors(s.drop_first(), f);
        let rest = filter_map_ok(s.drop_first(), f);
        match s[0] {
            Err(e) => {
                assert((seq![Err::<R, E>(e)] + rest).drop_first() =~= rest);
                assert(errors_of(filter_map_ok(s, f)) =~= errors_of(s));
            },
            Ok(v) => match transform_of(f, v) {
                Some(r) => {
                    assert((seq![Ok::<R, E>(r)] + rest).drop_first() =~= rest);
                    assert(errors_of(filter_map_ok(s, f)) =~= errors_of(s));
                },
                None => {
                    assert(errors_of(filter_map_ok(s, f)) =~= errors_of(s));
                },
            },
        }
    }
}

/// Transforms or drops the successes of a fallible sequence, forwarding
/// errors untouched.
///
/// Each pull keeps pulling the upstream while the transform drops items; the
/// first kept (and transformed) success, the first error, or the upstream's
/// end is answered immediately.  The transform is never invoked on an error.
pub struct TryFilterMapOk<S, F, O> {
    src: S,
    predicate: F,
    _ot: PhantomData<O>,
}

impl<S, F, O> TryFilterMapOk<S, F, O> {
    /// Wrap `src`; `predicate` decides for every success whether it is kept,
    /// and with what replacement.
    pub fn new<E, R>(src: S, predicate: F) -> (r: Self) where
        S: Source<Result<O, E>>,
        F: Fn(O) -> Option<R>,

        requires
            src.inv(),
            transform_deterministic(predicate),
            transform_total(predicate),
        ensures
            r.inv(),
            r.upcoming() == filter_map_ok(src.upcoming(), predicate),
            r.always_ready() == src.always_ready(),
            r.hint() == src.hint(),
    {
        TryFilterMapOk { src, predicate, _ot: PhantomData }
    }
}

impl<O, E, R, S, F> Source<Result<R, E>> for TryFilterMapOk<S, F, O> where
    S: Source<Result<O, E>>,
    F: Fn(O) -> Option<R>,
 {
    closed spec fn inv(&self) -> bool {
        self.src.inv() && transform_deterministic(self.predicate) && transform_total(
            self.predicate,
        )
    }

    closed spec fn upcoming(&self) -> Seq<Result<R, E>> {
        filter_map_ok(self.src.upcoming(), self.predicate)
    }

    closed spec fn always_ready(&self) -> bool {
        self.src.always_ready()
    }

    closed spec fn hint(&self) -> (usize, Option<usize>) {
        self.src.hint()
    }

    fn poll_next(&mut self) -> (r: PollNext<Result<R, E>>) {
        loop
            invariant
                self.inv(),
                self.predicate == old(self).predicate,
                filter_map_ok(self.src.upcoming(), self.predicate) == old(self).upcoming(),
                old(self).always_ready() ==> self.always_ready(),
            decreases self.src.upcoming().len(),
        {
            let ghost pre = self.src.upcoming();
            match self.src.poll_next() {
                PollNext::Pending => {
                    return PollNext::Pending;
                },
                PollNext::Done => {
                    return PollNext::Done;
                },
                PollNext::Item(item) => match item {
                    Err(e) => {
                        proof {
                            let rest = filter_map_ok(self.src.upcoming(), self.predicate);
                            assert(old(self).upcoming() == seq![Err::<R, E>(e)] + rest);
                            assert(old(self).upcoming()[0] == Err::<R, E>(e));
                            assert(old(self).upcoming().drop_first() =~= rest);
                        }
                        return PollNext::Item(Err(e));
                    },
                    Ok(v) => {
                        let out = (self.predicate)(v);
                        proof {
                            assert(transform_of(self.predicate, v) == out);
                        }
                        match out {
                            Some(rep) => {
                                proof {
                                    let rest = filter_map_ok(
                                        self.src.upcoming(),
                                        self.predicate,
                                    );
                                    assert(old(self).upcoming() == seq![Ok::<R, E>(rep)] + rest);
                                    assert(old(self).upcoming()[0] == Ok::<R, E>(rep));
                                    assert(old(self).upcoming().drop_first() =~= rest);
                                }
                                return PollNext::Item(Ok(rep));
                            },
                            None => {
                            },
                        }
                    },
                },
            }
        }
    }

    fn size_hint(&self) -> (r: (usize, Option<usize>)) {
        proof {
            lemma_filter_map_ok_len(self.src.upcoming(), self.predicate);
        }
        self.src.size_hint()
    }
}

impl<O, E, R, S, F> FusedSource<Result<R, E>> for TryFilterMapOk<S, F, O> where
    S: FusedSource<Result<O, E>>,
    F: Fn(O) -> Option<R>,
 {
    closed spec fn finished(&self) -> bool {
        self.src.finished()
    }

    fn is_terminated(&self) -> (r: bool) {
        self.src.is_terminated()
    }
}

} // verus!
