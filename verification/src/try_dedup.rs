use crate::dedup::{
    fingerprint_deterministic, fingerprint_of, fingerprint_total, SeenSet,
};
use crate::poll::PollNext;
use crate::source::{FusedSource, Source};
use crate::try_filter_map_ok::errors_of;
use vstd::prelude::*;

verus! {

/// The items of the fallible sequence `s` kept by deduplication: a success
/// stays exactly when its fingerprint is neither in `seen` nor the
/// fingerprint of an earlier kept success; every error is kept verbatim, in
/// place, and counts nothing as seen.
pub open spec fn try_first_occurrences<O, E, F: Fn(&O) -> u64>(
    s: Seq<Result<O, E>>,
    seen: Set<u64>,
    f: F,
) -> Seq<Result<O, E>>
    decreases s.len(),
{
    if s.len() == 0 {
        Seq::empty()
    } else {
        match s[0] {
            Err(e) => seq![Err(e)] + try_first_occurrences(s.drop_first(), seen, f),
            Ok(v) => if seen.contains(fingerprint_of(f, v)) {
                try_first_occurrences(s.drop_first(), seen, f)
            } else {
                seq![Ok(v)] + try_first_occurrences(
                    s.drop_first(),
                    seen.insert(fingerprint_of(f, v)),
                    f,
                )
            },
        }
    }
}

/// Deduplication never emits more than its upstream.
pub proof fn lemma_try_first_occurrences_len<O, E, F: Fn(&O) -> u64>(
    s: Seq<Result<O, E>>,
    seen: Set<u64>,
    f: F,
)
    ensures
        try_first_occurrences(s, seen, f).len() <= s.len(),
    decreases s.len(),
{
    if s.len() == 0 {
    } else {
        match s[0] {
            Err(e) => {
                lemma_try_first_occurrences_len(s.drop_first(), seen, f);
            },
            Ok(v) => {
                if seen.contains(fingerprint_of(f, v)) {
                    lemma_try_first_occurrences_len(s.drop_first(), seen, f);
                } else {
                    lemma_try_first_occurrences_len(
                        s.drop_first(),
                        seen.insert(fingerprint_of(f, v)),
                        f,
                    );
                }
            },
        }
    }
}

/// Errors are never deduplicated or filtered: whatever successes are dropped,
/// the deduplicated sequence carries exactly the upstream's errors, in the
/// upstream's order.
pub proof fn lemma_try_dedup_keeps_errors<O, E, F: Fn(&O) -> u64>(
    s: Seq<Result<O, E>>,
    seen: Set<u64>,
    f: F,
)
    ensures
        errors_of(try_first_occurrences(s, seen, f)) == errors_of(s),
    decreases s.len(),
{
    if s.len() == 0 {
        assert(errors_of(try_first_occurrences(s, seen, f)) =~= errors_of(s));
    } else {
        match s[0] {
            Err(e) => {
                lemma_try_dedup_keeps_errors(s.drop_first(), seen, f);
                let rest = try_first_occurrences(s.drop_first(), seen, f);
                assert((seq![Err::<O, E>(e)] + rest).drop_first() =~= rest);
                assert(errors_of(try_first_occurrences(s, seen, f)) =~= errors_of(s));
            },
            Ok(v) => {
                if seen.contains(fingerprint_of(f, v)) {
                    lemma_try_dedup_keeps_errors(s.drop_first(), seen, f);
                    assert(errors_of(try_first_occurrences(s, seen, f)) =~= errors_of(s));
                } else {
                    let seen2 = seen.insert(fingerprint_of(f, v));
                    lemma_try_dedup_keeps_errors(s.drop_first(), seen2, f);
                    let rest = try_first_occurrences(s.drop_first(), seen2, f);
                    assert((seq![Ok::<O, E>(v)] + rest).drop_first() =~= rest);
                    assert(errors_of(try_first_occurrences(s, seen, f)) =~= errors_of(s));
                }
            },
        }
    }
}

/// Drops every success whose fingerprint was seen before; errors are never
/// deduplicated or filtered - every error is forwarded immediately, in place,
/// and does not count as seen.
///
/// Each pull keeps pulling the upstream while successes repeat: a
/// filtered-out item never surfaces as a suspension.  Two distinct values
/// that share a fingerprint are treated as duplicates: a deliberate
/// probabilistic trade-off, not silently corrected here.  The advisory size
/// estimate is frozen at construction (an upper bound, not kept live).
pub struct TryDedupStream<S, F> {
    src: S,
    size_hint: (usize, Option<usize>),
    known: SeenSet,
    fingerprint: F,
}

impl<S, F> TryDedupStream<S, F> {
    /// Wrap `src`; `fingerprint` is the identity proxy under which successes
    /// are compared.
    pub fn new<O, E>(src: S, fingerprint: F) -> (r: Self) where
        S: Source<Result<O, E>>,
        F: Fn(&O) -> u64,

        requires
            src.inv(),
            fingerprint_deterministic(fingerprint),
            fingerprint_total(fingerprint),
        ensures
            r.inv(),
            r.upcoming() == try_first_occurrences(
                src.upcoming(),
                Set::<u64>::empty(),
                fingerprint,
            ),
            r.always_ready() == src.always_ready(),
            r.hint() == src.hint(),
    {
        let size_hint = src.size_hint();
        TryDedupStream { src, size_hint, known: SeenSet::new(), fingerprint }
    }
}

impl<O, E, S, F> Source<Result<O, E>> for TryDedupStream<S, F> where
    S: Source<Result<O, E>>,
    F: Fn(&O) -> u64,
 {
    closed spec fn inv(&self) -> bool {
        &&& self.src.inv()
        &&& fingerprint_deterministic(self.fingerprint)
        &&& fingerprint_total(self.fingerprint)
        &&& (self.size_hint.1 matches Some(u) ==> self.src.upcoming().len() <= u)
    }

    closed spec fn upcoming(&self) -> Seq<Result<O, E>> {
        try_first_occurrences(self.src.upcoming(), self.known@, self.fingerprint)
    }

    closed spec fn always_ready(&self) -> bool {
        self.src.always_ready()
    }

    closed spec fn hint(&self) -> (usize, Option<usize>) {
        self.size_hint
    }

    fn poll_next(&mut self) -> (r: PollNext<Result<O, E>>)
        ensures
            final(self).hint() == old(self).hint(),
    {
        loop
            invariant
                self.inv(),
                self.fingerprint == old(self).fingerprint,
                self.size_hint == old(self).size_hint,
                try_first_occurrences(self.src.upcoming(), self.known@, self.fingerprint) == old(
                    self,
                ).upcoming(),
                old(self).always_ready() ==> self.always_ready(),
            decreases self.src.upcoming().len(),
        {
            let ghost pre_src = self.src.upcoming();
            let ghost pre_known = self.known@;
            match self.src.poll_next() {
                PollNext::Pending => {
                    return PollNext::Pending;
                },
                PollNext::Done => {
                    return PollNext::Done;
                },
                PollNext::Item(item) => match item {
                    Err(e) => {
                        proof {
                            let rest = try_first_occurrences(
                                pre_src.drop_first(),
                                pre_known,
                                self.fingerprint,
                            );
                            assert(old(self).upcoming() == seq![Err::<O, E>(e)] + rest);
                            assert(old(self).upcoming()[0] == Err::<O, E>(e));
                            assert(old(self).upcoming().drop_first() =~= rest);
                        }
                        return PollNext::Item(Err(e));
                    },
                    Ok(v) => {
                        let h = (self.fingerprint)(&v);
                        proof {
                            assert(h == fingerprint_of(self.fingerprint, v));
                        }
                        let fresh = self.known.record(h);
                        if fresh {
                            proof {
                                let rest = try_first_occurrences(
                                    pre_src.drop_first(),
                                    pre_known.insert(h),
                                    self.fingerprint,
                                );
                                assert(old(self).upcoming() == seq![Ok::<O, E>(v)] + rest);
                                assert(old(self).upcoming()[0] == Ok::<O, E>(v));
                                assert(old(self).upcoming().drop_first() =~= rest);
                                assert(self.upcoming() == rest);
                            }
                            return PollNext::Item(Ok(v));
                        }
                        proof {
                            assert(self.known@ =~= pre_known);
                        }
                    },
                },
            }
        }
    }

    fn size_hint(&self) -> (r: (usize, Option<usize>)) {
        proof {
            lemma_try_first_occurrences_len(self.src.upcoming(), self.known@, self.fingerprint);
        }
        self.size_hint
    }
}

impl<O, E, S, F> FusedSource<Result<O, E>> for TryDedupStream<S, F> where
    S: FusedSource<Result<O, E>>,
    F: Fn(&O) -> u64,
 {
    closed spec fn finished(&self) -> bool {
        self.src.finished()
    }

    fn is_terminated(&self) -> (r: bool) {
        self.src.is_terminated()
    }
}

} // verus!
