use crate::poll::PollNext;
use crate::source::{FusedSource, Source};
use std::collections::HashSet;
use vstd::prelude::*;

verus! {

broadcast use vstd::std_specs::hash::group_hash_axioms;

/// The fingerprint function answers the same 64-bit key on every call with
/// the same input.
pub open spec fn fingerprint_deterministic<T, F: Fn(&T) -> u64>(f: F) -> bool {
    forall|v: &T, r1: u64, r2: u64|
        #[trigger] call_ensures(f, (v,), r1) && #[trigger] call_ensures(f, (v,), r2)
            ==> r1 == r2
}

/// The fingerprint function accepts every input.
pub open spec fn fingerprint_total<T, F: Fn(&T) -> u64>(f: F) -> bool {
    forall|v: &T| #[trigger] call_requires(f, (v,))
}

/// The fingerprint of `v`: the identity proxy under which items are compared
/// for deduplication.
pub open spec fn fingerprint_of<T, F: Fn(&T) -> u64>(f: F, v: T) -> u64 {
    choose|r: u64| call_ensures(f, (&v,), r)
}

/// Distinct values never share a fingerprint.  Deduplication by fingerprint
/// is exact deduplication only under this assumption; without it, a value
/// whose fingerprint collides with an earlier one is dropped as a duplicate.
pub open spec fn fingerprint_injective<T, F: Fn(&T) -> u64>(f: F) -> bool {
    forall|a: T, b: T|
        #![trigger fingerprint_of(f, a), fingerprint_of(f, b)]
        fingerprint_of(f, a) == fingerprint_of(f, b) ==> a == b
}

/// The items of `s` kept by deduplication: an item stays exactly when its
/// fingerprint is neither in `seen` nor the fingerprint of an earlier kept
/// item.  Order is preserved.
pub open spec fn first_occurrences<T, F: Fn(&T) -> u64>(s: Seq<T>, seen: Set<u64>, f: F) -> Seq<T>
    decreases s.len(),
{
    if s.len() == 0 {
        Seq::empty()
    } else if seen.contains(fingerprint_of(f, s[0])) {
        first_occurrences(s.drop_first(), seen, f)
    } else {
        seq![s[0]] + first_occurrences(s.drop_first(), seen.insert(fingerprint_of(f, s[0])), f)
    }
}

/// Deduplication never emits more than its upstream.
pub proof fn lemma_first_occurrences_len<T, F: Fn(&T) -> u64>(s: Seq<T>, seen: Set<u64>, f: F)
    ensures
        first_occurrences(s, seen, f).len() <= s.len(),
    decreases s.len(),
{
    if s.len() == 0 {
    } else if seen.contains(fingerprint_of(f, s[0])) {
        lemma_first_occurrences_len(s.drop_first(), seen, f);
    } else {
        lemma_first_occurrences_len(s.drop_first(), seen.insert(fingerprint_of(f, s[0])), f);
    }
}

/// What deduplication keeps has pairwise distinct fingerprints - so the same
/// value never appears twice - and no kept fingerprint lies in `seen`.
pub proof fn lemma_first_occurrences_no_duplicates<T, F: Fn(&T) -> u64>(
    s: Seq<T>,
    seen: Set<u64>,
    f: F,
)
    ensures
        first_occurrences(s, seen, f).no_duplicates(),
        forall|i: int|
            0 <= i < first_occurrences(s, seen, f).len()
                ==> !seen.contains(
                fingerprint_of(f, #[trigger] first_occurrences(s, seen, f)[i]),
            ),
    decreases s.len(),
{
    if s.len() == 0 {
    } else if seen.contains(fingerprint_of(f, s[0])) {
        lemma_first_occurrences_no_duplicates(s.drop_first(), seen, f);
    } else {
        let fp0 = fingerprint_of(f, s[0]);
        let rest = first_occurrences(s.drop_first(), seen.insert(fp0), f);
        lemma_first_occurrences_no_duplicates(s.drop_first(), seen.insert(fp0), f);
        let out = first_occurrences(s, seen, f);
        assert(out == seq![s[0]] + rest);
        assert(out[0] == s[0]);
        assert(forall|i: int| 0 <= i < rest.len() ==> out[i + 1] == #[trigger] rest[i]);
        assert forall|i: int| 0 <= i < out.len() implies !seen.contains(
            fingerprint_of(f, out[i]),
        ) by {
            if i > 0 {
                assert(out[i] == rest[i - 1]);
                assert(!seen.insert(fp0).contains(fingerprint_of(f, rest[i - 1])));
            }
        }
        assert forall|i: int, j: int|
            0 <= i < out.len() && 0 <= j < out.len() && i != j implies out[i] != out[j] by {
            let a = if i < j { i } else { j };
            let b = if i < j { j } else { i };
            if a == 0 {
                assert(out[b] == rest[b - 1]);
                assert(!seen.insert(fp0).contains(fingerprint_of(f, rest[b - 1])));
                if out[a] == out[b] {
                    assert(fingerprint_of(f, out[a]) == fingerprint_of(f, out[b]));
                    assert(false);
                }
            } else {
                assert(out[a] == rest[a - 1] && out[b] == rest[b - 1]);
                assert(rest.no_duplicates());
            }
        }
    }
}

/// Deduplication: for any finite ordered upstream, what a fresh adapter emits
/// never contains the same value twice, whatever the fingerprint function is.
pub proof fn lemma_dedup_never_repeats<T, F: Fn(&T) -> u64>(s: Seq<T>, f: F)
    ensures
        first_occurrences(s, Set::empty(), f).no_duplicates(),
{
    lemma_first_occurrences_no_duplicates(s, Set::empty(), f);
}

/// The items of `s` whose value did not occur before, in order: deduplication
/// by exact equality.
pub open spec fn first_value_occurrences<T>(s: Seq<T>, seen: Set<T>) -> Seq<T>
    decreases s.len(),
{
    if s.len() == 0 {
        Seq::empty()
    } else if seen.contains(s[0]) {
        first_value_occurrences(s.drop_first(), seen)
    } else {
        seq![s[0]] + first_value_occurrences(s.drop_first(), seen.insert(s[0]))
    }
}

proof fn lemma_first_occurrences_exact_rec<T, F: Fn(&T) -> u64>(
    s: Seq<T>,
    seen: Set<u64>,
    seen_values: Set<T>,
    f: F,
)
    requires
        fingerprint_injective(f),
        forall|v: T| seen.contains(#[trigger] fingerprint_of(f, v)) <==> seen_values.contains(v),
    ensures
        first_occurrences(s, seen, f) == first_value_occurrences(s, seen_values),
    decreases s.len(),
{
    if s.len() == 0 {
    } else {
        let fp0 = fingerprint_of(f, s[0]);
        if seen.contains(fp0) {
            lemma_first_occurrences_exact_rec(s.drop_first(), seen, seen_values, f);
        } else {
            assert forall|v: T|
                seen.insert(fp0).contains(#[trigger] fingerprint_of(f, v)) <==> seen_values.insert(
                    s[0],
                ).contains(v) by {
                if fingerprint_of(f, v) == fp0 {
                    assert(v == s[0]);
                }
            }
            lemma_first_occurrences_exact_rec(
                s.drop_first(),
                seen.insert(fp0),
                seen_values.insert(s[0]),
                f,
            );
        }
    }
}

/// Deduplication: when the fingerprint is an exact identity proxy (no two
/// distinct values collide), a fresh adapter emits exactly the subsequence
/// of first occurrences of the upstream's values, in the upstream's order.
pub proof fn lemma_dedup_emits_first_occurrences<T, F: Fn(&T) -> u64>(s: Seq<T>, f: F)
    requires
        fingerprint_injective(f),
    ensures
        first_occurrences(s, Set::empty(), f) == first_value_occurrences(s, Set::empty()),
{
    lemma_first_occurrences_exact_rec(s, Set::empty(), Set::empty(), f);
}

/// The set of fingerprints already emitted.  It grows monotonically and is
/// never pruned: the adapter's memory grows with the number of distinct
/// values seen over its lifetime.
pub struct SeenSet {
    known: HashSet<u64>,
}

impl View for SeenSet {
    type V = Set<u64>;

    closed spec fn view(&self) -> Set<u64> {
        self.known@
    }
}

impl SeenSet {
    /// An empty record: no fingerprint has been seen.
    pub fn new() -> (r: Self)
        ensures
            r@ == Set::<u64>::empty(),
    {
        SeenSet { known: HashSet::new() }
    }

    /// Record `fp`; answers whether it was new.
    pub fn record(&mut self, fp: u64) -> (fresh: bool)
        ensures
            fresh == !old(self)@.contains(fp),
            final(self)@ == old(self)@.insert(fp),
    {
        self.known.insert(fp)
    }
}

/// Drops every item whose fingerprint was seen before, emitting only first
/// occurrences.
///
/// Each pull keeps pulling the upstream while items repeat: a filtered-out
/// item never surfaces as a suspension.  Two distinct values that share a
/// fingerprint are treated as duplicates: a deliberate probabilistic
/// trade-off, not silently corrected here.  The advisory size estimate is
/// frozen at construction: deduplication can only shrink the count, so the
/// frozen upper bound stays sound but is not kept live.
pub struct DedupStream<S, F> {
    src: S,
    size_hint: (usize, Option<usize>),
    known: SeenSet,
    fingerprint: F,
}

impl<S, F> DedupStream<S, F> {
    /// Wrap `src`; `fingerprint` is the identity proxy under which items are
    /// compared.
    pub fn new<T>(src: S, fingerprint: F) -> (r: Self) where
        S: Source<T>,
        F: Fn(&T) -> u64,

        requires
            src.inv(),
            fingerprint_deterministic(fingerprint),
            fingerprint_total(fingerprint),
        ensures
            r.inv(),
            r.upcoming() == first_occurrences(src.upcoming(), Set::<u64>::empty(), fingerprint),
            r.always_ready() == src.always_ready(),
            r.hint() == src.hint(),
    {
        let size_hint = src.size_hint();
        DedupStream { src, size_hint, known: SeenSet::new(), fingerprint }
    }
}

impl<T, S, F> Source<T> for DedupStream<S, F> where S: Source<T>, F: Fn(&T) -> u64 {
    closed spec fn inv(&self) -> bool {
        &&& self.src.inv()
        &&& fingerprint_deterministic(self.fingerprint)
        &&& fingerprint_total(self.fingerprint)
        &&& (self.size_hint.1 matches Some(u) ==> self.src.upcoming().len() <= u)
    }

    closed spec fn upcoming(&self) -> Seq<T> {
        first_occurrences(self.src.upcoming(), self.known@, self.fingerprint)
    }

    closed spec fn always_ready(&self) -> bool {
        self.src.always_ready()
    }

    closed spec fn hint(&self) -> (usize, Option<usize>) {
        self.size_hint
    }

    fn poll_next(&mut self) -> (r: PollNext<T>)
        ensures
            final(self).hint() == old(self).hint(),
    {
        loop
            invariant
                self.inv(),
                self.fingerprint == old(self).fingerprint,
                self.size_hint == old(self).size_hint,
                first_occurrences(self.src.upcoming(), self.known@, self.fingerprint) == old(
                    self,
                ).upcoming(),
                old(self).always_ready() ==> self.always_ready(),
            decreases self.src.upcoming().len(),
        {
            let ghost pre_src = self.src.upcoming();
            let ghost pre_known = self.known@;
            match self.src.poll_next() {
                PollNext::Pending => {
                    return PollNext::Pending;
                },
                PollNext::Done => {
                    return PollNext::Done;
                },
                PollNext::Item(v) => {
                    let h = (self.fingerprint)(&v);
                    proof {
                        assert(h == fingerprint_of(self.fingerprint, v));
                    }
                    let fresh = self.known.record(h);
                    if fresh {
                        proof {
                            let rest = first_occurrences(
                                pre_src.drop_first(),
                                pre_known.insert(h),
                                self.fingerprint,
                            );
                            assert(old(self).upcoming() == seq![v] + rest);
                            assert(old(self).upcoming()[0] == v);
                            assert(old(self).upcoming().drop_first() =~= rest);
                            assert(self.upcoming() == rest);
                        }
                        return PollNext::Item(v);
                    }
                    proof {
                        assert(self.known@ =~= pre_known);
                    }
                },
            }
        }
    }

    fn size_hint(&self) -> (r: (usize, Option<usize>)) {
        proof {
            lemma_first_occurrences_len(self.src.upcoming(), self.known@, self.fingerprint);
        }
        self.size_hint
    }
}

impl<T, S, F> FusedSource<T> for DedupStream<S, F> where S: FusedSource<T>, F: Fn(&T) -> u64 {
    closed spec fn finished(&self) -> bool {
        self.src.finished()
    }

    fn is_terminated(&self) -> (r: bool) {
        self.src.is_terminated()
    }
}

} // verus!
