use crate::poll::{PollNext, PollOnce};
use vstd::prelude::*;

verus! {

/// The pull protocol shared by every sequence in this crate.
///
/// The model of a source is `upcoming()`: the ordered sequence of items it
/// has yet to emit.  One pull either leaves that sequence untouched
/// (`Pending`: no item is ready yet), hands over its head (`Item`), or
/// reports that it is and stays empty (`Done`).  A source never reorders,
/// loses or duplicates items, and once out of items it never grows new ones.
///
/// A pull never blocks: it answers `Pending` instead, and the caller is
/// expected to come back later.  A fallible sequence is a `Source` whose item
/// type is a `Result`; an error item does not by itself end the sequence.
pub trait Source<T>: Sized {
    /// Well-formedness of the source's private state.  Established by its
    /// constructor and preserved by every pull.
    spec fn inv(&self) -> bool;

    /// The items this source has yet to emit, in emission order.
    spec fn upcoming(&self) -> Seq<T>;

    /// Whether this source never suspends: every pull gets a definite answer.
    /// A pull may answer `Pending` only when the source is not always-ready -
    /// that is, only when a suspension comes from further in (ultimately from
    /// whatever real upstream can suspend).  Discarding or transforming items
    /// is never by itself a reason to suspend: an adapter over an
    /// always-ready upstream is always-ready, and keeps pulling within the
    /// same call until it has a definite answer.
    spec fn always_ready(&self) -> bool;

    /// The advisory size estimate this source currently reports.
    spec fn hint(&self) -> (usize, Option<usize>);

    /// Pull once.
    fn poll_next(&mut self) -> (r: PollNext<T>)
        requires
            old(self).inv(),
        ensures
            final(self).inv(),
            r is Pending ==> final(self).upcoming() == old(self).upcoming(),
            r matches PollNext::Item(v) ==> old(self).upcoming().len() > 0
                && v == old(self).upcoming()[0]
                && final(self).upcoming() == old(self).upcoming().drop_first(),
            r is Done ==> old(self).upcoming().len() == 0
                && final(self).upcoming().len() == 0,
            old(self).always_ready() ==> !(r is Pending) && final(self).always_ready(),
    ;

    /// Advisory estimate `(lower, upper)` of how many items are left: a pure,
    /// non-mutating query answering `hint()`.  Only the upper bound is
    /// promised to be sound; the lower bound is advisory and never
    /// load-bearing.
    fn size_hint(&self) -> (r: (usize, Option<usize>))
        requires
            self.inv(),
        ensures
            r == self.hint(),
            r.1 matches Some(u) ==> self.upcoming().len() <= u,
    ;
}

/// A source that can also be asked whether it is permanently finished.
///
/// Once `is_terminated` answers true, the source has nothing left to emit and
/// will answer `Done` to every further pull.
pub trait FusedSource<T>: Source<T> {
    /// Whether the source has reached its terminal state.
    spec fn finished(&self) -> bool;

    /// Query the terminal state.  Pure: mutates nothing.
    fn is_terminated(&self) -> (r: bool)
        requires
            self.inv(),
        ensures
            r == self.finished(),
            r ==> self.upcoming().len() == 0,
    ;
}

/// The pull protocol for a computation with a single eventual result.
///
/// The model is `outcome()`, the result the task will deliver, and
/// `completed()`, whether it has already delivered it.  Pulling on a task
/// that has already answered is a usage violation, ruled out by `poll`'s
/// precondition: after the one `Ready` answer, `completed()` holds and stays,
/// so every later pull on the same task is rejected - deterministically, on
/// the first offending call.
pub trait Task<T>: Sized {
    /// Well-formedness of the task's private state.
    spec fn inv(&self) -> bool;

    /// Whether the task has already delivered its answer.
    spec fn completed(&self) -> bool;

    /// The answer that will be delivered.
    spec fn outcome(&self) -> T;

    /// Whether suspension is impossible here: the one pull allowed gets the
    /// answer at once.  As for [`Source::always_ready`], a suspension may
    /// only come from further in, never from the computation's own
    /// bookkeeping.
    spec fn always_ready(&self) -> bool;

    /// Pull once.
    fn poll(&mut self) -> (r: PollOnce<T>)
        requires
            old(self).inv(),
            !old(self).completed(),
        ensures
            final(self).inv(),
            r is Pending ==> !final(self).completed()
                && final(self).outcome() == old(self).outcome(),
            r matches PollOnce::Ready(v) ==> v == old(self).outcome()
                && final(self).completed(),
            old(self).always_ready() ==> r is Ready && final(self).always_ready(),
    ;
}

} // verus!
