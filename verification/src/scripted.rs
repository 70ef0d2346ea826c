use crate::fold_mut::{FoldHandler, TryFoldHandler};
use crate::poll::{PollNext, PollOnce};
use crate::source::{FusedSource, Source, Task};
use vstd::prelude::*;

verus! {

/// A sequence that emits the items of a vector, in order, and is always
/// ready.  This is the crate's concrete upstream: a run is scripted by
/// listing the items the upstream shall produce, and the source is fused -
/// once out of items it answers `Done` to every further pull.
pub struct ScriptedSource<T> {
    items: Vec<T>,
}

impl<T> ScriptedSource<T> {
    /// Wrap the items to emit, first item first.
    pub fn new(items: Vec<T>) -> (r: Self)
        ensures
            r.inv(),
            r.upcoming() == items@,
            r.finished() == (items@.len() == 0),
            r.always_ready(),
            r.hint() == (items@.len() as usize, Some(items@.len() as usize)),
    {
        ScriptedSource { items }
    }
}

impl<T> Source<T> for ScriptedSource<T> {
    closed spec fn inv(&self) -> bool {
        true
    }

    closed spec fn upcoming(&self) -> Seq<T> {
        self.items@
    }

    closed spec fn always_ready(&self) -> bool {
        true
    }

    closed spec fn hint(&self) -> (usize, Option<usize>) {
        (self.items@.len() as usize, Some(self.items@.len() as usize))
    }

    fn poll_next(&mut self) -> (r: PollNext<T>)
        ensures
            !(r is Pending),
    {
        if self.items.len() > 0 {
            let v = self.items.remove(0);
            proof {
                assert(self.items@ =~= old(self).items@.drop_first());
            }
            PollNext::Item(v)
        } else {
            PollNext::Done
        }
    }

    fn size_hint(&self) -> (r: (usize, Option<usize>)) {
        let n = self.items.len();
        (n, Some(n))
    }
}

impl<T> FusedSource<T> for ScriptedSource<T> {
    closed spec fn finished(&self) -> bool {
        self.items@.len() == 0
    }

    fn is_terminated(&self) -> (r: bool) {
        self.items.len() == 0
    }
}

/// A single-result computation whose answer is ready on the first pull.
///
/// It stands in for an in-flight sub-computation wherever no real suspension
/// is wanted: a fold handler, for one, can answer with `ReadyTask::new(())`
/// to commit an item immediately.
pub struct ReadyTask<T> {
    value: Option<T>,
}

impl<T> ReadyTask<T> {
    /// A fresh task that will deliver `value`.
    pub fn new(value: T) -> (r: Self)
        ensures
            r.inv(),
            !r.completed(),
            r.outcome() == value,
            r.always_ready(),
    {
        ReadyTask { value: Some(value) }
    }
}

impl<T> Task<T> for ReadyTask<T> {
    closed spec fn inv(&self) -> bool {
        true
    }

    closed spec fn completed(&self) -> bool {
        self.value is None
    }

    closed spec fn outcome(&self) -> T {
        self.value->0
    }

    closed spec fn always_ready(&self) -> bool {
        true
    }

    fn poll(&mut self) -> (r: PollOnce<T>)
        ensures
            r is Ready,
    {
        let v = self.value.take();
        PollOnce::Ready(v.unwrap())
    }
}

/// A fold handler that sums 64-bit items into a 64-bit accumulator, wrapping
/// around on overflow and committing each item immediately.
pub struct WrappingSumHandler;

impl WrappingSumHandler {
    /// The handler's step on the accumulator: a wrapping sum.
    pub open spec fn sum_step(acc: u64, item: u64) -> u64 {
        ((acc as int + item as int) % (u64::MAX as int + 1)) as u64
    }
}

impl FoldHandler<u64, u64, ReadyTask<()>> for WrappingSumHandler {
    open spec fn inv(&self) -> bool {
        true
    }

    open spec fn step(&self, acc: u64, item: u64) -> u64 {
        WrappingSumHandler::sum_step(acc, item)
    }

    open spec fn ready_subs(&self) -> bool {
        true
    }

    fn call(&mut self, acc: &mut u64, item: u64) -> (sub: ReadyTask<()>) {
        *acc = acc.wrapping_add(item);
        ReadyTask::new(())
    }
}

/// A fallible fold handler that sums 64-bit items into a 64-bit accumulator
/// and refuses to commit an item that would overflow: the sub-computation it
/// answers with then carries the fold-ending error.
pub struct CheckedSumHandler;

impl CheckedSumHandler {
    /// Whether folding `item` into `acc` stays within 64 bits.
    pub open spec fn fits(acc: u64, item: u64) -> bool {
        acc as int + item as int <= u64::MAX as int
    }
}

impl TryFoldHandler<u64, u64, (), ReadyTask<Result<(), ()>>> for CheckedSumHandler {
    open spec fn inv(&self) -> bool {
        true
    }

    open spec fn step(&self, acc: u64, item: u64) -> u64 {
        if CheckedSumHandler::fits(acc, item) {
            (acc + item) as u64
        } else {
            acc
        }
    }

    open spec fn verdict(&self, acc: u64, item: u64) -> Result<(), ()> {
        if CheckedSumHandler::fits(acc, item) {
            Ok(())
        } else {
            Err(())
        }
    }

    open spec fn ready_subs(&self) -> bool {
        true
    }

    fn call(&mut self, acc: &mut u64, item: u64) -> (sub: ReadyTask<Result<(), ()>>) {
        match acc.checked_add(item) {
            Some(s) => {
                *acc = s;
                ReadyTask::new(Ok(()))
            },
            None => ReadyTask::new(Err(())),
        }
    }
}

} // verus!
