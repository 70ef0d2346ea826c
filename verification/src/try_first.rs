use crate::nth::try_nth_of;
use crate::poll::{PollNext, PollOnce};
use crate::source::{Source, Task};
use vstd::prelude::*;

verus! {

/// Reduces a fallible sequence to a single future: its very first result.
///
/// One pull of the upstream decides everything: a success resolves to
/// `Ok(Some(value))`, an error to `Err(error)`, exhaustion to `Ok(None)`.
/// Once resolved, pulling again is a usage violation, ruled out by `poll`'s
/// precondition.
pub struct TryStreamFirst<S> {
    src: S,
    completed: bool,
}

impl<S> TryStreamFirst<S> {
    /// The future of the first result of `src`.
    pub fn new<O, E>(src: S) -> (r: Self) where S: Source<Result<O, E>>
        requires
            src.inv(),
        ensures
            r.inv(),
            !r.completed(),
            r.outcome() == try_nth_of(src.upcoming(), 0),
            r.always_ready() == src.always_ready(),
    {
        TryStreamFirst { src, completed: false }
    }
}

impl<O, E, S: Source<Result<O, E>>> Task<Result<Option<O>, E>> for TryStreamFirst<S> {
    closed spec fn inv(&self) -> bool {
        self.src.inv()
    }

    closed spec fn completed(&self) -> bool {
        self.completed
    }

    closed spec fn outcome(&self) -> Result<Option<O>, E> {
        try_nth_of(self.src.upcoming(), 0)
    }

    closed spec fn always_ready(&self) -> bool {
        self.src.always_ready()
    }

    fn poll(&mut self) -> (r: PollOnce<Result<Option<O>, E>>) {
        match self.src.poll_next() {
            PollNext::Pending => PollOnce::Pending,
            PollNext::Done => {
                self.completed = true;
                PollOnce::Ready(Ok(None))
            },
            PollNext::Item(item) => {
                self.completed = true;
                match item {
                    Ok(v) => PollOnce::Ready(Ok(Some(v))),
                    Err(e) => PollOnce::Ready(Err(e)),
                }
            },
        }
    }
}

} // verus!
