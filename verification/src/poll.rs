use vstd::prelude::*;

verus! {

/// One answer from pulling on a sequence: no item is ready yet (ask again
/// later), the next item, or the sequence is permanently out of items.
#[derive(Debug, PartialEq, Eq)]
pub enum PollNext<T> {
    Pending,
    Item(T),
    Done,
}

/// One answer from pulling on a single-result computation: the result is not
/// ready yet (ask again later), or the final result.
#[derive(Debug, PartialEq, Eq)]
pub enum PollOnce<T> {
    Pending,
    Ready(T),
}

} // verus!
