//! Composable, verified combinators over pull-based sequences.
//!
//! A [`source::Source`] is a pull-based producer of values: each pull answers
//! with the next item, with "not ready yet", or with "permanently done".  Its
//! model is the ordered sequence of items it has yet to emit.  A
//! [`source::Task`] is the single-result counterpart: a future with a modeled
//! outcome.  Every adapter here wraps one upstream source (taking ownership),
//! re-implements the same pull contract, and carries an exact statement of
//! what it emits in terms of its upstream's model:
//!
//! * [`dedup::DedupStream`] and [`try_dedup::TryDedupStream`] drop every item
//!   whose 64-bit fingerprint was already seen, keeping first occurrences in
//!   order; the fallible variant forwards errors untouched,
//! * [`fuse_on_fail::FuseOnFail`] ends a fallible sequence permanently after
//!   its first error, which is still emitted, and answers the terminal-state
//!   query whether or not the upstream can,
//! * [`try_filter_map_ok::TryFilterMapOk`] transforms or drops successes and
//!   forwards errors verbatim,
//! * [`nth::StreamNth`], [`nth::TryStreamNth`] and
//!   [`try_first::TryStreamFirst`] reduce a sequence to the future of its
//!   item at a fixed offset,
//! * [`fold_mut::FoldMut`] and [`fold_mut::TryFoldMut`] drive a sequence to
//!   completion, folding every item into a mutable accumulator through a
//!   handler and its per-item sub-computation.
//!
//! The chainable entry points live in [`ext::JStreamExt`] and
//! [`ext::JTryStreamExt`], blanket-implemented for every source.
//! [`scripted::ScriptedSource`] is the concrete upstream: it emits the items
//! of a vector, in order, always ready.
//!
//! Suspension is never the adapters' own doing: over an always-ready
//! upstream (and, for the folds, a handler whose sub-computations are ready
//! at once) every pull answers definitely - dropping a duplicate or a
//! filtered-out item re-pulls the upstream within the same call.  Each
//! sequence also carries its advisory size estimate as part of its model:
//! pass-through for the error-fusing and filter-map adapters, frozen at
//! construction for deduplication.
//!
//! The hashing primitive behind deduplication is a collaborator, not part of
//! this crate: the dedup adapters take any fingerprint function that answers
//! the same 64-bit key on the same input.

pub mod dedup;
pub mod ext;
pub mod fold_mut;
pub mod fuse_on_fail;
pub mod nth;
pub mod poll;
pub mod scripted;
pub mod source;
pub mod try_dedup;
pub mod try_filter_map_ok;
pub mod try_first;
