use jstream_ext::dedup::DedupStream;
use jstream_ext::poll::PollNext;
use jstream_ext::scripted::ScriptedSource;
use jstream_ext::source::Source;
use jstream_ext::try_dedup::TryDedupStream;
use std::collections::hash_map::DefaultHasher;
use std::hash::{Hash, Hasher};

fn fp(s: &&str) -> u64 {
    let mut h = DefaultHasher::new();
    s.hash(&mut h);
    h.finish()
}

fn try_next<O, E, S: Source<Result<O, E>>>(s: &mut S) -> Result<Option<O>, E> {
    match s.poll_next() {
        PollNext::Item(Ok(v)) => Ok(Some(v)),
        PollNext::Item(Err(e)) => Err(e),
        PollNext::Done => Ok(None),
        PollNext::Pending => panic!("scripted sources are always ready"),
    }
}

fn next<T, S: Source<T>>(s: &mut S) -> Option<T> {
    match s.poll_next() {
        PollNext::Item(v) => Some(v),
        PollNext::Done => None,
        PollNext::Pending => panic!("scripted sources are always ready"),
    }
}

#[test]
fn dedup_test_dedup_simple() {
    let src: Vec<Result<&str, ()>> = vec![
        Ok("hello"),
        Ok("hello"),
        Ok("world!"),
        Ok("world!"),
        Ok("123 123!"),
        Ok("123 123!"),
    ];

    let mut raised = TryDedupStream::new(ScriptedSource::new(src), fp);
    assert_eq!(try_next(&mut raised), Ok(Some("hello")));
    assert_eq!(try_next(&mut raised), Ok(Some("world!")));
    assert_eq!(try_next(&mut raised), Ok(Some("123 123!")));
    assert_eq!(try_next(&mut raised), Ok(None));
}

#[test]
fn dedup_test_dedup_err() {
    let src: Vec<Result<&str, ()>> =
        vec![Ok("hello"), Ok("hello"), Ok("abc z"), Err(()), Ok("abc")];
    let mut raised = TryDedupStream::new(ScriptedSource::new(src), fp);
    assert_eq!(try_next(&mut raised), Ok(Some("hello")));
    assert_eq!(try_next(&mut raised), Ok(Some("abc z")));
    assert_eq!(try_next(&mut raised), Err(()));
}

#[test]
fn dedup_plain_emits_first_occurrences() {
    let src: Vec<&str> = vec!["hello", "hello", "world!", "world!"];
    let mut raised = DedupStream::new(ScriptedSource::new(src), fp);
    assert_eq!(next(&mut raised), Some("hello"));
    assert_eq!(next(&mut raised), Some("world!"));
    assert_eq!(next(&mut raised), None);
}

#[test]
fn dedup_plain_keeps_original_order() {
    let src: Vec<&str> = vec!["b", "a", "b", "c", "a", "b"];
    let mut raised = DedupStream::new(ScriptedSource::new(src), fp);
    assert_eq!(next(&mut raised), Some("b"));
    assert_eq!(next(&mut raised), Some("a"));
    assert_eq!(next(&mut raised), Some("c"));
    assert_eq!(next(&mut raised), None);
}

#[test]
fn dedup_plain_empty_upstream() {
    let src: Vec<&str> = vec![];
    let mut raised = DedupStream::new(ScriptedSource::new(src), fp);
    assert_eq!(next(&mut raised), None);
}

#[test]
fn dedup_size_hint_is_frozen_at_construction() {
    let src: Vec<&str> = vec!["x", "x", "y"];
    let mut raised = DedupStream::new(ScriptedSource::new(src), fp);
    assert_eq!(raised.size_hint(), (3, Some(3)));
    assert_eq!(next(&mut raised), Some("x"));
    assert_eq!(raised.size_hint(), (3, Some(3)));
}

#[test]
fn dedup_colliding_fingerprints_treat_distinct_values_as_duplicates() {
    // A constant fingerprint makes every value collide: only the very first
    // item survives, the documented trade-off of fingerprint identity.
    let src: Vec<&str> = vec!["a", "b", "c"];
    let mut raised = DedupStream::new(ScriptedSource::new(src), |_s: &&str| 7u64);
    assert_eq!(next(&mut raised), Some("a"));
    assert_eq!(next(&mut raised), None);
}
