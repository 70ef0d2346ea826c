use jstream_ext::poll::PollNext;
use jstream_ext::scripted::ScriptedSource;
use jstream_ext::source::{FusedSource, Source};
use jstream_ext::try_dedup::TryDedupStream;
use std::collections::hash_map::DefaultHasher;
use std::hash::{Hash, Hasher};

fn fp(s: &&str) -> u64 {
    let mut h = DefaultHasher::new();
    s.hash(&mut h);
    h.finish()
}

fn try_next<O, E, S: Source<Result<O, E>>>(s: &mut S) -> Result<Option<O>, E> {
    match s.poll_next() {
        PollNext::Item(Ok(v)) => Ok(Some(v)),
        PollNext::Item(Err(e)) => Err(e),
        PollNext::Done => Ok(None),
        PollNext::Pending => panic!("scripted sources are always ready"),
    }
}

#[test]
fn try_dedup_test_dedup_simple() {
    let src: Vec<Result<&str, ()>> = vec![
        Ok("hello"),
        Ok("hello"),
        Ok("world!"),
        Ok("world!"),
        Ok("123 123!"),
        Ok("123 123!"),
    ];

    let mut raised = TryDedupStream::new(ScriptedSource::new(src), fp);
    assert_eq!(try_next(&mut raised), Ok(Some("hello")));
    assert_eq!(try_next(&mut raised), Ok(Some("world!")));
    assert_eq!(try_next(&mut raised), Ok(Some("123 123!")));
    assert_eq!(try_next(&mut raised), Ok(None));
}

#[test]
fn try_dedup_test_dedup_err() {
    let src: Vec<Result<&str, ()>> =
        vec![Ok("hello"), Ok("hello"), Ok("abc z"), Err(()), Ok("abc")];
    let mut raised = TryDedupStream::new(ScriptedSource::new(src), fp);
    assert_eq!(try_next(&mut raised), Ok(Some("hello")));
    assert_eq!(try_next(&mut raised), Ok(Some("abc z")));
    assert_eq!(try_next(&mut raised), Err(()));
}

#[test]
fn try_dedup_error_is_not_counted_as_seen() {
    // The same error value may be emitted twice: errors are never
    // deduplicated or filtered.
    let src: Vec<Result<&str, u32>> = vec![Err(9), Ok("a"), Err(9), Ok("a")];
    let mut raised = TryDedupStream::new(ScriptedSource::new(src), fp);
    assert_eq!(try_next(&mut raised), Err(9));
    assert_eq!(try_next(&mut raised), Ok(Some("a")));
    assert_eq!(try_next(&mut raised), Err(9));
    assert_eq!(try_next(&mut raised), Ok(None));
}

#[test]
fn try_dedup_delegates_the_terminal_query() {
    let src: Vec<Result<&str, ()>> = vec![Ok("only")];
    let mut raised = TryDedupStream::new(ScriptedSource::new(src), fp);
    assert!(!raised.is_terminated());
    assert_eq!(try_next(&mut raised), Ok(Some("only")));
    assert!(raised.is_terminated());
}
