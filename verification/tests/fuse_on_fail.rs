use jstream_ext::fuse_on_fail::FuseOnFail;
use jstream_ext::poll::PollNext;
use jstream_ext::scripted::ScriptedSource;
use jstream_ext::source::{FusedSource, Source};

fn try_next<O, E, S: Source<Result<O, E>>>(s: &mut S) -> Result<Option<O>, E> {
    match s.poll_next() {
        PollNext::Item(Ok(v)) => Ok(Some(v)),
        PollNext::Item(Err(e)) => Err(e),
        PollNext::Done => Ok(None),
        PollNext::Pending => panic!("scripted sources are always ready"),
    }
}

#[test]
fn test_fuse_on_fail() {
    let src = ScriptedSource::new(vec![
        Ok("a"),
        Ok("b"),
        Err("oh no!"),
        Ok("shouldn't be there"),
    ]);

    let mut lifted = FuseOnFail::new(src);

    assert_eq!(try_next(&mut lifted), Ok(Some("a")));
    assert_eq!(try_next(&mut lifted), Ok(Some("b")));
    assert_eq!(try_next(&mut lifted), Err("oh no!"));
    assert_eq!(try_next(&mut lifted), Ok(None));
}

#[test]
fn test_fuse_on_none() {
    let items: Vec<Result<&str, ()>> = vec![Ok("a"), Ok("b"), Ok("hello")];

    let src = ScriptedSource::new(items);

    let mut lifted = FuseOnFail::new(src);

    assert_eq!(try_next(&mut lifted), Ok(Some("a")));
    assert_eq!(try_next(&mut lifted), Ok(Some("b")));
    assert_eq!(try_next(&mut lifted), Ok(Some("hello")));
    assert_eq!(try_next(&mut lifted), Ok(None));
}

#[test]
fn fuse_stays_exhausted_after_error() {
    let src: Vec<Result<&str, &str>> = vec![Ok("a"), Err("bang"), Ok("c")];
    let mut lifted = FuseOnFail::new(ScriptedSource::new(src));
    assert_eq!(try_next(&mut lifted), Ok(Some("a")));
    assert!(!lifted.is_terminated());
    assert_eq!(try_next(&mut lifted), Err("bang"));
    assert!(lifted.is_terminated());
    // Pulling after the error is safe and permanently exhausted; the wrapped
    // upstream is not touched again, so "c" is never observed.
    assert_eq!(try_next(&mut lifted), Ok(None));
    assert_eq!(try_next(&mut lifted), Ok(None));
    assert!(lifted.is_terminated());
}

#[test]
fn fuse_reports_terminal_state_after_exhaustion() {
    let src: Vec<Result<u32, ()>> = vec![Ok(1)];
    let mut lifted = FuseOnFail::new(ScriptedSource::new(src));
    assert!(!lifted.is_terminated());
    assert_eq!(try_next(&mut lifted), Ok(Some(1)));
    assert_eq!(try_next(&mut lifted), Ok(None));
    assert!(lifted.is_terminated());
    assert_eq!(try_next(&mut lifted), Ok(None));
}
