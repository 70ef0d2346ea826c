use jstream_ext::poll::PollNext;
use jstream_ext::scripted::ScriptedSource;
use jstream_ext::source::Source;
use jstream_ext::try_filter_map_ok::TryFilterMapOk;

fn try_next<O, E, S: Source<Result<O, E>>>(s: &mut S) -> Result<Option<O>, E> {
    match s.poll_next() {
        PollNext::Item(Ok(v)) => Ok(Some(v)),
        PollNext::Item(Err(e)) => Err(e),
        PollNext::Done => Ok(None),
        PollNext::Pending => panic!("scripted sources are always ready"),
    }
}

fn filter_empty(v: &str) -> Option<String> {
    if !v.is_empty() {
        Some(v.to_string())
    } else {
        None
    }
}

#[test]
fn test_filter_map_ok_simple() {
    let items: Vec<Result<&str, ()>> = vec![Ok("hello"), Ok(""), Ok("world!")];
    let src = ScriptedSource::new(items);
    let mut raised = TryFilterMapOk::new(src, filter_empty);
    assert_eq!(try_next(&mut raised), Ok(Some("hello".to_owned())));
    assert_eq!(try_next(&mut raised), Ok(Some("world!".to_owned())));
    assert_eq!(try_next(&mut raised), Ok(None));
}

#[test]
fn test_filter_map_ok_error() {
    let items: Vec<Result<&str, ()>> =
        vec![Ok("hello"), Ok(""), Ok("world!"), Err(()), Ok("test 123")];
    let src = ScriptedSource::new(items);
    let mut raised = TryFilterMapOk::new(src, filter_empty);
    assert_eq!(try_next(&mut raised), Ok(Some("hello".to_owned())));
    assert_eq!(try_next(&mut raised), Ok(Some("world!".to_owned())));
    assert_eq!(try_next(&mut raised), Err(()));
}

#[test]
fn filter_map_error_bypasses_a_drop_everything_transform() {
    // Even a transform that drops every success leaves errors untouched.
    let items: Vec<Result<u32, &str>> = vec![Ok(1), Err("kept"), Ok(2)];
    let src = ScriptedSource::new(items);
    let mut raised = TryFilterMapOk::new(src, |_v: u32| Option::<u32>::None);
    assert_eq!(try_next(&mut raised), Err("kept"));
    assert_eq!(try_next(&mut raised), Ok(None));
}

#[test]
fn filter_map_transforms_kept_values() {
    let items: Vec<Result<u32, ()>> = vec![Ok(1), Ok(2), Ok(3), Ok(4)];
    let src = ScriptedSource::new(items);
    let mut raised = TryFilterMapOk::new(
        src,
        |v: u32| if v % 2 == 0 { Some(v * 10) } else { None },
    );
    assert_eq!(try_next(&mut raised), Ok(Some(20)));
    assert_eq!(try_next(&mut raised), Ok(Some(40)));
    assert_eq!(try_next(&mut raised), Ok(None));
}
