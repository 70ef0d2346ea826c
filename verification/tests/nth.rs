use jstream_ext::nth::{StreamNth, TryStreamNth};
use jstream_ext::poll::PollOnce;
use jstream_ext::scripted::ScriptedSource;
use jstream_ext::source::Task;

fn resolve<T, K: Task<T>>(mut task: K) -> T {
    match task.poll() {
        PollOnce::Ready(v) => v,
        PollOnce::Pending => panic!("scripted sources are always ready"),
    }
}

#[test]
fn nth_test_try_stream_first() {
    let items: Vec<Result<&str, ()>> = vec![Ok("hello!"), Ok("should not show up")];
    let src = ScriptedSource::new(items);
    let raised = TryStreamNth::first(src);
    assert_eq!(resolve(raised), Ok(Some("hello!")));
}

#[test]
fn nth_test_try_stream_nothing() {
    let src = ScriptedSource::new(Vec::<Result<(), ()>>::new());
    let raised = TryStreamNth::first(src);
    assert_eq!(resolve(raised), Ok(None));
}

#[test]
fn nth_plain_within_bounds() {
    let src = ScriptedSource::new(vec![10u32, 20, 30, 40]);
    let raised = StreamNth::new(src, 2);
    assert_eq!(resolve(raised), Some(30));
}

#[test]
fn nth_plain_past_the_end() {
    let src = ScriptedSource::new(vec![10u32, 20, 30, 40]);
    let raised = StreamNth::new(src, 4);
    assert_eq!(resolve(raised), None);
}

#[test]
fn nth_plain_first_of_empty() {
    let src = ScriptedSource::new(Vec::<u32>::new());
    let raised = StreamNth::first(src);
    assert_eq!(resolve(raised), None);
}

#[test]
fn nth_error_while_skipping_short_circuits() {
    // The error sits before the requested offset: it is the result, and the
    // extractor never waits to reach the offset.
    let items: Vec<Result<&str, &str>> = vec![Ok("a"), Err("boom"), Ok("c"), Ok("d")];
    let src = ScriptedSource::new(items);
    let raised = TryStreamNth::new(src, 3);
    assert_eq!(resolve(raised), Err("boom"));
}

#[test]
fn nth_try_exhausts_before_offset() {
    let items: Vec<Result<u32, ()>> = vec![Ok(1), Ok(2)];
    let src = ScriptedSource::new(items);
    let raised = TryStreamNth::new(src, 5);
    assert_eq!(resolve(raised), Ok(None));
}
