use jstream_ext::poll::PollOnce;
use jstream_ext::scripted::ScriptedSource;
use jstream_ext::source::Task;
use jstream_ext::try_first::TryStreamFirst;

fn resolve<T, K: Task<T>>(mut task: K) -> T {
    match task.poll() {
        PollOnce::Ready(v) => v,
        PollOnce::Pending => panic!("scripted sources are always ready"),
    }
}

#[test]
fn try_first_test_try_stream_first() {
    let items: Vec<Result<&str, ()>> = vec![Ok("hello!"), Ok("should not show up")];
    let src = ScriptedSource::new(items);
    let raised = TryStreamFirst::new(src);
    assert_eq!(resolve(raised), Ok(Some("hello!")));
}

#[test]
fn try_first_test_try_stream_nothing() {
    let src = ScriptedSource::new(Vec::<Result<(), ()>>::new());
    let raised = TryStreamFirst::new(src);
    assert_eq!(resolve(raised), Ok(None));
}

#[test]
fn try_first_error_up_front() {
    let items: Vec<Result<u32, &str>> = vec![Err("nope"), Ok(4)];
    let src = ScriptedSource::new(items);
    let raised = TryStreamFirst::new(src);
    assert_eq!(resolve(raised), Err("nope"));
}
