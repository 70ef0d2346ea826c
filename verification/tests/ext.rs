use jstream_ext::ext::{JStreamExt, JTryStreamExt};
use jstream_ext::poll::{PollNext, PollOnce};
use jstream_ext::scripted::{CheckedSumHandler, ReadyTask, ScriptedSource, WrappingSumHandler};
use jstream_ext::source::{Source, Task};
use std::collections::hash_map::DefaultHasher;
use std::hash::{Hash, Hasher};

fn fp(s: &&str) -> u64 {
    let mut h = DefaultHasher::new();
    s.hash(&mut h);
    h.finish()
}

fn try_next<O, E, S: Source<Result<O, E>>>(s: &mut S) -> Result<Option<O>, E> {
    match s.poll_next() {
        PollNext::Item(Ok(v)) => Ok(Some(v)),
        PollNext::Item(Err(e)) => Err(e),
        PollNext::Done => Ok(None),
        PollNext::Pending => panic!("scripted sources are always ready"),
    }
}

fn resolve<T, K: Task<T>>(mut task: K) -> T {
    match task.poll() {
        PollOnce::Ready(v) => v,
        PollOnce::Pending => panic!("scripted sources are always ready"),
    }
}

#[test]
fn ext_chains_try_dedup_into_fuse_on_fail() {
    // Deduplicate, then fuse: after the error surfaces, the composed
    // sequence is permanently exhausted and safe to keep pulling.
    let items: Vec<Result<&str, &str>> =
        vec![Ok("hello"), Ok("hello"), Ok("abc z"), Err("stop"), Ok("abc")];
    let mut chained = ScriptedSource::new(items).try_dedup(fp).fuse_on_fail();
    assert_eq!(try_next(&mut chained), Ok(Some("hello")));
    assert_eq!(try_next(&mut chained), Ok(Some("abc z")));
    assert_eq!(try_next(&mut chained), Err("stop"));
    assert_eq!(try_next(&mut chained), Ok(None));
    assert_eq!(try_next(&mut chained), Ok(None));
}

#[test]
fn ext_first_and_nth() {
    let first = ScriptedSource::new(vec![7u32, 8, 9]).first();
    assert_eq!(resolve(first), Some(7));
    let third = ScriptedSource::new(vec![7u32, 8, 9]).nth(2);
    assert_eq!(resolve(third), Some(9));
    let past = ScriptedSource::new(vec![7u32, 8, 9]).nth(3);
    assert_eq!(resolve(past), None);
}

#[test]
fn ext_try_first_and_try_nth() {
    let items: Vec<Result<u32, &str>> = vec![Ok(1), Err("e"), Ok(3)];
    let first = ScriptedSource::new(items.clone()).try_first();
    assert_eq!(resolve(first), Ok(Some(1)));
    let second = ScriptedSource::new(items).try_nth(1);
    assert_eq!(resolve(second), Err("e"));
}

#[test]
fn ext_dedup_and_filter_map_and_fold() {
    let deduped = ScriptedSource::new(vec!["a", "a", "b"]).dedup(fp);
    let collected = {
        let mut out: Vec<&str> = Vec::new();
        let mut s = deduped;
        loop {
            match s.poll_next() {
                PollNext::Item(v) => out.push(v),
                PollNext::Done => break,
                PollNext::Pending => panic!("scripted sources are always ready"),
            }
        }
        out
    };
    assert_eq!(collected, vec!["a", "b"]);

    let items: Vec<Result<u32, ()>> = vec![Ok(2), Ok(3), Ok(4)];
    let mut evens = ScriptedSource::new(items).try_filter_map_ok(
        |v: u32| if v % 2 == 0 { Some(v) } else { None },
    );
    assert_eq!(try_next(&mut evens), Ok(Some(2)));
    assert_eq!(try_next(&mut evens), Ok(Some(4)));
    assert_eq!(try_next(&mut evens), Ok(None));

    let summed = ScriptedSource::new(vec![1u64, 2, 3]).fold_mut(0u64, WrappingSumHandler);
    assert_eq!(resolve(summed), 6);
}

#[test]
fn ext_try_fold_mut_sums_successes() {
    let items: Vec<Result<u64, ()>> = vec![Ok(1), Ok(2), Ok(3)];
    let fold = ScriptedSource::new(items).try_fold_mut(0u64, CheckedSumHandler);
    assert_eq!(resolve(fold), Ok(6));
}

#[test]
fn ready_task_delivers_its_value_once() {
    let task = ReadyTask::new(99u32);
    assert_eq!(resolve(task), 99);
}
