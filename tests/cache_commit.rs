use image_sieve::cache::{CacheKey, ImageCache, LoadStep};
use image_sieve::commit::{CommitMonitor, CommitProgress, CommitTask, FileOutcome};

fn key(p: &str) -> CacheKey {
    CacheKey { path: String::from(p), modified: 1 }
}

#[test]
fn load_twice_decodes_once() {
    let mut c: ImageCache<u32> = ImageCache::new(4);
    let mut decodes = 0;
    if c.load(&key("a")) == LoadStep::Decode {
        decodes += 1;
        c.complete(key("a"), 7);
    }
    assert_eq!(c.load(&key("a")), LoadStep::Hit);
    assert_eq!(decodes, 1);
    assert_eq!(c.get(&key("a")), Some(&7));
}

#[test]
fn changed_file_is_a_new_key() {
    let mut c: ImageCache<u32> = ImageCache::new(4);
    assert_eq!(c.load(&key("a")), LoadStep::Decode);
    c.complete(key("a"), 1);
    let newer = CacheKey { path: String::from("a"), modified: 2 };
    assert_eq!(c.load(&newer), LoadStep::Decode);
    assert_eq!(c.get(&newer), None);
}

#[test]
fn repeated_prefetch_claims_once_and_all_see_one_entry() {
    let mut c: ImageCache<u32> = ImageCache::new(4);
    let claims: usize = (0..5).filter(|_| c.prefetch(&key("b"))).count();
    assert_eq!(claims, 1);
    // A load during the decode waits rather than decoding again.
    assert_eq!(c.load(&key("b")), LoadStep::Wait);
    assert_eq!(c.get(&key("b")), None);
    c.complete(key("b"), 9);
    assert_eq!(c.get(&key("b")), Some(&9));
    assert!(!c.prefetch(&key("b")));
    assert_eq!(c.len(), 1);
}

#[test]
fn capacity_is_never_exceeded_and_oldest_ready_is_evicted() {
    let mut c: ImageCache<u32> = ImageCache::new(2);
    for (i, name) in ["a", "b", "c", "d"].iter().enumerate() {
        assert_eq!(c.load(&key(name)), LoadStep::Decode);
        c.complete(key(name), i as u32);
        assert!(c.len() <= c.capacity());
    }
    assert_eq!(c.len(), 2);
    assert_eq!(c.get(&key("a")), None);
    assert_eq!(c.get(&key("c")), Some(&2));
    // Using "c" makes "d" the least recent, so "d" goes first.
    assert_eq!(c.load(&key("c")), LoadStep::Hit);
    assert_eq!(c.load(&key("e")), LoadStep::Decode);
    assert_eq!(c.get(&key("d")), None);
    assert_eq!(c.get(&key("c")), Some(&2));
}

#[test]
fn full_of_pending_claims_decodes_uncached() {
    let mut c: ImageCache<u32> = ImageCache::new(1);
    assert!(c.prefetch(&key("a")));
    assert_eq!(c.load(&key("b")), LoadStep::Uncached);
    assert!(!c.prefetch(&key("b")));
    assert_eq!(c.len(), 1);
}

#[test]
fn invalidate_forgets_everything() {
    let mut c: ImageCache<u32> = ImageCache::new(3);
    c.complete(key("a"), 1);
    assert_eq!(c.get(&key("a")), Some(&1));
    c.invalidate();
    assert_eq!(c.len(), 0);
    assert_eq!(c.get(&key("a")), None);
    assert_eq!(key("x").duplicate().path, "x");
}

#[test]
fn commit_with_one_failing_file_reports_and_completes() {
    let mut task = CommitTask::new(&vec![true, true, true]);
    let mut monitor = CommitMonitor::new();
    monitor.start();
    let outcomes = [FileOutcome::Done, FileOutcome::Failed, FileOutcome::Done];
    let mut stream = Vec::new();
    let mut k = 0;
    while let Some(_) = task.next_item() {
        let p = task.record(outcomes[k]);
        monitor.receive(p);
        assert!(monitor.running);
        stream.push(p);
        k += 1;
    }
    let last = task.finish().unwrap();
    monitor.receive(last);
    stream.push(last);
    assert_eq!(
        stream,
        vec![
            CommitProgress::Step(0),
            CommitProgress::ItemFailed(1),
            CommitProgress::Step(2),
            CommitProgress::Completed
        ]
    );
    assert_eq!((task.successes(), task.failures()), (2, 1));
    assert!(!monitor.running);
    assert!(task.finish().is_none());
}

#[test]
fn commit_handles_only_taken_over_items() {
    let mut task = CommitTask::new(&vec![false, true, false, true]);
    assert_eq!(task.next_item(), Some(1));
    assert_eq!(task.record(FileOutcome::Done), CommitProgress::Step(1));
    assert_eq!(task.next_item(), Some(3));
    assert!(task.finish().is_none());
}

#[test]
fn unusable_destination_stops_the_commit() {
    let mut task = CommitTask::new(&vec![true, true]);
    let mut monitor = CommitMonitor::new();
    monitor.start();
    let p = task.record(FileOutcome::DestinationUnusable);
    assert_eq!(p, CommitProgress::Aborted);
    monitor.receive(p);
    assert!(!monitor.running);
    assert_eq!(task.next_item(), None);
    assert!(task.finish().is_none());
}

#[test]
fn empty_selection_completes_at_once() {
    let mut task = CommitTask::new(&vec![false, false]);
    assert_eq!(task.next_item(), None);
    assert_eq!(task.finish(), Some(CommitProgress::Completed));
}
