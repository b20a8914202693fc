use io_events::dispatch::ingest;
use io_events::normalize::{RawEvent, RawKind, RenameMode};
use io_events::queue::ChangeQueue;
use io_events::{FileChange, FileEventType};

fn change(path: &str, event_type: FileEventType) -> FileChange {
    FileChange { path: path.to_string(), event_type }
}

fn paths(changes: &[FileChange]) -> Vec<String> {
    changes.iter().map(|c| c.path.clone()).collect()
}

#[test]
fn drain_returns_pushes_in_order() {
    let mut q = ChangeQueue::new();
    q.push(change("e1", FileEventType::Created));
    q.push(change("e2", FileEventType::Changed));
    q.push(change("e3", FileEventType::Deleted));
    let out = q.drain();
    assert_eq!(paths(&out), vec!["e1", "e2", "e3"]);
    assert_eq!(out[1].event_type, FileEventType::Changed);
    assert!(q.drain().is_empty());
}

#[test]
fn pop_on_empty_queue_returns_none() {
    let mut q = ChangeQueue::new();
    assert!(q.pop().is_none());
    q.push(change("a", FileEventType::Created));
    assert_eq!(q.pop().unwrap().path, "a");
    assert!(q.pop().is_none());
}

#[test]
fn clear_empties_the_queue() {
    let mut q = ChangeQueue::new();
    q.push_all(vec![change("a", FileEventType::Created), change("b", FileEventType::Deleted)]);
    q.clear();
    assert!(q.drain().is_empty());
}

#[test]
fn push_all_appends_behind_queued_records() {
    let mut q = ChangeQueue::new();
    q.push(change("first", FileEventType::Created));
    q.push_all(vec![change("second", FileEventType::Changed), change("third", FileEventType::Unknown)]);
    assert_eq!(paths(&q.drain()), vec!["first", "second", "third"]);
}

#[test]
fn interleaved_producers_lose_and_duplicate_nothing() {
    let producers: usize = 4;
    let per_producer: usize = 25;
    let mut q = ChangeQueue::new();
    for k in 0..per_producer {
        for p in 0..producers {
            q.push(change(&format!("p{}/e{}", p, k), FileEventType::Changed));
        }
    }
    let mut out = paths(&q.drain());
    assert_eq!(out.len(), producers * per_producer);
    for p in 0..producers {
        let mine: Vec<String> = out.iter().filter(|s| s.starts_with(&format!("p{}/", p))).cloned().collect();
        let expected: Vec<String> = (0..per_producer).map(|k| format!("p{}/e{}", p, k)).collect();
        assert_eq!(mine, expected);
    }
    out.sort();
    out.dedup();
    assert_eq!(out.len(), producers * per_producer);
}

#[test]
fn ingest_queues_normalized_records() {
    let mut q = ChangeQueue::new();
    q.push(change("earlier", FileEventType::Deleted));
    let ev = RawEvent {
        kind: RawKind::Rename(RenameMode::Both),
        paths: vec!["a\\old".to_string(), "a\\new".to_string()],
    };
    ingest(&mut q, &ev);
    let access = RawEvent { kind: RawKind::Access, paths: vec!["a\\read".to_string()] };
    ingest(&mut q, &access);
    let out = q.drain();
    assert_eq!(paths(&out), vec!["earlier", "a/old", "a/new"]);
    assert_eq!(out[1].event_type, FileEventType::RenamedOld);
    assert_eq!(out[2].event_type, FileEventType::RenamedNew);
}
