use io_events::dispatch::{Dispatch, HookCall, HOOK_NAME};
use io_events::queue::ChangeQueue;
use io_events::{FileChange, FileEventType};

fn queue_of(items: &[(&str, FileEventType)]) -> ChangeQueue {
    let mut q = ChangeQueue::new();
    for (p, t) in items {
        q.push(FileChange { path: p.to_string(), event_type: *t });
    }
    q
}

fn args(c: &HookCall) -> (String, String, String) {
    (c.hook.to_string(), c.path.clone(), c.event.to_string())
}

#[test]
fn failed_second_invocation_does_not_stop_the_others() {
    let mut q = queue_of(&[
        ("one", FileEventType::Created),
        ("two", FileEventType::Deleted),
        ("three", FileEventType::RenamedNew),
    ]);
    let mut d = Dispatch::begin_tick(&mut q, true);
    let mut delivered = Vec::new();
    let mut n = 0;
    while let Some(call) = d.next_call() {
        n += 1;
        delivered.push(args(&call));
        d.record_outcome(n != 2);
    }
    assert_eq!(
        delivered,
        vec![
            ("FileChanged".to_string(), "one".to_string(), "CREATED".to_string()),
            ("FileChanged".to_string(), "two".to_string(), "DELETED".to_string()),
            ("FileChanged".to_string(), "three".to_string(), "RENAMED_NEW".to_string()),
        ]
    );
    assert_eq!(d.failures(), 1);
    assert!(q.drain().is_empty());
}

#[test]
fn unavailable_host_keeps_records_queued() {
    let mut q = queue_of(&[("kept", FileEventType::Changed)]);
    let mut d = Dispatch::begin_tick(&mut q, false);
    assert!(d.next_call().is_none());
    let rest = q.drain();
    assert_eq!(rest.len(), 1);
    assert_eq!(rest[0].path, "kept");
}

#[test]
fn empty_queue_gives_no_calls() {
    let mut q = ChangeQueue::new();
    let mut d = Dispatch::begin_tick(&mut q, true);
    assert!(d.next_call().is_none());
    assert_eq!(d.failures(), 0);
}

#[test]
fn outcome_without_a_call_counts_nothing() {
    let mut q = queue_of(&[("a", FileEventType::Unknown)]);
    let mut d = Dispatch::begin_tick(&mut q, true);
    d.record_outcome(false);
    assert_eq!(d.failures(), 0);
    let call = d.next_call().unwrap();
    assert_eq!(args(&call), (HOOK_NAME.to_string(), "a".to_string(), "UNKNOWN".to_string()));
    d.record_outcome(false);
    d.record_outcome(false);
    assert_eq!(d.failures(), 1);
    assert!(d.next_call().is_none());
}
