use sync_client::watcher::{triggers_sync, Debouncer, FsEventKind};

const SEC: u128 = 1_000_000_000;

#[test]
fn only_content_events_trigger() {
    assert!(triggers_sync(FsEventKind::Create));
    assert!(triggers_sync(FsEventKind::Modify));
    assert!(triggers_sync(FsEventKind::Remove));
    assert!(!triggers_sync(FsEventKind::Access));
    assert!(!triggers_sync(FsEventKind::Any));
    assert!(!triggers_sync(FsEventKind::Other));
}

#[test]
fn a_change_waits_for_the_delay() {
    let mut d = Debouncer::new(5);
    assert!(!d.should_trigger(1, 10 * SEC));
    assert!(!d.due(1, 12 * SEC));
    assert!(!d.take_due(1, 15 * SEC - 1));
    assert!(d.due(1, 15 * SEC));
    assert!(d.take_due(1, 15 * SEC));
    assert!(!d.take_due(1, 20 * SEC));
    assert!(!d.due(2, 20 * SEC));
}

#[test]
fn a_further_change_restarts_the_delay() {
    let mut d = Debouncer::new(5);
    assert!(!d.should_trigger(1, 0));
    assert!(!d.should_trigger(1, 4 * SEC));
    assert!(!d.take_due(1, 5 * SEC));
    assert!(!d.take_due(1, 9 * SEC - 1));
    assert!(d.take_due(1, 9 * SEC));
}

#[test]
fn forgetting_drops_the_change() {
    let mut d = Debouncer::new(5);
    d.note_change(1, 0);
    d.note_change(2, 0);
    d.forget(1);
    assert!(!d.due(1, 10 * SEC));
    assert!(d.due(2, 10 * SEC));
    d.forget_all();
    assert!(!d.due(2, 10 * SEC));
}

#[test]
fn zero_delay_fires_at_once() {
    let mut d = Debouncer::new(0);
    assert!(d.should_trigger(1, 3));
    assert!(!d.due(1, 3));
    assert!(d.should_trigger(1, 3));
}
