use diffodil::watch::{Debouncer, WatchAction, WatchEvent, SETTLE_MS};

#[test]
fn settle_time_is_three_hundred_ms() {
    assert_eq!(SETTLE_MS, 300);
}

#[test]
fn burst_of_changes_notifies_once() {
    let mut d = Debouncer::new();
    assert_eq!(d.step(WatchEvent::Changed), WatchAction::Settle { ms: 300 });
    for _ in 0..5 {
        assert_eq!(d.step(WatchEvent::Changed), WatchAction::Wait);
    }
    assert_eq!(d.step(WatchEvent::Settled), WatchAction::Notify);
    assert!(!d.settling);
    assert_eq!(d.step(WatchEvent::Changed), WatchAction::Settle { ms: 300 });
    assert_eq!(d.step(WatchEvent::Settled), WatchAction::Notify);
}

#[test]
fn closed_channel_stops_the_watcher() {
    let mut d = Debouncer::new();
    assert_eq!(d.step(WatchEvent::Closed), WatchAction::Stop);
    let mut d = Debouncer::new();
    d.step(WatchEvent::Changed);
    assert_eq!(d.step(WatchEvent::Closed), WatchAction::Notify);
    assert_eq!(d.step(WatchEvent::Closed), WatchAction::Stop);
}

#[test]
fn settled_without_changes_does_nothing() {
    let mut d = Debouncer::new();
    assert_eq!(d.step(WatchEvent::Settled), WatchAction::Wait);
    assert!(!d.settling);
}
