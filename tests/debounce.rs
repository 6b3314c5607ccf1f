use tez::debounce::{DebounceOutcome, Debouncer};

#[test]
fn first_notification_forwards() {
    let mut d = Debouncer::new(100);
    assert_eq!(d.notify(5), DebounceOutcome::Forward);
}

#[test]
fn burst_is_coalesced_into_one_timer() {
    let mut d = Debouncer::new(100);
    assert_eq!(d.notify(0), DebounceOutcome::Forward);
    assert_eq!(d.notify(10), DebounceOutcome::ArmTimer(100));
    assert_eq!(d.notify(20), DebounceOutcome::Coalesced);
    assert_eq!(d.notify(99), DebounceOutcome::Coalesced);
    assert_eq!(d.fire(100), DebounceOutcome::Forward);
    assert_eq!(d.fire(100), DebounceOutcome::Coalesced);
    assert_eq!(d.notify(150), DebounceOutcome::ArmTimer(200));
}

#[test]
fn notification_after_interval_forwards_and_disarms() {
    let mut d = Debouncer::new(100);
    assert_eq!(d.notify(0), DebounceOutcome::Forward);
    assert_eq!(d.notify(50), DebounceOutcome::ArmTimer(100));
    assert_eq!(d.notify(100), DebounceOutcome::Forward);
    assert_eq!(d.fire(100), DebounceOutcome::Coalesced);
    assert_eq!(d.notify(250), DebounceOutcome::Forward);
}

#[test]
fn early_expiry_rearms() {
    let mut d = Debouncer::new(100);
    assert_eq!(d.notify(1000), DebounceOutcome::Forward);
    assert_eq!(d.notify(1001), DebounceOutcome::ArmTimer(1100));
    assert_eq!(d.fire(1050), DebounceOutcome::ArmTimer(1100));
    assert_eq!(d.fire(1100), DebounceOutcome::Forward);
}

#[test]
fn forwards_in_a_burst_stay_an_interval_apart() {
    let mut d = Debouncer::new(100);
    let mut forwards = Vec::new();
    let mut timer: Option<u64> = None;
    for now in 0..1000u64 {
        if timer == Some(now) {
            timer = None;
            match d.fire(now) {
                DebounceOutcome::Forward => forwards.push(now),
                DebounceOutcome::ArmTimer(t) => timer = Some(t),
                DebounceOutcome::Coalesced => {}
            }
        }
        if now % 7 == 0 {
            match d.notify(now) {
                DebounceOutcome::Forward => forwards.push(now),
                DebounceOutcome::ArmTimer(t) => timer = Some(t),
                DebounceOutcome::Coalesced => {}
            }
        }
    }
    assert!(forwards.len() >= 9);
    for w in forwards.windows(2) {
        assert!(w[1] >= w[0] + 100);
    }
}

#[test]
fn due_time_saturates() {
    let mut d = Debouncer::new(100);
    assert_eq!(d.notify(u64::MAX - 10), DebounceOutcome::Forward);
    assert_eq!(d.notify(u64::MAX - 5), DebounceOutcome::ArmTimer(u64::MAX));
}
