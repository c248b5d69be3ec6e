use mavkit::watch::Observed;
use mavkit::watch::Watchable;

#[test]
fn observers_subscribed_before_publishes_see_final_value() {
    // Two independent observers subscribed before three publishes each
    // observe the final published value; a slow observer that checks only
    // once sees the latest value, not each intermediate one.
    let mut w: Watchable<u32> = Watchable::new(0);
    let mut first = w.subscribe();
    let mut second = w.subscribe();

    w.publish(1);
    w.publish(2);
    w.publish(3);

    match first.poll(&w) {
        Observed::Changed(v) => assert_eq!(*v, 3),
        _ => panic!("first observer expected a change"),
    }
    match second.poll(&w) {
        Observed::Changed(v) => assert_eq!(*v, 3),
        _ => panic!("second observer expected a change"),
    }
    // Nothing unseen remains for either observer.
    assert!(matches!(first.poll(&w), Observed::Pending));
    assert!(matches!(second.poll(&w), Observed::Pending));
}

#[test]
fn has_changed_tracks_unseen_publications() {
    let mut w: Watchable<&str> = Watchable::new("start");
    let mut o = w.subscribe();
    assert!(!o.has_changed(&w));
    w.publish("next");
    assert!(o.has_changed(&w));
    match o.poll(&w) {
        Observed::Changed(v) => assert_eq!(*v, "next"),
        _ => panic!("expected a change"),
    }
    assert!(!o.has_changed(&w));
}

#[test]
fn current_peeks_without_marking_seen() {
    let mut w: Watchable<u32> = Watchable::new(7);
    let mut o = w.subscribe();
    w.publish(8);
    assert_eq!(*w.current(), 8);
    // Peeking did not mark the publication seen.
    assert!(o.has_changed(&w));
    assert!(matches!(o.poll(&w), Observed::Changed(v) if *v == 8));
}

#[test]
fn closing_resolves_pending_waits() {
    let mut w: Watchable<u32> = Watchable::new(1);
    let mut o = w.subscribe();
    w.publish(2);
    w.close();
    // The unseen value is still drained first, then end of stream.
    assert!(matches!(o.poll(&w), Observed::Changed(v) if *v == 2));
    assert!(matches!(o.poll(&w), Observed::Closed));
    assert!(matches!(o.poll(&w), Observed::Closed));
}

#[test]
fn late_subscriber_starts_caught_up() {
    let mut w: Watchable<u32> = Watchable::new(0);
    w.publish(5);
    let mut late = w.subscribe();
    // The value already in the slot counts as seen for a new observer.
    assert!(!late.has_changed(&w));
    assert!(matches!(late.poll(&w), Observed::Pending));
    w.publish(6);
    assert!(matches!(late.poll(&w), Observed::Changed(v) if *v == 6));
}
