use wave_rs::debounce::Debouncer;

const INTERVAL: u64 = 10;

#[test]
fn stable_level_produces_exactly_one_transition() {
    let mut d = Debouncer::new(false);
    assert!(!d.sample(true, 0, INTERVAL));
    assert!(!d.sample(true, 5, INTERVAL));
    assert!(d.sample(true, 10, INTERVAL));
    assert!(d.level());
    // Staying high afterwards changes nothing more.
    assert!(!d.sample(true, 20, INTERVAL));
    assert!(!d.sample(true, 200, INTERVAL));
    assert!(d.level());
}

#[test]
fn bounce_within_interval_produces_no_transition() {
    let mut d = Debouncer::new(false);
    // The raw signal toggles repeatedly, always within the interval.
    assert!(!d.sample(true, 0, INTERVAL));
    assert!(!d.sample(false, 2, INTERVAL));
    assert!(!d.sample(true, 4, INTERVAL));
    assert!(!d.sample(false, 6, INTERVAL));
    assert!(!d.sample(true, 8, INTERVAL));
    assert!(!d.level());
}

#[test]
fn reversal_restarts_the_pending_window() {
    let mut d = Debouncer::new(false);
    assert!(!d.sample(true, 0, INTERVAL));
    // A reversal at time 5 clears the pending transition...
    assert!(!d.sample(false, 5, INTERVAL));
    // ...so a differing level at 6 must again wait a full interval.
    assert!(!d.sample(true, 6, INTERVAL));
    assert!(!d.sample(true, 12, INTERVAL));
    assert!(!d.level());
    assert!(d.sample(true, 16, INTERVAL));
    assert!(d.level());
}

#[test]
fn release_debounces_like_a_press() {
    let mut d = Debouncer::new(true);
    assert!(!d.sample(false, 100, INTERVAL));
    assert!(d.sample(false, 110, INTERVAL));
    assert!(!d.level());
}
