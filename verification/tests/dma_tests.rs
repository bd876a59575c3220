use wave_rs::dma::{
    column_write_masks, ping_pong_half, DmaTimer, ReadDirective, ReadRetryPolicy,
    TimerConfigError,
};

#[test]
fn transient_read_failures_are_retried_within_the_budget() {
    let mut policy = ReadRetryPolicy::new(3);
    assert_eq!(policy.on_read(false), ReadDirective::Retry);
    assert_eq!(policy.on_read(false), ReadDirective::Retry);
    // A delivery clears the failure count...
    assert_eq!(policy.on_read(true), ReadDirective::Process);
    // ...so the budget is available in full again.
    assert_eq!(policy.on_read(false), ReadDirective::Retry);
    assert_eq!(policy.on_read(false), ReadDirective::Retry);
    assert_eq!(policy.on_read(false), ReadDirective::Retry);
    assert_eq!(policy.on_read(false), ReadDirective::Fail);
}

#[test]
fn persistent_read_failures_become_fatal() {
    let mut policy = ReadRetryPolicy::new(0);
    assert_eq!(policy.on_read(false), ReadDirective::Fail);
}

#[test]
fn board_configuration_is_accepted() {
    let mut timer = DmaTimer::new();
    assert_eq!(timer.max_compare_value(), 65535);
    assert_eq!(timer.configure(4000, 500, 1000, 1000), Ok(()));
    timer.start();
    assert_eq!(timer.column_rate(5), 20000);
}

#[test]
fn read_compare_past_period_is_refused_before_start() {
    let mut timer = DmaTimer::new();
    assert_eq!(
        timer.configure(4000, 500, 1001, 1000),
        Err(TimerConfigError::CompareReadAfterMax)
    );
    // The refused configuration must not have been programmed; a sound one
    // is still accepted afterwards.
    assert_eq!(timer.configure(4000, 500, 1000, 1000), Ok(()));
}

#[test]
fn compare_max_beyond_counter_domain_is_refused() {
    let mut timer = DmaTimer::new();
    assert_eq!(
        timer.configure(4000, 500, 1000, 70000),
        Err(TimerConfigError::CompareMaxTooLarge)
    );
}

#[test]
fn write_compare_after_read_compare_is_refused() {
    let mut timer = DmaTimer::new();
    assert_eq!(
        timer.configure(4000, 600, 500, 1000),
        Err(TimerConfigError::CompareWriteAfterRead)
    );
}

#[test]
fn zero_frequency_is_refused() {
    let mut timer = DmaTimer::new();
    assert_eq!(
        timer.configure(0, 500, 1000, 1000),
        Err(TimerConfigError::ZeroFrequency)
    );
}

#[test]
fn write_masks_cycle_twice_through_the_columns() {
    let masks = column_write_masks(5);
    assert_eq!(masks.len(), 10);
    // Column 0: reset lines 1..=4 (high half), set line 0 (low half).
    assert_eq!(masks[0], 0x001E_0001);
    // Column 3: reset mask 0b10111, set bit 0b01000.
    assert_eq!(masks[3], 0x0017_0008);
    // The second half repeats the first.
    for c in 0..5 {
        assert_eq!(masks[c], masks[c + 5]);
    }
}

#[test]
fn each_write_mask_drives_exactly_one_column() {
    let cols = 5u32;
    let masks = column_write_masks(cols);
    for c in 0..cols as usize {
        let set_half = masks[c] & 0xFFFF;
        let reset_half = masks[c] >> 16;
        assert_eq!(set_half, 1 << c);
        for j in 0..cols {
            let line = 1u32 << j;
            assert_eq!(set_half & line != 0, j as usize == c);
            assert_eq!(reset_half & line != 0, j as usize != c);
        }
    }
}

#[test]
fn ping_pong_halves_alternate() {
    assert_eq!(ping_pong_half(0), 0);
    assert_eq!(ping_pong_half(1), 1);
    assert_eq!(ping_pong_half(2), 0);
    assert_ne!(ping_pong_half(7), ping_pong_half(8));
}
