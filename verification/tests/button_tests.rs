use fluidbox::button::{poll_due, pwr_config_write, Button, PWR_BIT};

const DOWN: u8 = PWR_BIT;
const UP: u8 = 0;

#[test]
fn short_press_is_reported_once() {
    let mut b = Button::new();
    assert!(!b.take_short_press(Some(DOWN), 0));
    assert!(!b.take_short_press(Some(DOWN), 1_000));
    assert!(!b.take_short_press(Some(UP), 500_000));
    assert!(b.take_short_press(Some(UP), 1_000_000));
    assert!(!b.take_short_press(Some(UP), 1_025_000));
    assert!(!b.take_short_press(Some(UP), 1_050_000));
}

#[test]
fn press_of_exactly_the_limit_counts() {
    let mut b = Button::new();
    b.take_short_press(Some(DOWN), 0);
    b.take_short_press(Some(DOWN), 0);
    b.take_short_press(Some(UP), 1_000_000);
    assert!(b.take_short_press(Some(UP), 1_500_999));
}

#[test]
fn long_press_is_not_reported() {
    let mut b = Button::new();
    b.take_short_press(Some(DOWN), 0);
    b.take_short_press(Some(DOWN), 0);
    b.take_short_press(Some(UP), 1_000_000);
    assert!(!b.take_short_press(Some(UP), 1_501_000));
    assert!(!b.take_short_press(Some(UP), 1_600_000));
}

#[test]
fn single_glitch_is_ignored() {
    let mut b = Button::new();
    assert!(!b.take_short_press(Some(DOWN), 0));
    assert!(!b.take_short_press(Some(UP), 25_000));
    assert!(!b.take_short_press(Some(DOWN), 50_000));
    assert!(!b.take_short_press(Some(UP), 75_000));
    assert!(!b.take_short_press(Some(UP), 100_000));
    assert!(!b.take_short_press(Some(UP), 125_000));
}

#[test]
fn failed_read_changes_nothing() {
    let mut b = Button::new();
    b.take_short_press(Some(DOWN), 0);
    assert!(!b.take_short_press(None, 10));
    b.take_short_press(Some(DOWN), 20);
    assert!(!b.take_short_press(None, 30));
    b.take_short_press(Some(UP), 40);
    assert!(b.take_short_press(Some(UP), 50));
}

#[test]
fn other_input_bits_are_ignored() {
    let mut b = Button::new();
    assert!(!b.take_short_press(Some(0xEF), 0));
    assert!(!b.take_short_press(Some(0xEF), 10));
    assert!(!b.take_short_press(Some(0xFF), 20));
    assert!(!b.take_short_press(Some(0xFF), 30));
    assert!(!b.take_short_press(Some(0xEF), 40));
    assert!(b.take_short_press(Some(0x0F), 50));
}

#[test]
fn config_write_sets_only_pwr_bit() {
    assert_eq!(pwr_config_write(0x00), Some(0x10));
    assert_eq!(pwr_config_write(0x0F), Some(0x1F));
    assert_eq!(pwr_config_write(0xFF), None);
    assert_eq!(pwr_config_write(0x10), None);
}

#[test]
fn poll_interval() {
    assert!(poll_due(25_000, 0));
    assert!(!poll_due(24_999, 0));
    assert!(poll_due(1_000_000, 900_000));
    assert!(!poll_due(5, 5));
}

#[test]
fn press_start_follows_debounced_press() {
    let mut b = Button::new();
    assert_eq!(b.press_start(), 0);
    b.take_short_press(Some(DOWN), 100);
    assert_eq!(b.press_start(), 0);
    b.take_short_press(Some(DOWN), 200);
    assert_eq!(b.press_start(), 200);
    b.take_short_press(Some(DOWN), 300);
    assert_eq!(b.press_start(), 200);
    assert!(!b.completes_release(Some(UP)));
    b.take_short_press(Some(UP), 400);
    assert!(b.completes_release(Some(UP)));
    assert!(!b.completes_release(Some(DOWN)));
    assert!(!b.completes_release(None));
}
