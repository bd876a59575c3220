use usbd_human_interface_device::page::Keyboard;
use wave_rs::action::{k, m, Action, Mouse};
use wave_rs::blinky::{blinky_step, is_status_high, led_levels, toggle_status, StatusFlag};
use wave_rs::config::{layout, CC_1, CC_2, CC_MAX, FREQUENCY};
use wave_rs::dma::DmaTimer;
use wave_rs::keys::{KC_A, KC_B, KC_E, KC_T};
use wave_rs::mouse::mouse_writer_step;
use wave_rs::usb_device::USBDeviceHandler;

#[test]
fn keycodes_match_hid_usage_ids() {
    // The keymap carries keyboard keys as plain HID usage ids; they must
    // agree with the usage table the report writer encodes from.
    assert_eq!(KC_A, Keyboard::A as u8);
    assert_eq!(KC_B, Keyboard::B as u8);
    assert_eq!(KC_E, Keyboard::E as u8);
    assert_eq!(KC_T, Keyboard::T as u8);
}

#[test]
fn default_layout_is_the_letter_block() {
    let layers = layout();
    assert_eq!(layers.get_key(0, 0), wave_rs::action::KeyAction::Single(k(KC_A)));
    assert_eq!(layers.get_key(3, 4), wave_rs::action::KeyAction::Single(k(KC_T)));
    assert_eq!(layers.get_current_layer_id(), 0);
}

#[test]
fn action_shortcuts_wrap_their_argument() {
    assert_eq!(k(4), Action::Keyboard(4));
    assert_eq!(m(Mouse::ScrollUp), Action::Mouse(Mouse::ScrollUp));
}

#[test]
fn board_scan_constants_form_a_sound_timer_configuration() {
    let mut timer = DmaTimer::new();
    assert_eq!(timer.configure(FREQUENCY, CC_1, CC_2, CC_MAX), Ok(()));
}

#[test]
fn status_flag_toggles() {
    let mut status = StatusFlag::new();
    assert!(!is_status_high(&status));
    toggle_status(&mut status);
    assert!(is_status_high(&status));
    toggle_status(&mut status);
    assert!(!is_status_high(&status));
}

#[test]
fn led_levels_show_the_counter_in_binary() {
    assert_eq!(led_levels(0), [false, false, false]);
    assert_eq!(led_levels(5), [true, false, true]);
    assert_eq!(led_levels(7), [true, true, true]);
}

#[test]
fn blinky_counter_advances_and_wraps_only_while_high() {
    assert_eq!(blinky_step(false, 3), 0);
    assert_eq!(blinky_step(true, 3), 4);
    assert_eq!(blinky_step(true, 7), 8);
    assert_eq!(blinky_step(true, 8), 1);
}

#[test]
fn usb_handler_tracks_configuration_state() {
    let mut handler = USBDeviceHandler::new();
    assert!(!handler.get_configured());
    handler.configured(true);
    assert!(handler.get_configured());
    handler.reset();
    assert!(!handler.get_configured());
    handler.configured(true);
    handler.addressed(3);
    assert!(!handler.get_configured());
    handler.configured(true);
    handler.enabled(true);
    assert!(!handler.get_configured());
}

#[test]
fn mouse_offset_bounces() {
    assert_eq!(mouse_writer_step(25), -25);
    assert_eq!(mouse_writer_step(-25), 25);
}
