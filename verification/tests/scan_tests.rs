use wave_rs::action::{Action, HoldTapAction, HoldTapConfig, KeyAction};
use wave_rs::layers::{Layer, Layers};
use wave_rs::scan::Scanner;

const INTERVAL: u64 = 1;
const TIMEOUT: u64 = 100;

/// One pass worth of row bits: bit `r` of entry `c` is the raw level of
/// point `(r, c)`.
fn bits(pressed: &[(usize, usize)]) -> [u32; 5] {
    let mut b = [0u32; 5];
    for &(r, c) in pressed {
        b[c] |= 1 << r;
    }
    b
}

fn grid_with(cells: &[(usize, usize, KeyAction)]) -> Layer<4, 5> {
    let mut grid = [[KeyAction::NoOp; 5]; 4];
    for &(r, c, k) in cells {
        grid[r][c] = k;
    }
    Layer::new(grid)
}

#[test]
fn single_key_press_and_release() {
    let layers = Layers::new([grid_with(&[(0, 0, KeyAction::Single(Action::Keyboard(4)))])]);
    let mut scanner: Scanner<1, 4, 5> = Scanner::new(layers, INTERVAL, TIMEOUT);

    // The raw press must first survive the debounce interval.
    let report = scanner.process_pass(&bits(&[(0, 0)]), 0);
    assert!(report.keys.is_empty());
    let report = scanner.process_pass(&bits(&[(0, 0)]), 1);
    assert_eq!(report.keys, vec![((0, 0), Action::Keyboard(4))]);
    assert!(!report.overflow);

    // Held stable, the key stays in the set.
    let report = scanner.process_pass(&bits(&[(0, 0)]), 2);
    assert_eq!(report.keys, vec![((0, 0), Action::Keyboard(4))]);

    // The release debounces the same way.
    let report = scanner.process_pass(&bits(&[]), 3);
    assert_eq!(report.keys, vec![((0, 0), Action::Keyboard(4))]);
    let report = scanner.process_pass(&bits(&[]), 4);
    assert!(report.keys.is_empty());
    assert!(!report.overflow);
}

#[test]
fn momentary_layer_shadows_and_reverts() {
    let base = grid_with(&[
        (1, 2, KeyAction::Layer(1)),
        (0, 0, KeyAction::Single(Action::Keyboard(4))),
    ]);
    let mut upper_cells = [[KeyAction::Transparent; 5]; 4];
    upper_cells[0][0] = KeyAction::Single(Action::Keyboard(5));
    let upper = Layer::new(upper_cells);
    let layers = Layers::new([base, upper]);
    let mut scanner: Scanner<2, 4, 5> = Scanner::new(layers, INTERVAL, TIMEOUT);

    // Hold the layer key; once settled it activates layer 1.
    scanner.process_pass(&bits(&[(1, 2)]), 0);
    let report = scanner.process_pass(&bits(&[(1, 2)]), 1);
    assert!(report.keys.is_empty());
    assert_eq!(scanner.layer_stack().get_current_layer_id(), 1);

    // Pressing (0, 0) now resolves through layer 1.
    scanner.process_pass(&bits(&[(1, 2), (0, 0)]), 2);
    let report = scanner.process_pass(&bits(&[(1, 2), (0, 0)]), 3);
    assert_eq!(report.keys, vec![((0, 0), Action::Keyboard(5))]);

    // Releasing everything reverts to the base layer.
    scanner.process_pass(&bits(&[]), 4);
    let report = scanner.process_pass(&bits(&[]), 5);
    assert!(report.keys.is_empty());
    assert_eq!(scanner.layer_stack().get_current_layer_id(), 0);

    // The same key now resolves through layer 0 again.
    scanner.process_pass(&bits(&[(0, 0)]), 6);
    let report = scanner.process_pass(&bits(&[(0, 0)]), 7);
    assert_eq!(report.keys, vec![((0, 0), Action::Keyboard(4))]);
}

#[test]
fn rollover_beyond_budget_is_dropped_and_flagged() {
    let layers = wave_rs::config::layout();
    let mut scanner: Scanner<1, 4, 5> = Scanner::new(layers, INTERVAL, TIMEOUT);

    // All twenty keys go down at once.
    let all = bits(
        &(0..4).flat_map(|r| (0..5).map(move |c| (r, c))).collect::<Vec<_>>(),
    );
    scanner.process_pass(&all, 0);
    let report = scanner.process_pass(&all, 1);

    // Only the first ten points in row-major order stay; the rest are
    // dropped and flagged, not silently accepted.
    assert_eq!(report.keys.len(), 10);
    assert!(report.overflow);
    let expected: Vec<((u8, u8), Action)> = (0..10)
        .map(|i| (((i / 5) as u8, (i % 5) as u8), Action::Keyboard(4 + i as u8)))
        .collect();
    assert_eq!(report.keys, expected);

    // Releasing everything empties the set and clears the signal.
    scanner.process_pass(&bits(&[]), 2);
    let report = scanner.process_pass(&bits(&[]), 3);
    assert!(report.keys.is_empty());
    assert!(!report.overflow);
}

#[test]
fn default_layer_switch_persists_after_release() {
    let base = grid_with(&[(0, 0, KeyAction::DefaultLayer(1))]);
    let mut upper_cells = [[KeyAction::Transparent; 5]; 4];
    upper_cells[0][1] = KeyAction::Single(Action::Keyboard(6));
    let upper = Layer::new(upper_cells);
    let layers = Layers::new([base, upper]);
    let mut scanner: Scanner<2, 4, 5> = Scanner::new(layers, INTERVAL, TIMEOUT);

    scanner.process_pass(&bits(&[(0, 0)]), 0);
    scanner.process_pass(&bits(&[(0, 0)]), 1);
    assert_eq!(scanner.layer_stack().get_current_layer_id(), 1);

    // Unlike a momentary layer, the switch survives the release.
    scanner.process_pass(&bits(&[]), 2);
    scanner.process_pass(&bits(&[]), 3);
    assert_eq!(scanner.layer_stack().get_current_layer_id(), 1);
}

fn holdtap(config: HoldTapConfig) -> KeyAction {
    KeyAction::HoldTap(HoldTapAction {
        hold: Action::Keyboard(10),
        tap: Action::Keyboard(11),
        config,
    })
}

#[test]
fn holdtap_released_early_emits_tap_once() {
    let layers = Layers::new([grid_with(&[(0, 0, holdtap(HoldTapConfig::Default))])]);
    let mut scanner: Scanner<1, 4, 5> = Scanner::new(layers, INTERVAL, TIMEOUT);

    scanner.process_pass(&bits(&[(0, 0)]), 0);
    let report = scanner.process_pass(&bits(&[(0, 0)]), 1);
    // Still pending: nothing is emitted yet.
    assert!(report.keys.is_empty());

    scanner.process_pass(&bits(&[]), 2);
    // The release before the timeout emits the tap action for one pass.
    let report = scanner.process_pass(&bits(&[]), 3);
    assert_eq!(report.keys, vec![((0, 0), Action::Keyboard(11))]);
    let report = scanner.process_pass(&bits(&[]), 4);
    assert!(report.keys.is_empty());
}

#[test]
fn holdtap_held_past_timeout_emits_hold() {
    let layers = Layers::new([grid_with(&[(0, 0, holdtap(HoldTapConfig::Default))])]);
    let mut scanner: Scanner<1, 4, 5> = Scanner::new(layers, INTERVAL, TIMEOUT);

    scanner.process_pass(&bits(&[(0, 0)]), 0);
    let report = scanner.process_pass(&bits(&[(0, 0)]), 1);
    assert!(report.keys.is_empty());
    let report = scanner.process_pass(&bits(&[(0, 0)]), 50);
    assert!(report.keys.is_empty());

    // Pressed at pass time 1, so the timeout elapses at 101.
    let report = scanner.process_pass(&bits(&[(0, 0)]), 101);
    assert_eq!(report.keys, vec![((0, 0), Action::Keyboard(10))]);

    // Releasing after the hold resolution emits no tap.
    scanner.process_pass(&bits(&[]), 102);
    let report = scanner.process_pass(&bits(&[]), 103);
    assert!(report.keys.is_empty());
}

#[test]
fn hold_on_other_key_press_resolves_early() {
    let layers = Layers::new([grid_with(&[
        (0, 0, holdtap(HoldTapConfig::HoldOnOtherKeyPress)),
        (0, 1, KeyAction::Single(Action::Keyboard(5))),
    ])]);
    let mut scanner: Scanner<1, 4, 5> = Scanner::new(layers, INTERVAL, TIMEOUT);

    scanner.process_pass(&bits(&[(0, 0)]), 0);
    let report = scanner.process_pass(&bits(&[(0, 0)]), 1);
    assert!(report.keys.is_empty());

    // Another key's press, long before the timeout, resolves the hold.
    scanner.process_pass(&bits(&[(0, 0), (0, 1)]), 2);
    let report = scanner.process_pass(&bits(&[(0, 0), (0, 1)]), 3);
    assert_eq!(
        report.keys,
        vec![((0, 0), Action::Keyboard(10)), ((0, 1), Action::Keyboard(5))]
    );
}

#[test]
fn permissive_hold_resolves_on_other_key_release() {
    let layers = Layers::new([grid_with(&[
        (0, 0, holdtap(HoldTapConfig::PermissiveHold)),
        (0, 1, KeyAction::Single(Action::Keyboard(5))),
    ])]);
    let mut scanner: Scanner<1, 4, 5> = Scanner::new(layers, INTERVAL, TIMEOUT);

    scanner.process_pass(&bits(&[(0, 0)]), 0);
    scanner.process_pass(&bits(&[(0, 0)]), 1);

    // Another key's press alone does not resolve a permissive hold...
    scanner.process_pass(&bits(&[(0, 0), (0, 1)]), 2);
    let report = scanner.process_pass(&bits(&[(0, 0), (0, 1)]), 3);
    assert_eq!(report.keys, vec![((0, 1), Action::Keyboard(5))]);

    // ...but its release does.
    scanner.process_pass(&bits(&[(0, 0)]), 4);
    let report = scanner.process_pass(&bits(&[(0, 0)]), 5);
    assert_eq!(report.keys, vec![((0, 0), Action::Keyboard(10))]);
}

#[test]
fn first_momentary_holder_wins() {
    let base = grid_with(&[
        (0, 0, KeyAction::Layer(1)),
        (0, 1, KeyAction::Layer(2)),
    ]);
    let mut upper_cells = [[KeyAction::Transparent; 5]; 4];
    upper_cells[2][2] = KeyAction::Single(Action::Keyboard(6));
    let upper = Layer::new(upper_cells);
    let top = Layer::new([[KeyAction::Transparent; 5]; 4]);
    let layers = Layers::new([base, upper, top]);
    let mut scanner: Scanner<3, 4, 5> = Scanner::new(layers, INTERVAL, TIMEOUT);

    // Hold the first layer key, then a second one: the second is ignored
    // while the first is held.
    scanner.process_pass(&bits(&[(0, 0)]), 0);
    scanner.process_pass(&bits(&[(0, 0)]), 1);
    assert_eq!(scanner.layer_stack().get_current_layer_id(), 1);
    scanner.process_pass(&bits(&[(0, 0), (0, 1)]), 2);
    scanner.process_pass(&bits(&[(0, 0), (0, 1)]), 3);
    assert_eq!(scanner.layer_stack().get_current_layer_id(), 1);

    // Releasing a key that holds no layer changes nothing; releasing the
    // holder reverts.
    scanner.process_pass(&bits(&[(0, 0)]), 4);
    scanner.process_pass(&bits(&[(0, 0)]), 5);
    assert_eq!(scanner.layer_stack().get_current_layer_id(), 1);
    scanner.process_pass(&bits(&[]), 6);
    scanner.process_pass(&bits(&[]), 7);
    assert_eq!(scanner.layer_stack().get_current_layer_id(), 0);
}

#[test]
fn out_of_range_layer_binding_is_ignored() {
    let layers = Layers::new([grid_with(&[
        (0, 0, KeyAction::Layer(7)),
        (0, 1, KeyAction::Single(Action::Keyboard(5))),
    ])]);
    let mut scanner: Scanner<1, 4, 5> = Scanner::new(layers, INTERVAL, TIMEOUT);

    scanner.process_pass(&bits(&[(0, 0)]), 0);
    scanner.process_pass(&bits(&[(0, 0)]), 1);
    // Fail closed: the layer index stays where it was and scanning goes on.
    assert_eq!(scanner.layer_stack().get_current_layer_id(), 0);
    scanner.process_pass(&bits(&[(0, 0), (0, 1)]), 2);
    let report = scanner.process_pass(&bits(&[(0, 0), (0, 1)]), 3);
    assert_eq!(report.keys, vec![((0, 1), Action::Keyboard(5))]);
}
