//! The scan orchestrator.
//!
//! Once per delivered matrix pass the orchestrator debounces every matrix
//! point, applies the resulting edges to the layer and hold-tap state, and
//! rebuilds the bounded pressed-key set: debounce, resolve, report.
//!
//! Matrix points are stored row-major: point `(row, col)` lives at flat
//! index `row * N + col`. One pass delivers one `u32` of row bits per
//! column; bit `r` of column `c`'s word is the raw level of point `(r, c)`.

use vstd::prelude::*;

use crate::action::{Action, HoldTapAction, HoldTapConfig, KeyAction};
use crate::config::NKRO_MAX_KEYS;
use crate::debounce::{debounce_step, Debouncer};
use crate::layers::{resolve_in, Layers};
use crate::pressed::{key_buffer, key_buffer_new, key_buffer_push};

verus! {

/// What one matrix point currently contributes to the report.
#[derive(Debug, Clone, Copy, PartialEq, Eq, Structural)]
pub enum HeldState {
    /// The key is up.
    Released,
    /// The key is down but emits nothing (`NoOp` cells, layer keys).
    Silent,
    /// The key is down and emits this action.
    Emitting(Action),
    /// A hold-tap key is down and still undecided; the payload is the
    /// binding and the press time.
    HoldTapPending(HoldTapAction, u64),
}

/// Which key holds a momentary layer active, and which layer to restore on
/// its release.
#[derive(Debug, Clone, Copy, PartialEq, Eq, Structural)]
pub struct MomentaryHold {
    pub row: usize,
    pub col: usize,
    pub previous_layer: usize,
}

/// What one pass hands to the report writer: up to `NKRO_MAX_KEYS`
/// coordinate/action pairs, plus the overflow signal raised when presses
/// beyond the budget had to be dropped.
#[derive(Debug, PartialEq)]
pub struct ScanReport {
    pub keys: Vec<((u8, u8), Action)>,
    pub overflow: bool,
}

/// The raw level of row `row` inside one column's row-bit word.
pub open spec fn row_bit(bits: u32, row: u32) -> bool {
    (bits >> row) & 1u32 == 1u32
}

/// The resolver-facing model of the orchestrator: the keymap stack, the
/// active layer, every point's held state, and the momentary-layer holder
/// as `(row, col, previous layer)`.
pub struct ResolverState {
    pub stack: Seq<Seq<Seq<KeyAction>>>,
    pub current: int,
    pub slots: Seq<HeldState>,
    pub hold: Option<(int, int, int)>,
}

/// The momentary-layer holder seen as plain integers.
pub open spec fn hold_view(hold: Option<MomentaryHold>) -> Option<(int, int, int)> {
    match hold {
        Some(h) => Some((h.row as int, h.col as int, h.previous_layer as int)),
        None => None,
    }
}

/// The model of a keymap together with its per-point scan state.
pub open spec fn resolver_state<const L: usize, const M: usize, const N: usize>(
    layers: Layers<L, M, N>,
    slots: Seq<HeldState>,
    hold: Option<MomentaryHold>,
) -> ResolverState {
    ResolverState {
        stack: layers.stack(),
        current: layers.current(),
        slots: slots,
        hold: hold_view(hold),
    }
}

/// Row-major flat index of a matrix point.
pub open spec fn flat_index(cols: int, row: int, col: int) -> int {
    row * cols + col
}

/// A flat index decomposes into in-range coordinates.
pub proof fn lemma_flat_to_point(cols: int, rows: int, i: int)
    by (nonlinear_arith)
    requires
        cols >= 1,
        rows >= 1,
        0 <= i < rows * cols,
    ensures
        0 <= i / cols < rows,
        0 <= i % cols < cols,
        i == flat_index(cols, i / cols, i % cols),
{
}

/// In-range coordinates land on an in-range flat index, and the
/// decomposition inverts the composition.
pub proof fn lemma_point_to_flat(cols: int, rows: int, row: int, col: int)
    by (nonlinear_arith)
    requires
        cols >= 1,
        0 <= row < rows,
        0 <= col < cols,
    ensures
        0 <= flat_index(cols, row, col) < rows * cols,
        flat_index(cols, row, col) / cols == row,
        flat_index(cols, row, col) % cols == col,
{
}

/// The debounce edges of one pass: walking the first `count` points in flat
/// order, every point whose settled level flips contributes
/// `(row, col, new level)`.
pub open spec fn scan_edges(
    debs: Seq<Debouncer>,
    bits: Seq<u32>,
    now: u64,
    interval: u64,
    cols: int,
    count: int,
) -> Seq<(usize, usize, bool)>
    decreases count,
{
    if count <= 0 {
        Seq::empty()
    } else {
        let i = count - 1;
        let r = i / cols;
        let c = i % cols;
        let st = debounce_step(
            debs[i].settled_level(),
            debs[i].pending_since(),
            row_bit(bits[c], r as u32),
            now,
            interval,
        );
        scan_edges(debs, bits, now, interval, cols, count - 1) + if st.2 {
            seq![(r as usize, c as usize, st.0)]
        } else {
            Seq::<(usize, usize, bool)>::empty()
        }
    }
}

/// Debounces every matrix point against one pass of row bits and collects
/// the settled-level edges in flat order.
#[verifier::loop_isolation(false)]
fn debounce_flat<const M: usize, const N: usize>(
    debs: &mut Vec<Debouncer>,
    row_bits: &[u32; N],
    now: u64,
    interval: u64,
) -> (edges: Vec<(usize, usize, bool)>)
    requires
        M >= 1,
        N >= 1,
        M <= 32,
        (M as int) * (N as int) <= usize::MAX as int,
        old(debs)@.len() == (M as int) * (N as int),
    ensures
        final(debs)@.len() == old(debs)@.len(),
        forall|i: int|
            0 <= i < old(debs)@.len() ==> {
                let st = debounce_step(
                    old(debs)@[i].settled_level(),
                    old(debs)@[i].pending_since(),
                    row_bit(row_bits@[i % (N as int)], (i / (N as int)) as u32),
                    now,
                    interval,
                );
                (#[trigger] final(debs)@[i]).settled_level() == st.0
                    && final(debs)@[i].pending_since() == st.1
            },
        edges@ == scan_edges(
            old(debs)@,
            row_bits@,
            now,
            interval,
            N as int,
            (M as int) * (N as int),
        ),
        forall|e: int|
            0 <= e < edges@.len() ==> (#[trigger] edges@[e]).0 < M && edges@[e].1 < N,
{
    let ghost debs0 = debs@;
    let total: usize = M * N;
    let mut edges: Vec<(usize, usize, bool)> = Vec::new();
    let mut i: usize = 0;
    while i < total
        invariant
            i <= total,
            debs@.len() == total as int,
            forall|j: int|
                0 <= j < i ==> {
                    let st = debounce_step(
                        debs0[j].settled_level(),
                        debs0[j].pending_since(),
                        row_bit(row_bits@[j % (N as int)], (j / (N as int)) as u32),
                        now,
                        interval,
                    );
                    (#[trigger] debs@[j]).settled_level() == st.0 && debs@[j].pending_since()
                        == st.1
                },
            forall|j: int| i <= j < total ==> #[trigger] debs@[j] == debs0[j],
            edges@ == scan_edges(debs0, row_bits@, now, interval, N as int, i as int),
            forall|e: int|
                0 <= e < edges@.len() ==> (#[trigger] edges@[e]).0 < M && edges@[e].1 < N,
        decreases total - i,
    {
        proof {
            lemma_flat_to_point(N as int, M as int, i as int);
        }
        let r = i / N;
        let c = i % N;
        let raw = (row_bits[c] >> (r as u32)) & 1u32 == 1u32;
        let mut d = debs[i];
        let flipped = d.sample(raw, now, interval);
        debs[i] = d;
        if flipped {
            edges.push((r, c, d.level()));
        }
        i = i + 1;
    }
    edges
}

/// Whether a hold-tap pressed at `since` has been held past `timeout` by
/// time `now`.
pub open spec fn holdtap_expired(since: u64, now: u64, timeout: u64) -> bool {
    now >= since && now - since >= timeout
}

/// Pending hold-taps held past the timeout resolve to their hold action;
/// everything else stays as it is.
pub open spec fn aged_slots(slots: Seq<HeldState>, now: u64, timeout: u64) -> Seq<HeldState> {
    Seq::new(
        slots.len(),
        |i: int|
            match slots[i] {
                HeldState::HoldTapPending(h, since) => if holdtap_expired(since, now, timeout) {
                    HeldState::Emitting(h.hold)
                } else {
                    slots[i]
                },
                _ => slots[i],
            },
    )
}

/// Resolves every pending hold-tap whose timeout has elapsed to its hold
/// action.
#[verifier::loop_isolation(false)]
fn age_holdtaps(slots: &mut Vec<HeldState>, now: u64, timeout: u64)
    ensures
        final(slots)@ == aged_slots(old(slots)@, now, timeout),
{
    let ghost slots0 = slots@;
    let total = slots.len();
    let mut i: usize = 0;
    while i < total
        invariant
            i <= total,
            slots@.len() == total as int,
            forall|j: int| 0 <= j < i ==> #[trigger] slots@[j] == aged_slots(slots0, now, timeout)[j],
            forall|j: int| i <= j < total ==> #[trigger] slots@[j] == slots0[j],
        decreases total - i,
    {
        match slots[i] {
            HeldState::HoldTapPending(h, since) => {
                if now >= since && now - since >= timeout {
                    slots[i] = HeldState::Emitting(h.hold);
                }
            },
            _ => {},
        }
        i = i + 1;
    }
    proof {
        assert(slots@ =~= aged_slots(slots0, now, timeout));
    }
}

/// What an edge at one point does to the other points: a rising edge
/// resolves every other pending hold-tap configured `HoldOnOtherKeyPress`
/// to its hold action, a falling edge does the same for `PermissiveHold`.
pub open spec fn policy_resolve(slots: Seq<HeldState>, skip: int, rising: bool) -> Seq<HeldState> {
    Seq::new(
        slots.len(),
        |j: int|
            if j != skip {
                match slots[j] {
                    HeldState::HoldTapPending(h, since) => if (rising
                        && h.config is HoldOnOtherKeyPress) || (!rising
                        && h.config is PermissiveHold) {
                        HeldState::Emitting(h.hold)
                    } else {
                        slots[j]
                    },
                    _ => slots[j],
                }
            } else {
                slots[j]
            },
    )
}

/// One debounced edge applied to the resolver state.
///
/// A rising edge resolves the point's binding at the active layer and
/// records what the point now contributes; a `Layer` binding activates its
/// layer momentarily (first holder wins, out-of-range indices are ignored),
/// a `DefaultLayer` binding switches persistently (fail closed), and a
/// hold-tap starts pending at `now`. A falling edge releases the point,
/// emits the tap action if its hold-tap was still pending, and restores the
/// previous layer if the point held a momentary layer. Either edge first
/// applies [`policy_resolve`] to the other points.
pub open spec fn apply_edge_spec(
    s: ResolverState,
    layer_count: int,
    cols: int,
    row: int,
    col: int,
    pressed: bool,
    now: u64,
    taps: Seq<((u8, u8), Action)>,
) -> (ResolverState, Seq<((u8, u8), Action)>) {
    let i = flat_index(cols, row, col);
    let slots1 = policy_resolve(s.slots, i, pressed);
    if pressed {
        match resolve_in(s.stack, s.current, row, col) {
            KeyAction::Single(a) => (
                ResolverState { slots: slots1.update(i, HeldState::Emitting(a)), ..s },
                taps,
            ),
            KeyAction::Layer(n) => if s.hold is None && (n as int) < layer_count {
                (
                    ResolverState {
                        current: n as int,
                        slots: slots1.update(i, HeldState::Silent),
                        hold: Some((row, col, s.current)),
                        ..s
                    },
                    taps,
                )
            } else {
                (ResolverState { slots: slots1.update(i, HeldState::Silent), ..s }, taps)
            },
            KeyAction::DefaultLayer(n) => (
                ResolverState {
                    current: if (n as int) < layer_count {
                        n as int
                    } else {
                        s.current
                    },
                    slots: slots1.update(i, HeldState::Silent),
                    ..s
                },
                taps,
            ),
            KeyAction::HoldTap(h) => (
                ResolverState { slots: slots1.update(i, HeldState::HoldTapPending(h, now)), ..s },
                taps,
            ),
            _ => (ResolverState { slots: slots1.update(i, HeldState::Silent), ..s }, taps),
        }
    } else {
        let taps1 = match s.slots[i] {
            HeldState::HoldTapPending(h, since) => taps.push(((row as u8, col as u8), h.tap)),
            _ => taps,
        };
        let restored = match s.hold {
            Some(h) => if h.0 == row && h.1 == col {
                ResolverState {
                    current: h.2,
                    slots: slots1.update(i, HeldState::Released),
                    hold: None,
                    ..s
                }
            } else {
                ResolverState { slots: slots1.update(i, HeldState::Released), ..s }
            },
            None => ResolverState { slots: slots1.update(i, HeldState::Released), ..s },
        };
        (restored, taps1)
    }
}

/// The momentary-layer holder, if any, names an in-range point and an
/// in-range layer to restore.
pub open spec fn hold_in_bounds(
    hold: Option<MomentaryHold>,
    layer_count: int,
    rows: int,
    cols: int,
) -> bool {
    match hold {
        Some(h) => (h.row as int) < rows && (h.col as int) < cols && (h.previous_layer as int)
            < layer_count,
        None => true,
    }
}

/// Applies one debounced edge to the keymap, the per-point states, and the
/// momentary-layer holder, appending a tap action if one is due.
#[verifier::loop_isolation(false)]
fn apply_edge<const L: usize, const M: usize, const N: usize>(
    layers: &mut Layers<L, M, N>,
    slots: &mut Vec<HeldState>,
    momentary: &mut Option<MomentaryHold>,
    row: usize,
    col: usize,
    pressed: bool,
    now: u64,
    taps: &mut Vec<((u8, u8), Action)>,
)
    requires
        old(layers).wf(),
        M >= 1,
        N >= 1,
        N <= 255,
        M <= 255,
        (M as int) * (N as int) <= usize::MAX as int,
        old(slots)@.len() == (M as int) * (N as int),
        row < M,
        col < N,
        hold_in_bounds(*old(momentary), L as int, M as int, N as int),
    ensures
        final(layers).wf(),
        final(layers).stack() == old(layers).stack(),
        final(slots)@.len() == old(slots)@.len(),
        hold_in_bounds(*final(momentary), L as int, M as int, N as int),
        ({
            let (s1, taps1) = apply_edge_spec(
                resolver_state(*old(layers), old(slots)@, *old(momentary)),
                L as int,
                N as int,
                row as int,
                col as int,
                pressed,
                now,
                old(taps)@,
            );
            resolver_state(*final(layers), final(slots)@, *final(momentary)) == s1 && final(taps)@
                == taps1
        }),
{
    proof {
        lemma_point_to_flat(N as int, M as int, row as int, col as int);
    }
    let ghost slots0 = slots@;
    let total = slots.len();
    let i = row * N + col;

    // Interleaving policy: this edge may resolve other pending hold-taps.
    let mut j: usize = 0;
    while j < total
        invariant
            j <= total,
            slots@.len() == total as int,
            forall|q: int|
                0 <= q < j ==> #[trigger] slots@[q] == policy_resolve(
                    slots0,
                    i as int,
                    pressed,
                )[q],
            forall|q: int| j <= q < total ==> #[trigger] slots@[q] == slots0[q],
        decreases total - j,
    {
        if j != i {
            match slots[j] {
                HeldState::HoldTapPending(h, _since) => {
                    let resolve_hold = (pressed && matches!(
                        h.config,
                        HoldTapConfig::HoldOnOtherKeyPress,
                    )) || (!pressed && matches!(h.config, HoldTapConfig::PermissiveHold));
                    if resolve_hold {
                        slots[j] = HeldState::Emitting(h.hold);
                    }
                },
                _ => {},
            }
        }
        j = j + 1;
    }
    proof {
        assert(slots@ =~= policy_resolve(slots0, i as int, pressed));
    }

    if pressed {
        match layers.get_key(row, col) {
            KeyAction::Single(a) => {
                slots[i] = HeldState::Emitting(a);
            },
            KeyAction::Layer(n) => {
                if momentary.is_none() && n < L {
                    let previous = layers.get_current_layer_id();
                    layers.set_current_layer(n);
                    *momentary = Some(MomentaryHold { row, col, previous_layer: previous });
                }
                slots[i] = HeldState::Silent;
            },
            KeyAction::DefaultLayer(n) => {
                layers.set_current_layer(n);
                slots[i] = HeldState::Silent;
            },
            KeyAction::HoldTap(h) => {
                slots[i] = HeldState::HoldTapPending(h, now);
            },
            _ => {
                slots[i] = HeldState::Silent;
            },
        }
    } else {
        match slots[i] {
            HeldState::HoldTapPending(h, _since) => {
                taps.push(((row as u8, col as u8), h.tap));
            },
            _ => {},
        }
        slots[i] = HeldState::Released;
        match *momentary {
            Some(h) => {
                if h.row == row && h.col == col {
                    layers.set_current_layer(h.previous_layer);
                    *momentary = None;
                }
            },
            None => {},
        }
    }
}

/// A pass's edges folded over the resolver state in order.
pub open spec fn apply_edges_spec(
    s: ResolverState,
    layer_count: int,
    cols: int,
    edges: Seq<(usize, usize, bool)>,
    now: u64,
) -> (ResolverState, Seq<((u8, u8), Action)>)
    decreases edges.len(),
{
    if edges.len() == 0 {
        (s, Seq::empty())
    } else {
        let (s1, taps1) = apply_edges_spec(s, layer_count, cols, edges.drop_last(), now);
        let e = edges.last();
        apply_edge_spec(s1, layer_count, cols, e.0 as int, e.1 as int, e.2, now, taps1)
    }
}

/// Applies a pass's edges in order, collecting the due tap actions.
#[verifier::loop_isolation(false)]
fn apply_edges<const L: usize, const M: usize, const N: usize>(
    layers: &mut Layers<L, M, N>,
    slots: &mut Vec<HeldState>,
    momentary: &mut Option<MomentaryHold>,
    edges: &Vec<(usize, usize, bool)>,
    now: u64,
) -> (taps: Vec<((u8, u8), Action)>)
    requires
        old(layers).wf(),
        M >= 1,
        N >= 1,
        N <= 255,
        M <= 255,
        (M as int) * (N as int) <= usize::MAX as int,
        old(slots)@.len() == (M as int) * (N as int),
        forall|e: int| 0 <= e < edges@.len() ==> (#[trigger] edges@[e]).0 < M && edges@[e].1 < N,
        hold_in_bounds(*old(momentary), L as int, M as int, N as int),
    ensures
        final(layers).wf(),
        final(layers).stack() == old(layers).stack(),
        final(slots)@.len() == old(slots)@.len(),
        hold_in_bounds(*final(momentary), L as int, M as int, N as int),
        ({
            let (s1, taps1) = apply_edges_spec(
                resolver_state(*old(layers), old(slots)@, *old(momentary)),
                L as int,
                N as int,
                edges@,
                now,
            );
            resolver_state(*final(layers), final(slots)@, *final(momentary)) == s1 && taps@
                == taps1
        }),
{
    let ghost s0 = resolver_state(*layers, slots@, *momentary);
    let mut taps: Vec<((u8, u8), Action)> = Vec::new();
    let mut e: usize = 0;
    while e < edges.len()
        invariant
            e <= edges@.len(),
            layers.wf(),
            layers.stack() == old(layers).stack(),
            slots@.len() == (M as int) * (N as int),
            hold_in_bounds(*momentary, L as int, M as int, N as int),
            ({
                let (s1, taps1) = apply_edges_spec(
                    s0,
                    L as int,
                    N as int,
                    edges@.take(e as int),
                    now,
                );
                resolver_state(*layers, slots@, *momentary) == s1 && taps@ == taps1
            }),
        decreases edges@.len() - e,
    {
        let edge = edges[e];
        apply_edge::<L, M, N>(layers, slots, momentary, edge.0, edge.1, edge.2, now, &mut taps);
        proof {
            assert(edges@.take(e + 1).drop_last() =~= edges@.take(e as int));
            assert(edges@.take(e + 1).last() == edges@[e as int]);
        }
        e = e + 1;
    }
    proof {
        assert(edges@.take(edges@.len() as int) =~= edges@);
    }
    taps
}

/// The contributions of the first `count` points in flat order: every
/// emitting point yields its coordinates and its action.
pub open spec fn emitted_upto(slots: Seq<HeldState>, cols: int, count: int) -> Seq<
    ((u8, u8), Action),
>
    decreases count,
{
    if count <= 0 {
        Seq::empty()
    } else {
        let i = count - 1;
        emitted_upto(slots, cols, count - 1) + match slots[i] {
            HeldState::Emitting(a) => seq![((((i / cols) as u8), ((i % cols) as u8)), a)],
            _ => Seq::<((u8, u8), Action)>::empty(),
        }
    }
}

/// A sequence cut down to the rollover budget.
pub open spec fn capped<T>(s: Seq<T>, k: int) -> Seq<T> {
    if s.len() <= k {
        s
    } else {
        s.take(k)
    }
}

/// The rollover budget is a hard bound: a capped report never exceeds
/// `NKRO_MAX_KEYS` entries, and entries are dropped exactly when the
/// contributions run past the budget — never silently.
pub proof fn lemma_report_bounded(contribs: Seq<((u8, u8), Action)>)
    ensures
        capped(contribs, NKRO_MAX_KEYS as int).len() <= NKRO_MAX_KEYS,
        capped(contribs, NKRO_MAX_KEYS as int).len() < contribs.len() <==> contribs.len()
            > NKRO_MAX_KEYS,
{
}

/// The flat index a contribution's coordinates name.
pub open spec fn contrib_flat(cols: int, p: ((u8, u8), Action)) -> int {
    flat_index(cols, p.0.0 as int, p.0.1 as int)
}

/// Each contribution of the first `count` points carries its own point's
/// coordinates: the named flat indices stay below `count`, strictly
/// increase along the sequence, and name emitting slots.
proof fn lemma_emitted_flat_increasing(slots: Seq<HeldState>, cols: int, rows: int, count: int)
    requires
        1 <= cols <= 255,
        1 <= rows <= 255,
        count <= rows * cols,
    ensures
        forall|p: int|
            0 <= p < emitted_upto(slots, cols, count).len() ==> 0 <= contrib_flat(
                cols,
                #[trigger] emitted_upto(slots, cols, count)[p],
            ) < count,
        forall|p: int, q: int|
            0 <= p < q < emitted_upto(slots, cols, count).len() ==> contrib_flat(
                cols,
                #[trigger] emitted_upto(slots, cols, count)[p],
            ) < contrib_flat(cols, #[trigger] emitted_upto(slots, cols, count)[q]),
        forall|p: int|
            0 <= p < emitted_upto(slots, cols, count).len() ==> slots[contrib_flat(
                cols,
                #[trigger] emitted_upto(slots, cols, count)[p],
            )] is Emitting,
    decreases count,
{
    if count > 0 {
        lemma_emitted_flat_increasing(slots, cols, rows, count - 1);
        let i = count - 1;
        lemma_flat_to_point(cols, rows, i);
        let prev = emitted_upto(slots, cols, count - 1);
        let cur = emitted_upto(slots, cols, count);
        match slots[i] {
            HeldState::Emitting(a) => {
                let elem = ((((i / cols) as u8), ((i % cols) as u8)), a);
                assert(cur =~= prev.push(elem));
                assert(contrib_flat(cols, elem) == i);
            },
            _ => {
                assert(cur =~= prev);
            },
        }
    }
}

/// The flat index a debounce edge names.
pub open spec fn edge_flat(cols: int, e: (usize, usize, bool)) -> int {
    flat_index(cols, e.0 as int, e.1 as int)
}

/// A pass's edges name in-range points in strictly increasing flat order:
/// each point flips at most once per pass.
proof fn lemma_scan_edges_flats(
    debs: Seq<Debouncer>,
    bits: Seq<u32>,
    now: u64,
    interval: u64,
    cols: int,
    rows: int,
    count: int,
)
    requires
        1 <= cols <= usize::MAX as int,
        1 <= rows <= usize::MAX as int,
        count <= rows * cols,
    ensures
        forall|e: int|
            0 <= e < scan_edges(debs, bits, now, interval, cols, count).len() ==> {
                let edge = #[trigger] scan_edges(debs, bits, now, interval, cols, count)[e];
                (edge.0 as int) < rows && (edge.1 as int) < cols && 0 <= edge_flat(cols, edge)
                    < count
            },
        forall|p: int, q: int|
            0 <= p < q < scan_edges(debs, bits, now, interval, cols, count).len() ==> edge_flat(
                cols,
                #[trigger] scan_edges(debs, bits, now, interval, cols, count)[p],
            ) < edge_flat(cols, #[trigger] scan_edges(debs, bits, now, interval, cols, count)[q]),
    decreases count,
{
    if count > 0 {
        lemma_scan_edges_flats(debs, bits, now, interval, cols, rows, count - 1);
        let i = count - 1;
        lemma_flat_to_point(cols, rows, i);
        let prev = scan_edges(debs, bits, now, interval, cols, count - 1);
        let cur = scan_edges(debs, bits, now, interval, cols, count);
        let st = debounce_step(
            debs[i].settled_level(),
            debs[i].pending_since(),
            row_bit(bits[i % cols], (i / cols) as u32),
            now,
            interval,
        );
        if st.2 {
            let elem = (((i / cols) as usize), ((i % cols) as usize), st.0);
            assert(cur =~= prev.push(elem));
            assert(edge_flat(cols, elem) == i);
        } else {
            assert(cur =~= prev);
        }
    }
}

/// Through a pass's edge fold, the taps collected so far name in-range
/// points in strictly increasing flat order, and every tapped point's slot
/// leaves the fold released.
proof fn lemma_apply_edges_taps(
    s0: ResolverState,
    layer_count: int,
    cols: int,
    rows: int,
    edges: Seq<(usize, usize, bool)>,
    now: u64,
)
    requires
        1 <= cols <= 255,
        1 <= rows <= 255,
        s0.slots.len() == rows * cols,
        forall|e: int|
            0 <= e < edges.len() ==> ((#[trigger] edges[e]).0 as int) < rows && (edges[e].1 as int)
                < cols,
        forall|p: int, q: int|
            0 <= p < q < edges.len() ==> edge_flat(cols, #[trigger] edges[p]) < edge_flat(
                cols,
                #[trigger] edges[q],
            ),
    ensures
        ({
            let (s1, taps) = apply_edges_spec(s0, layer_count, cols, edges, now);
            &&& s1.slots.len() == s0.slots.len()
            &&& forall|p: int|
                0 <= p < taps.len() ==> 0 <= contrib_flat(cols, #[trigger] taps[p]) < rows * cols
                    && s1.slots[contrib_flat(cols, taps[p])] is Released
            &&& forall|p: int, q: int|
                0 <= p < q < taps.len() ==> contrib_flat(cols, #[trigger] taps[p]) < contrib_flat(
                    cols,
                    #[trigger] taps[q],
                )
            &&& edges.len() > 0 ==> forall|p: int|
                0 <= p < taps.len() ==> contrib_flat(cols, #[trigger] taps[p]) <= edge_flat(
                    cols,
                    edges.last(),
                )
            &&& edges.len() == 0 ==> taps.len() == 0
        }),
    decreases edges.len(),
{
    if edges.len() > 0 {
        let front = edges.drop_last();
        lemma_apply_edges_taps(s0, layer_count, cols, rows, front, now);
        let (s_front, taps_front) = apply_edges_spec(s0, layer_count, cols, front, now);
        let e = edges.last();
        lemma_point_to_flat(cols, rows, e.0 as int, e.1 as int);
        let i = edge_flat(cols, e);

        // Every earlier tap stays strictly below the new edge's flat index.
        assert forall|p: int| 0 <= p < taps_front.len() implies contrib_flat(
            cols,
            #[trigger] taps_front[p],
        ) < i by {
            if front.len() > 0 {
                assert(front.last() == edges[edges.len() - 2]);
                assert(edge_flat(cols, edges[edges.len() - 2]) < edge_flat(
                    cols,
                    edges[edges.len() - 1],
                ));
            }
        }

        // The interleaving policy never wakes a released slot.
        let slots1 = policy_resolve(s_front.slots, i, e.2);
        assert forall|j: int|
            0 <= j < s_front.slots.len() && s_front.slots[j] is Released implies (
        #[trigger] slots1[j]) is Released by {}

        let (s1, taps1) = apply_edge_spec(
            s_front,
            layer_count,
            cols,
            e.0 as int,
            e.1 as int,
            e.2,
            now,
            taps_front,
        );
        if !e.2 {
            match s_front.slots[i] {
                HeldState::HoldTapPending(h, _since) => {
                    assert(taps1 == taps_front.push(((e.0 as u8, e.1 as u8), h.tap)));
                    assert(contrib_flat(cols, taps1.last()) == i);
                },
                _ => {},
            }
        }
    }
}

/// Duplicate key identities are impossible by construction: the held
/// contributions of one pass carry mutually distinct coordinates, one per
/// matrix point.
pub proof fn lemma_report_coords_distinct(slots: Seq<HeldState>, cols: int, rows: int)
    requires
        1 <= cols <= 255,
        1 <= rows <= 255,
        slots.len() == rows * cols,
    ensures
        forall|p: int, q: int|
            0 <= p < q < emitted_upto(slots, cols, slots.len() as int).len() ==> (
            #[trigger] emitted_upto(slots, cols, slots.len() as int)[p]).0 != (
            #[trigger] emitted_upto(slots, cols, slots.len() as int)[q]).0,
{
    lemma_emitted_flat_increasing(slots, cols, rows, slots.len() as int);
}

/// Duplicate key identities are impossible by construction in the full
/// report of a pass: the held contributions and the tap actions together,
/// capped at the rollover budget, carry mutually distinct coordinates.
/// (A held point is emitting, a tapped point has been released, and each
/// point flips at most once per pass.)
pub proof fn lemma_pass_report_distinct(
    debs: Seq<Debouncer>,
    bits: Seq<u32>,
    s0: ResolverState,
    layer_count: int,
    cols: int,
    rows: int,
    now: u64,
    interval: u64,
)
    requires
        1 <= cols <= 255,
        1 <= rows <= 255,
        s0.slots.len() == rows * cols,
    ensures
        ({
            let edges = scan_edges(debs, bits, now, interval, cols, rows * cols);
            let (s1, taps) = apply_edges_spec(s0, layer_count, cols, edges, now);
            let report = capped(
                emitted_upto(s1.slots, cols, s1.slots.len() as int) + taps,
                NKRO_MAX_KEYS as int,
            );
            forall|p: int, q: int|
                0 <= p < q < report.len() ==> (#[trigger] report[p]).0 != (#[trigger] report[q]).0
        }),
{
    let edges = scan_edges(debs, bits, now, interval, cols, rows * cols);
    lemma_scan_edges_flats(debs, bits, now, interval, cols, rows, rows * cols);
    lemma_apply_edges_taps(s0, layer_count, cols, rows, edges, now);
    let (s1, taps) = apply_edges_spec(s0, layer_count, cols, edges, now);
    lemma_emitted_flat_increasing(s1.slots, cols, rows, s1.slots.len() as int);
    let emitted = emitted_upto(s1.slots, cols, s1.slots.len() as int);
    let contribs = emitted + taps;
    assert forall|p: int, q: int| 0 <= p < q < contribs.len() implies (#[trigger] contribs[p]).0
        != (#[trigger] contribs[q]).0 by {
        if p < emitted.len() {
            assert(contribs[p] == emitted[p]);
        } else {
            assert(contribs[p] == taps[p - emitted.len()]);
        }
        if q < emitted.len() {
            assert(contribs[q] == emitted[q]);
        } else {
            assert(contribs[q] == taps[q - emitted.len()]);
        }
        if contribs[p].0 == contribs[q].0 {
            // Equal coordinates name the same flat index, and no flat index
            // occurs twice: within each part the indices strictly increase,
            // and across the parts one slot would have to be both emitting
            // and released.
            assert(contrib_flat(cols, contribs[p]) == contrib_flat(cols, contribs[q]));
            assert(false);
        }
    }
    let report = capped(contribs, NKRO_MAX_KEYS as int);
    assert forall|p: int, q: int| 0 <= p < q < report.len() implies (#[trigger] report[p]).0 != (
    #[trigger] report[q]).0 by {
        assert(report[p] == contribs[p]);
        assert(report[q] == contribs[q]);
    }
}

/// The first coordinate of each contribution, in order.
pub open spec fn coords_of(pairs: Seq<((u8, u8), Action)>) -> Seq<(u8, u8)> {
    pairs.map_values(|p: ((u8, u8), Action)| p.0)
}

/// Rebuilds the pressed-key report for one pass from the per-point states
/// and the taps the pass produced: the emitting points in flat order, then
/// the taps, cut off at `NKRO_MAX_KEYS` with the overflow signal raised for
/// anything dropped.
#[verifier::loop_isolation(false)]
fn build_report<const M: usize, const N: usize>(
    slots: &Vec<HeldState>,
    taps: &Vec<((u8, u8), Action)>,
) -> (report: ScanReport)
    requires
        M >= 1,
        N >= 1,
        N <= 255,
        M <= 255,
        (M as int) * (N as int) <= usize::MAX as int,
        slots@.len() == (M as int) * (N as int),
    ensures
        ({
            let contribs = emitted_upto(slots@, N as int, slots@.len() as int) + taps@;
            report.keys@ == capped(contribs, NKRO_MAX_KEYS as int) && report.overflow == (
            contribs.len() > NKRO_MAX_KEYS) && report.keys@.len() <= NKRO_MAX_KEYS
        }),
{
    let total = slots.len();
    let mut buffer = key_buffer_new();
    let mut keys: Vec<((u8, u8), Action)> = Vec::new();
    let mut overflow = false;
    let mut i: usize = 0;
    while i < total
        invariant
            i <= total,
            slots@.len() == total as int,
            ({
                let contribs = emitted_upto(slots@, N as int, i as int);
                &&& key_buffer(buffer) == coords_of(keys@)
                &&& keys@ == capped(contribs, NKRO_MAX_KEYS as int)
                &&& overflow == (contribs.len() > NKRO_MAX_KEYS)
            }),
        decreases total - i,
    {
        match slots[i] {
            HeldState::Emitting(a) => {
                proof {
                    lemma_flat_to_point(N as int, M as int, i as int);
                }
                let coord = ((i / N) as u8, (i % N) as u8);
                let pushed = key_buffer_push(&mut buffer, coord);
                if pushed {
                    keys.push((coord, a));
                } else {
                    overflow = true;
                }
            },
            _ => {},
        }
        i = i + 1;
    }

    let mut t: usize = 0;
    while t < taps.len()
        invariant
            t <= taps@.len(),
            ({
                let contribs = emitted_upto(slots@, N as int, slots@.len() as int) + taps@.take(
                    t as int,
                );
                &&& key_buffer(buffer) == coords_of(keys@)
                &&& keys@ == capped(contribs, NKRO_MAX_KEYS as int)
                &&& overflow == (contribs.len() > NKRO_MAX_KEYS)
            }),
        decreases taps@.len() - t,
    {
        let (coord, a) = taps[t];
        let pushed = key_buffer_push(&mut buffer, coord);
        if pushed {
            keys.push((coord, a));
        } else {
            overflow = true;
        }
        proof {
            assert(taps@.take(t + 1) =~= taps@.take(t as int).push(taps@[t as int]));
        }
        t = t + 1;
    }
    proof {
        assert(taps@.take(taps@.len() as int) =~= taps@);
    }
    ScanReport { keys, overflow }
}

/// The scan orchestrator: a keymap stack plus the per-point debounce and
/// held state, driven once per delivered matrix pass.
pub struct Scanner<const L: usize, const M: usize, const N: usize> {
    layers: Layers<L, M, N>,
    debouncers: Vec<Debouncer>,
    held: Vec<HeldState>,
    momentary: Option<MomentaryHold>,
    debounce_interval: u64,
    holdtap_timeout: u64,
}

impl<const L: usize, const M: usize, const N: usize> Scanner<L, M, N> {
    /// The keymap stack the orchestrator resolves against.
    pub closed spec fn keymap(self) -> Layers<L, M, N> {
        self.layers
    }

    /// The per-point debouncers in flat row-major order.
    pub closed spec fn debs(self) -> Seq<Debouncer> {
        self.debouncers@
    }

    /// The per-point held states in flat row-major order.
    pub closed spec fn slots(self) -> Seq<HeldState> {
        self.held@
    }

    /// The momentary-layer holder, if a `Layer` key is held.
    pub closed spec fn layer_hold(self) -> Option<MomentaryHold> {
        self.momentary
    }

    /// The configured debounce interval, in clock ticks.
    pub closed spec fn interval(self) -> u64 {
        self.debounce_interval
    }

    /// The configured hold-tap timeout, in clock ticks.
    pub closed spec fn timeout(self) -> u64 {
        self.holdtap_timeout
    }

    /// The orchestrator's invariant: a well-formed keymap, one debouncer
    /// and one held state per matrix point, matrix dimensions that fit the
    /// row-bit words and `u8` coordinates, and an in-range momentary
    /// holder.
    pub open spec fn wf(self) -> bool {
        &&& self.keymap().wf()
        &&& M >= 1 && N >= 1 && M <= 32 && N <= 255
        &&& (M as int) * (N as int) <= usize::MAX as int
        &&& self.debs().len() == (M as int) * (N as int)
        &&& self.slots().len() == (M as int) * (N as int)
        &&& hold_in_bounds(self.layer_hold(), L as int, M as int, N as int)
    }

    /// A fresh orchestrator: every point released and settled low, no
    /// momentary layer held.
    pub fn new(layers: Layers<L, M, N>, debounce_interval: u64, holdtap_timeout: u64) -> (s: Self)
        requires
            layers.wf(),
            1 <= M <= 32,
            1 <= N <= 255,
            (M as int) * (N as int) <= usize::MAX as int,
        ensures
            s.wf(),
            s.keymap() == layers,
            s.interval() == debounce_interval,
            s.timeout() == holdtap_timeout,
            s.layer_hold() is None,
            forall|i: int|
                0 <= i < (M as int) * (N as int) ==> !(#[trigger] s.debs()[i]).settled_level()
                    && s.debs()[i].pending_since() is None,
            forall|i: int|
                0 <= i < (M as int) * (N as int) ==> #[trigger] s.slots()[i]
                    == HeldState::Released,
    {
        let total: usize = M * N;
        let mut debouncers: Vec<Debouncer> = Vec::new();
        let mut held: Vec<HeldState> = Vec::new();
        let mut i: usize = 0;
        #[verifier::loop_isolation(false)]
        while i < total
            invariant
                i <= total,
                debouncers@.len() == i as int,
                held@.len() == i as int,
                forall|j: int|
                    0 <= j < i ==> !(#[trigger] debouncers@[j]).settled_level()
                        && debouncers@[j].pending_since() is None,
                forall|j: int| 0 <= j < i ==> #[trigger] held@[j] == HeldState::Released,
            decreases total - i,
        {
            debouncers.push(Debouncer::new(false));
            held.push(HeldState::Released);
            i = i + 1;
        }
        Scanner {
            layers,
            debouncers,
            held,
            momentary: None,
            debounce_interval,
            holdtap_timeout,
        }
    }

    /// The keymap stack, for observers; only resolved key actions mutate
    /// the active layer.
    pub fn layer_stack(&self) -> (l: &Layers<L, M, N>)
        ensures
            *l == self.keymap(),
    {
        &self.layers
    }

    /// Runs one full matrix pass delivered by the scan engine at time
    /// `now`: debounces every point, resolves hold-tap timeouts, applies
    /// the settled edges to the layer and held state, and rebuilds the
    /// bounded pressed-key report.
    pub fn process_pass(&mut self, row_bits: &[u32; N], now: u64) -> (report: ScanReport)
        requires
            old(self).wf(),
        ensures
            final(self).wf(),
            final(self).keymap().stack() == old(self).keymap().stack(),
            final(self).interval() == old(self).interval(),
            final(self).timeout() == old(self).timeout(),
            ({
                let total = (M as int) * (N as int);
                let edges = scan_edges(
                    old(self).debs(),
                    row_bits@,
                    now,
                    old(self).interval(),
                    N as int,
                    total,
                );
                let (s1, taps) = apply_edges_spec(
                    ResolverState {
                        stack: old(self).keymap().stack(),
                        current: old(self).keymap().current(),
                        slots: aged_slots(old(self).slots(), now, old(self).timeout()),
                        hold: hold_view(old(self).layer_hold()),
                    },
                    L as int,
                    N as int,
                    edges,
                    now,
                );
                let contribs = emitted_upto(s1.slots, N as int, total) + taps;
                &&& forall|i: int|
                    0 <= i < total ==> {
                        let st = debounce_step(
                            old(self).debs()[i].settled_level(),
                            old(self).debs()[i].pending_since(),
                            row_bit(row_bits@[i % (N as int)], (i / (N as int)) as u32),
                            now,
                            old(self).interval(),
                        );
                        (#[trigger] final(self).debs()[i]).settled_level() == st.0
                            && final(self).debs()[i].pending_since() == st.1
                    }
                &&& final(self).slots() == s1.slots
                &&& final(self).keymap().current() == s1.current
                &&& hold_view(final(self).layer_hold()) == s1.hold
                &&& report.keys@ == capped(contribs, NKRO_MAX_KEYS as int)
                &&& report.overflow == (contribs.len() > NKRO_MAX_KEYS)
                &&& report.keys@.len() <= NKRO_MAX_KEYS
            }),
    {
        let edges = debounce_flat::<M, N>(
            &mut self.debouncers,
            row_bits,
            now,
            self.debounce_interval,
        );
        age_holdtaps(&mut self.held, now, self.holdtap_timeout);
        let taps = apply_edges::<L, M, N>(
            &mut self.layers,
            &mut self.held,
            &mut self.momentary,
            &edges,
            now,
        );
        build_report::<M, N>(&self.held, &taps)
    }
}

} // verus!
