//! Layered keymaps and the transparency-fallthrough resolver.
//!
//! A [`Layer`] is an immutable `M x N` grid of [`KeyAction`]s. A [`Layers`]
//! value stacks `L` of them together with the index of the currently active
//! layer. Resolution starts at the active layer and falls through
//! `Transparent` cells toward layer 0; the base layer is a floor, so its
//! `Transparent` cells resolve to `NoOp`.

use vstd::prelude::*;

use crate::action::KeyAction;

verus! {

/// Errors raised by the relative layer-stepping operations.
#[derive(Debug, Clone, Copy, PartialEq, Eq, Structural)]
pub enum LayersError {
    HighestLayerReached,
    LowestLayerReached,
}

/// One `M x N` grid of key bindings.
#[derive(Debug, Clone, Copy)]
pub struct Layer<const M: usize, const N: usize> {
    keys: [[KeyAction; N]; M],
}

impl<const M: usize, const N: usize> View for Layer<M, N> {
    type V = Seq<Seq<KeyAction>>;

    closed spec fn view(&self) -> Seq<Seq<KeyAction>> {
        Seq::new(M as nat, |r: int| Seq::new(N as nat, |c: int| self.keys[r][c]))
    }
}

impl<const M: usize, const N: usize> Layer<M, N> {
    /// The view of a layer is always an `M x N` grid.
    pub proof fn lemma_shape(&self)
        ensures
            self@.len() == M as nat,
            forall|r: int| 0 <= r < M ==> (#[trigger] self@[r]).len() == N as nat,
    {
    }

    pub fn new(keys: [[KeyAction; N]; M]) -> (l: Self)
        ensures
            forall|r: int, c: int|
                0 <= r < M && 0 <= c < N ==> l@[r][c] == keys[r][c],
    {
        Self { keys }
    }

    /// Reads the binding of one cell.
    pub fn get(&self, row: usize, col: usize) -> (k: KeyAction)
        requires
            row < M,
            col < N,
        ensures
            k == self@[row as int][col as int],
    {
        self.keys[row][col]
    }

    /// Rebinds one cell, leaving every other cell as it was.
    pub fn set(&mut self, row: usize, col: usize, key: KeyAction)
        requires
            row < M,
            col < N,
        ensures
            final(self)@ == old(self)@.update(
                row as int,
                old(self)@[row as int].update(col as int, key),
            ),
    {
        let mut grid_row = self.keys[row];
        grid_row[col] = key;
        self.keys[row] = grid_row;
        proof {
            assert(final(self)@ =~~= old(self)@.update(
                row as int,
                old(self)@[row as int].update(col as int, key),
            ));
        }
    }
}

/// The binding that applies at `(row, col)` when resolution starts at
/// `layer` in `stack`: the highest layer at or below `layer` with a
/// non-`Transparent` binding wins, and a `Transparent` cell on layer 0
/// resolves to `NoOp`.
pub open spec fn resolve_in(
    stack: Seq<Seq<Seq<KeyAction>>>,
    layer: int,
    row: int,
    col: int,
) -> KeyAction
    decreases layer,
{
    let k = stack[layer][row][col];
    if !(k is Transparent) {
        k
    } else if layer <= 0 {
        KeyAction::NoOp
    } else {
        resolve_in(stack, layer - 1, row, col)
    }
}

/// Layer 0 is a guaranteed floor: resolution never yields `Transparent`,
/// at any start layer, on any stack — a `Transparent` chain ends in the
/// binding of the highest non-transparent layer or in `NoOp` at the base.
pub proof fn lemma_resolve_floor(stack: Seq<Seq<Seq<KeyAction>>>, layer: int, row: int, col: int)
    ensures
        !(resolve_in(stack, layer, row, col) is Transparent),
    decreases layer,
{
    if stack[layer][row][col] is Transparent && layer > 0 {
        lemma_resolve_floor(stack, layer - 1, row, col);
    }
}

/// Resolution is a pure function of the stack and the coordinate: two
/// resolutions of the same point at the same layer without an intervening
/// mutation yield the same binding.
pub proof fn lemma_resolve_idempotent(
    stack1: Seq<Seq<Seq<KeyAction>>>,
    stack2: Seq<Seq<Seq<KeyAction>>>,
    layer: int,
    row: int,
    col: int,
)
    requires
        stack1 == stack2,
    ensures
        resolve_in(stack1, layer, row, col) == resolve_in(stack2, layer, row, col),
{
}

/// A stack of `L` layers plus the index of the currently active one.
pub struct Layers<const L: usize, const M: usize, const N: usize> {
    layers: [Layer<M, N>; L],
    current_layer: usize,
}

impl<const L: usize, const M: usize, const N: usize> Layers<L, M, N> {
    /// The stack of grids, outermost index being the layer.
    pub closed spec fn stack(self) -> Seq<Seq<Seq<KeyAction>>> {
        Seq::new(L as nat, |i: int| self.layers[i]@)
    }

    /// The index of the currently active layer.
    pub closed spec fn current(self) -> int {
        self.current_layer as int
    }

    /// The active-layer index always stays below the number of layers.
    pub open spec fn wf(self) -> bool {
        0 <= self.current() < L as int
    }

    /// The stack is always `L` grids of `M x N` cells each.
    pub proof fn lemma_shape(&self)
        ensures
            self.stack().len() == L as nat,
            forall|l: int| 0 <= l < L ==> (#[trigger] self.stack()[l]).len() == M as nat,
            forall|l: int, r: int|
                0 <= l < L && 0 <= r < M ==> (#[trigger] self.stack()[l][r]).len() == N as nat,
    {
        assert forall|l: int, r: int| 0 <= l < L && 0 <= r < M implies (#[trigger] self.stack()[l][r]).len()
            == N as nat by {
            self.layers[l].lemma_shape();
        }
    }

    /// Builds a stack with layer 0 active. At least one layer is needed,
    /// since the base layer is the floor of resolution.
    pub fn new(layers: [Layer<M, N>; L]) -> (s: Self)
        requires
            L >= 1,
        ensures
            s.wf(),
            s.current() == 0,
            forall|l: int| 0 <= l < L ==> s.stack()[l] == layers[l]@,
    {
        Self { layers, current_layer: 0 }
    }

    /// Resolves `(row, col)` starting at the currently active layer.
    pub fn get_key(&self, row: usize, col: usize) -> (k: KeyAction)
        requires
            self.wf(),
            row < M,
            col < N,
        ensures
            k == resolve_in(self.stack(), self.current(), row as int, col as int),
    {
        self.get_key_from_layer(self.current_layer, row, col)
    }

    /// Resolves `(row, col)` starting at `layer`, walking down through
    /// `Transparent` cells until layer 0.
    fn get_key_from_layer(&self, layer: usize, row: usize, col: usize) -> (k: KeyAction)
        requires
            layer < L,
            row < M,
            col < N,
        ensures
            k == resolve_in(self.stack(), layer as int, row as int, col as int),
    {
        let mut l = layer;
        loop
            invariant
                l < L,
                row < M,
                col < N,
                resolve_in(self.stack(), layer as int, row as int, col as int)
                    == resolve_in(self.stack(), l as int, row as int, col as int),
            decreases l,
        {
            let k = self.layers[l].get(row, col);
            if !matches!(k, KeyAction::Transparent) {
                return k;
            }
            if l == 0 {
                return KeyAction::NoOp;
            }
            l = l - 1;
        }
    }

    /// Rebinds one cell of one layer; no other cell and no layer index moves.
    pub fn set_key_from_layer(&mut self, layer: usize, row: usize, col: usize, key: KeyAction)
        requires
            layer < L,
            row < M,
            col < N,
        ensures
            final(self).current() == old(self).current(),
            final(self).stack() == old(self).stack().update(
                layer as int,
                old(self).stack()[layer as int].update(
                    row as int,
                    old(self).stack()[layer as int][row as int].update(col as int, key),
                ),
            ),
    {
        let mut lay = self.layers[layer];
        lay.set(row, col, key);
        self.layers[layer] = lay;
        proof {
            assert(final(self).stack() =~~= old(self).stack().update(
                layer as int,
                old(self).stack()[layer as int].update(
                    row as int,
                    old(self).stack()[layer as int][row as int].update(col as int, key),
                ),
            ));
        }
    }

    /// Steps to the next layer up; at the topmost configured layer it fails
    /// with `HighestLayerReached` and leaves the stack untouched.
    pub fn layer_up(&mut self) -> (r: Result<(), LayersError>)
        requires
            old(self).wf(),
        ensures
            final(self).wf(),
            final(self).stack() == old(self).stack(),
            old(self).current() + 1 < L as int ==> r is Ok && final(self).current() == old(
                self,
            ).current() + 1,
            old(self).current() + 1 >= L as int ==> r == Result::<(), LayersError>::Err(
                LayersError::HighestLayerReached,
            ) && *final(self) == *old(self),
    {
        if self.current_layer + 1 < L {
            self.current_layer = self.current_layer + 1;
            Ok(())
        } else {
            Err(LayersError::HighestLayerReached)
        }
    }

    /// Steps to the next layer down; on the base layer it fails with
    /// `LowestLayerReached` and leaves the stack untouched.
    pub fn layer_down(&mut self) -> (r: Result<(), LayersError>)
        requires
            old(self).wf(),
        ensures
            final(self).wf(),
            final(self).stack() == old(self).stack(),
            old(self).current() > 0 ==> r is Ok && final(self).current() == old(self).current()
                - 1,
            old(self).current() == 0 ==> r == Result::<(), LayersError>::Err(
                LayersError::LowestLayerReached,
            ) && *final(self) == *old(self),
    {
        if self.current_layer == 0 {
            Err(LayersError::LowestLayerReached)
        } else {
            self.current_layer = self.current_layer - 1;
            Ok(())
        }
    }

    /// The index of the currently active layer.
    pub fn get_current_layer_id(&self) -> (id: usize)
        ensures
            id as int == self.current(),
    {
        self.current_layer
    }

    /// The currently active layer.
    pub fn get_current_layer(&self) -> (l: &Layer<M, N>)
        requires
            self.wf(),
        ensures
            l@ == self.stack()[self.current()],
    {
        &self.layers[self.current_layer]
    }

    /// The layer at index `layer`.
    pub fn get_layer(&self, layer: usize) -> (l: &Layer<M, N>)
        requires
            layer < L,
        ensures
            l@ == self.stack()[layer as int],
    {
        &self.layers[layer]
    }

    /// Makes `layer` the active layer; an out-of-range index is rejected and
    /// the state is left untouched (fail closed).
    pub fn set_current_layer(&mut self, layer: usize)
        ensures
            final(self).stack() == old(self).stack(),
            layer < L ==> final(self).current() == layer as int,
            layer >= L ==> *final(self) == *old(self),
    {
        if layer < L {
            self.current_layer = layer;
        }
    }

    /// The layer index a `Layer` action switches to, if it is one and the
    /// index is configured.
    pub fn get_layer_from_key(&self, key: KeyAction) -> (r: Option<usize>)
        ensures
            r == match key {
                KeyAction::Layer(n) => if n < L {
                    Some(n)
                } else {
                    None::<usize>
                },
                _ => None::<usize>,
            },
    {
        if let KeyAction::Layer(layer) = key {
            if layer < L {
                return Some(layer);
            }
        }
        None
    }
}

} // verus!
