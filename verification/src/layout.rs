//! Key actions and the assembly of one layer of the keyboard from smaller
//! blocks of keys.

use keyberon::key_code::KeyCode;
use vstd::prelude::*;
use crate::{COLS, ROWS};

verus! {

/// What a key of a layer does when it is pressed.
#[derive(Clone, Copy, Debug, PartialEq, Eq)]
pub enum Action {
    /// Nothing at all.
    NoOp,
    /// Nothing of its own: the key of the default layer shows through.
    Trans,
    /// One key code.
    KeyCode(KeyCode),
    /// Several key codes, sent as if their keys went down together.
    MultipleKeyCodes(&'static [KeyCode]),
    /// While held, adds this number to the number of the active layer.
    Layer(u8),
    /// Makes the layer of this number the default layer.
    DefaultLayer(u8),
}

/// The action that sends `kc`.
pub fn k(kc: KeyCode) -> (a: Action)
    ensures
        a == Action::KeyCode(kc),
{
    Action::KeyCode(kc)
}

/// The action that shifts to `layer` while held.
pub fn l(layer: u8) -> (a: Action)
    ensures
        a == Action::Layer(layer),
{
    Action::Layer(layer)
}

/// The action that sends all of `kcs` at once.
pub fn m(kcs: &'static [KeyCode]) -> (a: Action)
    ensures
        a == Action::MultipleKeyCodes(kcs),
{
    Action::MultipleKeyCodes(kcs)
}

/// One layer: an action for every key of the whole keyboard.
pub type Layer = [[Action; COLS]; ROWS];

/// A block of keys as a grid of plain values, row by row.
pub open spec fn grid_of<const R: usize, const C: usize>(block: [[Action; C]; R]) -> Seq<Seq<Action>> {
    Seq::new(R as nat, |y: int| block@[y]@)
}

/// A layer under construction. It starts out transparent everywhere, and
/// blocks of keys are laid onto it one after the other.
pub struct LayerCombiner {
    layer: Layer,
}

impl LayerCombiner {
    /// The layer as it stands, as `ROWS` rows of `COLS` actions.
    pub closed spec fn view(&self) -> Seq<Seq<Action>> {
        grid_of(self.layer)
    }

    /// Whether the key at row `y`, column `x` of the layer is still transparent.
    pub open spec fn is_free(&self, y: int, x: int) -> bool {
        0 <= y < ROWS && 0 <= x < COLS && self@[y][x] is Trans
    }

    /// Whether `block`, with its top left key at column `shift_x` and row
    /// `shift_y`, can be laid onto the layer: each of its keys that is not
    /// transparent falls inside the layer, on a key that is still transparent.
    pub open spec fn accepts(&self, block: Seq<Seq<Action>>, shift_x: int, shift_y: int) -> bool {
        forall|y: int, x: int|
            0 <= y < block.len() && 0 <= x < block[y].len() && !(#[trigger] block[y][x] is Trans)
                ==> self.is_free(y + shift_y, x + shift_x)
    }

    /// The action at row `y`, column `x` once `block` has been laid onto the
    /// layer: that of the block where the block has a key there that is not
    /// transparent, else the one the layer had.
    pub open spec fn overlaid(
        &self,
        block: Seq<Seq<Action>>,
        shift_x: int,
        shift_y: int,
        y: int,
        x: int,
    ) -> Action {
        let by = y - shift_y;
        let bx = x - shift_x;
        if 0 <= by < block.len() && 0 <= bx < block[by].len() && !(block[by][bx] is Trans) {
            block[by][bx]
        } else {
            self@[y][x]
        }
    }

    /// A layer that is transparent everywhere.
    pub fn new() -> (c: Self)
        ensures
            c@.len() == ROWS,
            forall|y: int| 0 <= y < ROWS ==> (#[trigger] c@[y]).len() == COLS,
            forall|y: int, x: int| 0 <= y < ROWS && 0 <= x < COLS ==> #[trigger] c@[y][x] is Trans,
    {
        LayerCombiner { layer: [[Action::Trans; COLS]; ROWS] }
    }

    /// Decides whether `to_combine` can be laid onto the layer at the given
    /// place.
    pub fn can_combine<const R: usize, const C: usize>(
        &self,
        to_combine: &[[Action; C]; R],
        shift_x: usize,
        shift_y: usize,
    ) -> (ok: bool)
        ensures
            ok == self.accepts(grid_of(*to_combine), shift_x as int, shift_y as int),
    {
        let mut y: usize = 0;
        while y < R
            invariant
                0 <= y <= R,
                forall|v: int, u: int|
                    0 <= v < y && 0 <= u < C && !(#[trigger] grid_of(*to_combine)[v][u] is Trans)
                        ==> self.is_free(v + shift_y, u + shift_x),
            decreases R - y,
        {
            let mut x: usize = 0;
            while x < C
                invariant
                    0 <= y < R,
                    0 <= x <= C,
                    forall|v: int, u: int|
                        0 <= v < y && 0 <= u < C && !(#[trigger] grid_of(*to_combine)[v][u] is Trans)
                            ==> self.is_free(v + shift_y, u + shift_x),
                    forall|u: int|
                        0 <= u < x && !(#[trigger] grid_of(*to_combine)[y as int][u] is Trans)
                            ==> self.is_free(y + shift_y, u + shift_x),
                decreases C - x,
            {
                let free = match to_combine[y][x] {
                    Action::Trans => true,
                    _ => shift_y < ROWS && y < ROWS - shift_y && shift_x < COLS && x < COLS
                        - shift_x && match self.layer[y + shift_y][x + shift_x] {
                        Action::Trans => true,
                        _ => false,
                    },
                };
                if !free {
                    assert(!(grid_of(*to_combine)[y as int][x as int] is Trans));
                    return false;
                }
                x += 1;
            }
            y += 1;
        }
        true
    }

    /// Lays `to_combine` onto the layer, its top left key at column `shift_x`
    /// and row `shift_y`. Keys of the block that are transparent leave the
    /// layer as it is. A block that the layer does not accept is a mistake in
    /// the table, which `can_combine` finds.
    pub fn combine<const R: usize, const C: usize>(
        self,
        to_combine: [[Action; C]; R],
        shift_x: usize,
        shift_y: usize,
    ) -> (c: Self)
        requires
            self.accepts(grid_of(to_combine), shift_x as int, shift_y as int),
        ensures
            c@.len() == self@.len(),
            forall|y: int| 0 <= y < ROWS ==> (#[trigger] c@[y]).len() == self@[y].len(),
            forall|y: int, x: int|
                0 <= y < ROWS && 0 <= x < COLS ==> #[trigger] c@[y][x] == self.overlaid(
                    grid_of(to_combine),
                    shift_x as int,
                    shift_y as int,
                    y,
                    x,
                ),
    {
        let ghost block = grid_of(to_combine);
        let ghost sx = shift_x as int;
        let ghost sy = shift_y as int;
        let mut out = self;
        let mut y: usize = 0;
        while y < R
            invariant
                0 <= y <= R,
                block == grid_of(to_combine),
                sx == shift_x,
                sy == shift_y,
                self.accepts(block, sx, sy),
                forall|v: int, u: int|
                    0 <= v < ROWS && 0 <= u < COLS ==> #[trigger] out@[v][u] == (if v - sy < y {
                        self.overlaid(block, sx, sy, v, u)
                    } else {
                        self@[v][u]
                    }),
            decreases R - y,
        {
            let mut x: usize = 0;
            while x < C
                invariant
                    0 <= y < R,
                    0 <= x <= C,
                    block == grid_of(to_combine),
                    sx == shift_x,
                    sy == shift_y,
                    self.accepts(block, sx, sy),
                    forall|v: int, u: int|
                        0 <= v < ROWS && 0 <= u < COLS ==> #[trigger] out@[v][u] == (if v - sy < y
                            || (v - sy == y && u - sx < x) {
                            self.overlaid(block, sx, sy, v, u)
                        } else {
                            self@[v][u]
                        }),
                decreases C - x,
            {
                let cell = to_combine[y][x];
                match cell {
                    Action::Trans => {},
                    _ => {
                        assert(!(block[y as int][x as int] is Trans));
                        assert(self.is_free(y + sy, x + sx));
                        out.layer[y + shift_y][x + shift_x] = cell;
                    },
                }
                x += 1;
            }
            y += 1;
        }
        out
    }

    /// The finished layer.
    pub fn into_layer(self) -> (layer: Layer)
        ensures
            grid_of(layer) == self@,
    {
        self.layer
    }
}

} // verus!
