//! Square grids of modules, one bit each, stored row by row.

use crate::bits::bits_of;
use crate::bits::bitvec_get;
use crate::bits::bitvec_index;
use crate::bits::bitvec_repeat;
use crate::bits::bitvec_set;
use crate::bits::BitBuffer;
use crate::version::is_version_number;
use crate::version::side_length_of;
use crate::version::QrVersion;
use vstd::prelude::*;

verus! {

/// Whether `(cx, cy)` lies on the outline of the `n` by `n` square whose
/// top-left module is `(x, y)`.
pub open spec fn on_ring(x: int, y: int, n: int, cx: int, cy: int) -> bool {
    &&& x <= cx < x + n
    &&& y <= cy < y + n
    &&& (cx == x || cx == x + n - 1 || cy == y || cy == y + n - 1)
}

/// A square grid of modules for one symbol version.
pub struct QrRaw {
    version: QrVersion,
    bit_vec: BitBuffer,
}

impl QrRaw {
    #[verifier::type_invariant]
    spec fn well_formed(self) -> bool {
        &&& is_version_number(self.version@)
        &&& bits_of(self.bit_vec).len() == side_length_of(self.version@) * side_length_of(
            self.version@,
        )
    }

    /// The version this grid was made for.
    pub closed spec fn version_number(&self) -> int {
        self.version@
    }

    /// Modules along one side.
    pub open spec fn side(&self) -> int {
        side_length_of(self.version_number())
    }

    /// All modules, row by row from the top, each row left to right.
    pub closed spec fn cells(&self) -> Seq<bool> {
        bits_of(self.bit_vec)
    }

    /// The module in column `x` of row `y`.
    pub open spec fn at(&self, x: int, y: int) -> bool {
        self.cells()[y * self.side() + x]
    }

    /// Whether `(x, y)` names a module of this grid.
    pub open spec fn holds(&self, x: int, y: int) -> bool {
        0 <= x < self.side() && 0 <= y < self.side()
    }

    /// A grid for `version` with every module light.
    pub fn new(version: QrVersion) -> (grid: QrRaw)
        ensures
            grid.version_number() == version@,
            grid.cells() == Seq::new((grid.side() * grid.side()) as nat, |i: int| false),
    {
        let side = version.side_length();
        assert(side * side <= 177 * 177) by (nonlinear_arith)
            requires
                side <= 177,
        ;
        let len = side * side;
        QrRaw { version, bit_vec: bitvec_repeat(false, len) }
    }

    /// Modules along one side.
    pub fn side_length(&self) -> (side: usize)
        ensures
            side == self.side(),
            21 <= side <= 177,
            self.cells().len() == side * side,
    {
        proof {
            use_type_invariant(self);
        }
        self.version.side_length()
    }

    /// The version this grid was made for.
    pub fn version(&self) -> (version: QrVersion)
        ensures
            version@ == self.version_number(),
    {
        self.version
    }

    /// Where the module in column `x` of row `y` is stored.
    pub fn to_index(&self, x: usize, y: usize) -> (index: usize)
        requires
            self.holds(x as int, y as int),
        ensures
            index == y * self.side() + x,
            index < self.cells().len(),
    {
        let side = self.side_length();
        assert(y * side + x < side * side && y * side <= side * side && side * side <= 177 * 177)
            by (nonlinear_arith)
            requires
                x < side,
                y < side,
                side <= 177,
        ;
        y * side + x
    }

    /// Column and row of the module stored at `index`.
    pub fn to_coords(&self, index: usize) -> (coords: (usize, usize))
        ensures
            coords.0 == index % (self.side() as usize),
            coords.1 == index / (self.side() as usize),
            index < self.cells().len() ==> self.holds(coords.0 as int, coords.1 as int),
            coords.1 * self.side() + coords.0 == index,
    {
        let side = self.side_length();
        let x = index % side;
        let y = index / side;
        assert(y * side + x == index && (index < side * side ==> y < side)) by (nonlinear_arith)
            requires
                side > 0,
                x == index % side,
                y == index / side,
        ;
        (x, y)
    }

    /// Sets the module in column `x` of row `y`; every other module stays.
    pub fn set(&mut self, x: usize, y: usize, value: bool)
        requires
            old(self).holds(x as int, y as int),
        ensures
            final(self).version_number() == old(self).version_number(),
            final(self).cells() == old(self).cells().update(y * old(self).side() + x, value),
            forall|cx: int, cy: int|
                old(self).holds(cx, cy) ==> #[trigger] final(self).at(cx, cy) == if cx == x && cy
                    == y {
                    value
                } else {
                    old(self).at(cx, cy)
                },
    {
        let index = self.to_index(x, y);
        proof {
            use_type_invariant(&*self);
        }
        bitvec_set(&mut self.bit_vec, index, value);
        proof {
            let side = old(self).side();
            assert forall|cx: int, cy: int| old(self).holds(cx, cy) implies #[trigger] self.at(
                cx,
                cy,
            ) == if cx == x && cy == y {
                value
            } else {
                old(self).at(cx, cy)
            } by {
                lemma_index_unique(side, x as int, y as int, cx, cy);
                lemma_index_in_range(side, cx, cy);
            }
        }
    }

    /// The module in column `x` of row `y`.
    pub fn get_unchecked(&self, x: usize, y: usize) -> (value: bool)
        requires
            self.holds(x as int, y as int),
        ensures
            value == self.at(x as int, y as int),
    {
        let index = self.to_index(x, y);
        bitvec_index(&self.bit_vec, index)
    }

    /// The module in column `x` of row `y`, or `None` outside the grid.
    pub fn get(&self, x: usize, y: usize) -> (value: Option<bool>)
        ensures
            value == if self.holds(x as int, y as int) {
                Some(self.at(x as int, y as int))
            } else {
                None
            },
    {
        let side = self.side_length();
        if x < side && y < side {
            let index = self.to_index(x, y);
            bitvec_get(&self.bit_vec, index)
        } else {
            None
        }
    }

    /// Sets the modules of row `y` from column `x1` to column `x2`, both
    /// included; nothing when `x1` is past `x2`.
    pub fn draw_horizontal_line(&mut self, x1: usize, x2: usize, y: usize, value: bool)
        requires
            x1 <= x2 ==> old(self).holds(x2 as int, y as int),
        ensures
            final(self).version_number() == old(self).version_number(),
            forall|cx: int, cy: int|
                old(self).holds(cx, cy) ==> #[trigger] final(self).at(cx, cy) == if cy == y && x1
                    <= cx <= x2 {
                    value
                } else {
                    old(self).at(cx, cy)
                },
    {
        if x1 > x2 {
            return ;
        }
        let side = self.side_length();
        let mut x = x1;
        while x <= x2
            invariant
                x1 <= x <= x2 + 1,
                x2 < side,
                old(self).holds(x2 as int, y as int),
                self.version_number() == old(self).version_number(),
                forall|cx: int, cy: int|
                    old(self).holds(cx, cy) ==> #[trigger] self.at(cx, cy) == if cy == y && x1
                        <= cx < x {
                        value
                    } else {
                        old(self).at(cx, cy)
                    },
            decreases x2 + 1 - x,
        {
            self.set(x, y, value);
            x = x + 1;
        }
    }

    /// Sets the modules of column `x` from row `y1` to row `y2`, both
    /// included; nothing when `y1` is past `y2`.
    pub fn draw_vertical_line(&mut self, x: usize, y1: usize, y2: usize, value: bool)
        requires
            y1 <= y2 ==> old(self).holds(x as int, y2 as int),
        ensures
            final(self).version_number() == old(self).version_number(),
            forall|cx: int, cy: int|
                old(self).holds(cx, cy) ==> #[trigger] final(self).at(cx, cy) == if cx == x && y1
                    <= cy <= y2 {
                    value
                } else {
                    old(self).at(cx, cy)
                },
    {
        if y1 > y2 {
            return ;
        }
        let side = self.side_length();
        let mut y = y1;
        while y <= y2
            invariant
                y1 <= y <= y2 + 1,
                y2 < side,
                old(self).holds(x as int, y2 as int),
                self.version_number() == old(self).version_number(),
                forall|cx: int, cy: int|
                    old(self).holds(cx, cy) ==> #[trigger] self.at(cx, cy) == if cx == x && y1
                        <= cy < y {
                        value
                    } else {
                        old(self).at(cx, cy)
                    },
            decreases y2 + 1 - y,
        {
            self.set(x, y, value);
            y = y + 1;
        }
    }

    /// Sets the outline of the `n` by `n` square whose top-left module is
    /// `(x, y)`; nothing when `n` is zero.
    pub fn draw_square(&mut self, x: usize, y: usize, n: usize, value: bool)
        requires
            n > 0 ==> x + n <= old(self).side() && y + n <= old(self).side(),
        ensures
            final(self).version_number() == old(self).version_number(),
            forall|cx: int, cy: int|
                old(self).holds(cx, cy) ==> #[trigger] final(self).at(cx, cy) == if on_ring(
                    x as int,
                    y as int,
                    n as int,
                    cx,
                    cy,
                ) {
                    value
                } else {
                    old(self).at(cx, cy)
                },
    {
        if n == 0 {
            return ;
        }
        let side = self.side_length();
        let n = n.saturating_sub(1);
        self.draw_horizontal_line(x, x + n, y, value);
        self.draw_horizontal_line(x, x + n, y + n, value);
        self.draw_vertical_line(x, y + 1, (y + n).saturating_sub(1), value);
        self.draw_vertical_line(x + n, y + 1, (y + n).saturating_sub(1), value);
    }
}

/// Distinct modules of a grid are stored at distinct places.
pub proof fn lemma_index_unique(side: int, x: int, y: int, cx: int, cy: int)
    requires
        0 <= x < side,
        0 <= cx < side,
        0 <= y,
        0 <= cy,
    ensures
        y * side + x == cy * side + cx <==> x == cx && y == cy,
{
    assert(y * side + x == cy * side + cx ==> y == cy) by (nonlinear_arith)
        requires
            0 <= x < side,
            0 <= cx < side,
            0 <= y,
            0 <= cy,
    ;
}

/// Every module of a grid is stored within its `side * side` bits.
pub proof fn lemma_index_in_range(side: int, x: int, y: int)
    requires
        0 <= x < side,
        0 <= y < side,
    ensures
        0 <= y * side + x < side * side,
{
    assert(0 <= y * side + x < side * side) by (nonlinear_arith)
        requires
            0 <= x < side,
            0 <= y < side,
    ;
}

} // verus!
