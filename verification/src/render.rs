//! Grey levels for showing a symbol under construction.

use crate::grid::QrRaw;
use vstd::prelude::*;

verus! {

/// Grey level of a dark module.
pub const DARK_LEVEL: u8 = 0;

/// Grey level of a light module.
pub const LIGHT_LEVEL: u8 = 255;

/// Grey level of a module whose value is still open.
pub const OPEN_LEVEL: u8 = 127;

/// The grey level that shows a module: mid-grey while it is not reserved,
/// else black when dark and white when light.
pub open spec fn shade_of(dark: bool, reserved: bool) -> u8 {
    if !reserved {
        OPEN_LEVEL
    } else if dark {
        DARK_LEVEL
    } else {
        LIGHT_LEVEL
    }
}

/// Whether `mask` reserves the module stored at `index`; without a mask
/// every module counts as reserved.
pub open spec fn reserved_in(mask: Option<&QrRaw>, index: int) -> bool {
    match mask {
        Some(mask) => mask.cells()[index],
        None => true,
    }
}

/// The grey level that shows a module.
pub fn shade(dark: bool, reserved: bool) -> (level: u8)
    ensures
        level == shade_of(dark, reserved),
{
    if !reserved {
        OPEN_LEVEL
    } else if dark {
        DARK_LEVEL
    } else {
        LIGHT_LEVEL
    }
}

/// The grey levels that show `grid`, row by row: black and white for its
/// dark and light modules, but mid-grey wherever `mask`, if there is one,
/// leaves a module open.
pub fn render(grid: &QrRaw, mask: Option<&QrRaw>) -> (levels: Vec<u8>)
    requires
        mask matches Some(mask) ==> mask.version_number() == grid.version_number(),
    ensures
        levels@.len() == grid.side() * grid.side(),
        forall|index: int|
            0 <= index < levels@.len() ==> #[trigger] levels@[index] == shade_of(
                grid.cells()[index],
                reserved_in(mask, index),
            ),
{
    let side = grid.side_length();
    assert(side * side <= 177 * 177) by (nonlinear_arith)
        requires
            side <= 177,
    ;
    let count = side * side;
    let mut levels: Vec<u8> = Vec::with_capacity(count);
    let mut index: usize = 0;
    while index < count
        invariant
            index <= count == side * side,
            side == grid.side(),
            grid.cells().len() == count,
            mask matches Some(mask) ==> mask.version_number() == grid.version_number(),
            levels@.len() == index,
            forall|k: int|
                0 <= k < index ==> #[trigger] levels@[k] == shade_of(
                    grid.cells()[k],
                    reserved_in(mask, k),
                ),
        decreases count - index,
    {
        let (x, y) = grid.to_coords(index);
        let dark = grid.get_unchecked(x, y);
        let reserved = match mask {
            Some(mask) => mask.get_unchecked(x, y),
            None => true,
        };
        levels.push(shade(dark, reserved));
        index = index + 1;
    }
    levels
}

} // verus!
