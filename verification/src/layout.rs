//! Where the function patterns of a symbol lie and what they show, stated
//! module by module.

use crate::alignment::alignment_coords_of;
use crate::alignment::ALIGNMENT_SPACING;
use crate::alignment::lemma_alignment_table;
use crate::grid::on_ring;
use crate::version::is_version_number;
use crate::version::side_length_of;
use vstd::prelude::*;

verus! {

/// Modules along one side of a finder pattern.
pub const FINDER_PATTERN_SIZE: usize = 7;

/// Whether `(x, y)` lies in the `n` by `n` square whose top-left module is
/// `(ox, oy)`.
pub open spec fn in_square(ox: int, oy: int, n: int, x: int, y: int) -> bool {
    ox <= x < ox + n && oy <= y < oy + n
}

/// Whether `(x, y)` lies in the finder pattern whose top-left module is
/// `(ox, oy)`.
pub open spec fn in_finder_at(ox: int, oy: int, x: int, y: int) -> bool {
    in_square(ox, oy, FINDER_PATTERN_SIZE as int, x, y)
}

/// What the finder pattern with top-left module `(ox, oy)` shows at `(x, y)`:
/// dark, but for the light ring one module inside its edge.
pub open spec fn finder_dark_at(ox: int, oy: int, x: int, y: int) -> bool {
    !on_ring(ox + 1, oy + 1, FINDER_PATTERN_SIZE - 2, x, y)
}

/// Whether `(x, y)` lies in one of the three finder patterns of a symbol with
/// `side` modules a side.
pub open spec fn in_finder(side: int, x: int, y: int) -> bool {
    ||| in_finder_at(0, 0, x, y)
    ||| in_finder_at(0, side - FINDER_PATTERN_SIZE, x, y)
    ||| in_finder_at(side - FINDER_PATTERN_SIZE, 0, x, y)
}

/// What the finder pattern that holds `(x, y)` shows there.
pub open spec fn finder_dark(side: int, x: int, y: int) -> bool {
    if in_finder_at(0, 0, x, y) {
        finder_dark_at(0, 0, x, y)
    } else if in_finder_at(0, side - FINDER_PATTERN_SIZE, x, y) {
        finder_dark_at(0, side - FINDER_PATTERN_SIZE, x, y)
    } else {
        finder_dark_at(side - FINDER_PATTERN_SIZE, 0, x, y)
    }
}

/// Whether `(x, y)` lies in the one-module border that parts a finder pattern
/// from the rest of the symbol.
pub open spec fn in_separator(side: int, x: int, y: int) -> bool {
    ||| y == 7 && 0 <= x <= 7
    ||| y == side - 8 && 0 <= x <= 7
    ||| y == 7 && side - 8 <= x < side
    ||| x == 7 && 0 <= y <= 6
    ||| x == side - 8 && 0 <= y <= 6
    ||| x == 7 && side - 7 <= y < side
}

/// Whether `(x, y)` lies in the strips along row 8 and column 8 that are kept
/// for format information.
pub open spec fn in_format_strip(side: int, x: int, y: int) -> bool {
    ||| y == 8 && (0 <= x <= 8 || side - 9 <= x < side)
    ||| x == 8 && (0 <= y <= 7 || side - 8 <= y < side)
}

/// Whether `(x, y)` lies on a timing pattern: row 6 or column 6.
pub open spec fn on_timing(x: int, y: int) -> bool {
    x == 6 || y == 6
}

/// How far along its timing pattern `(x, y)` lies.
pub open spec fn timing_index(x: int, y: int) -> int {
    if y == 6 {
        x
    } else {
        y
    }
}

/// What a timing pattern shows at `(x, y)`: dark on even coordinates.
pub open spec fn timing_dark(x: int, y: int) -> bool {
    timing_index(x, y) % 2 == 0
}

/// Whether `(x, y)` belongs to a corner of the symbol: a finder pattern, its
/// separator or a format strip.
pub open spec fn in_corner(side: int, x: int, y: int) -> bool {
    in_finder(side, x, y) || in_separator(side, x, y) || in_format_strip(side, x, y)
}

/// Whether `(x, y)` is reserved before any alignment pattern is placed.
pub open spec fn base_reserved(side: int, x: int, y: int) -> bool {
    in_corner(side, x, y) || on_timing(x, y)
}

/// Whether `(x, y)` lies in the five by five alignment pattern centred on
/// `(cx, cy)`.
pub open spec fn in_block(cx: int, cy: int, x: int, y: int) -> bool {
    in_square(cx - 2, cy - 2, 5, x, y)
}

/// What the alignment pattern centred on `(cx, cy)` shows at `(x, y)`: dark,
/// but for the light ring around its centre.
pub open spec fn block_dark(cx: int, cy: int, x: int, y: int) -> bool {
    !on_ring(cx - 1, cy - 1, 3, x, y)
}

/// Whether none of the four modules diagonally two away from `(cx, cy)` is
/// reserved before the alignment patterns are placed.
pub open spec fn probes_clear(side: int, cx: int, cy: int) -> bool {
    &&& !base_reserved(side, cx - 2, cy - 2)
    &&& !base_reserved(side, cx - 2, cy + 2)
    &&& !base_reserved(side, cx + 2, cy - 2)
    &&& !base_reserved(side, cx + 2, cy + 2)
}

/// Whether some alignment coordinate of `version` lies within two of `x`.
pub open spec fn near_alignment_coord(version: int, x: int) -> bool {
    exists|i: int|
        0 <= i < alignment_coords_of(version).len() && #[trigger] alignment_coords_of(version)[i]
            - 2 <= x <= alignment_coords_of(version)[i] + 2
}

/// The place, in the table row of `version`, of the alignment coordinate
/// within two of `x`.
pub open spec fn alignment_slot(version: int, x: int) -> int {
    choose|i: int|
        0 <= i < alignment_coords_of(version).len() && #[trigger] alignment_coords_of(version)[i]
            - 2 <= x <= alignment_coords_of(version)[i] + 2
}

/// Whether version `version` places an alignment pattern at column slot `i`
/// and row slot `j` of its table row.
pub open spec fn placed_at(version: int, i: int, j: int) -> bool {
    &&& 0 <= i < alignment_coords_of(version).len()
    &&& 0 <= j < alignment_coords_of(version).len()
    &&& probes_clear(
        side_length_of(version),
        alignment_coords_of(version)[i],
        alignment_coords_of(version)[j],
    )
}

/// Whether `(x, y)` lies in an alignment pattern of version `version`.
pub open spec fn in_alignment(version: int, x: int, y: int) -> bool {
    &&& near_alignment_coord(version, x)
    &&& near_alignment_coord(version, y)
    &&& placed_at(version, alignment_slot(version, x), alignment_slot(version, y))
}

/// What the alignment pattern that holds `(x, y)` shows there.
pub open spec fn alignment_dark(version: int, x: int, y: int) -> bool {
    block_dark(
        alignment_coords_of(version)[alignment_slot(version, x)],
        alignment_coords_of(version)[alignment_slot(version, y)],
        x,
        y,
    )
}

/// The value that the structure of a version `version` symbol fixes for the
/// module `(x, y)`, if it fixes one. Later patterns overrule earlier ones:
/// alignment over finder over timing over format strip.
pub open spec fn fixed_value(version: int, x: int, y: int) -> Option<bool> {
    let side = side_length_of(version);
    if in_alignment(version, x, y) {
        Some(alignment_dark(version, x, y))
    } else if in_finder(side, x, y) {
        Some(finder_dark(side, x, y))
    } else if on_timing(x, y) {
        Some(timing_dark(x, y))
    } else if in_format_strip(side, x, y) {
        Some(false)
    } else {
        None
    }
}

/// Whether the function patterns of version `version` show `(x, y)` dark.
pub open spec fn is_dark(version: int, x: int, y: int) -> bool {
    fixed_value(version, x, y) == Some(true)
}

/// Whether `(x, y)` is closed to data in a version `version` symbol.
pub open spec fn is_reserved(version: int, x: int, y: int) -> bool {
    base_reserved(side_length_of(version), x, y) || in_alignment(version, x, y)
}

/// Within two of the coordinate in slot `i` means slot `i` and no other.
pub proof fn lemma_alignment_slot(version: int, i: int, x: int)
    requires
        is_version_number(version),
        0 <= i < alignment_coords_of(version).len(),
        alignment_coords_of(version)[i] - 2 <= x <= alignment_coords_of(version)[i] + 2,
    ensures
        near_alignment_coord(version, x),
        alignment_slot(version, x) == i,
{
    lemma_alignment_table(version);
    let k = alignment_slot(version, x);
    assert(0 <= k < alignment_coords_of(version).len() && alignment_coords_of(version)[k] - 2 <= x
        <= alignment_coords_of(version)[k] + 2);
    if k < i {
        assert(alignment_coords_of(version)[k] + ALIGNMENT_SPACING <= alignment_coords_of(
            version,
        )[i]);
    }
    if i < k {
        assert(alignment_coords_of(version)[i] + ALIGNMENT_SPACING <= alignment_coords_of(
            version,
        )[k]);
    }
}

/// A module near an alignment coordinate is within two of the coordinate in
/// its slot.
pub proof fn lemma_alignment_slot_near(version: int, x: int)
    requires
        near_alignment_coord(version, x),
    ensures
        0 <= alignment_slot(version, x) < alignment_coords_of(version).len(),
        alignment_coords_of(version)[alignment_slot(version, x)] - 2 <= x <= alignment_coords_of(
            version,
        )[alignment_slot(version, x)] + 2,
{
}

/// A module lies in an alignment pattern exactly when the square of some
/// placed pattern holds it.
pub proof fn lemma_in_alignment(version: int, x: int, y: int)
    requires
        is_version_number(version),
    ensures
        in_alignment(version, x, y) <==> exists|i: int, j: int|
            #[trigger] placed_at(version, i, j) && in_block(
                alignment_coords_of(version)[i],
                alignment_coords_of(version)[j],
                x,
                y,
            ),
{
    if in_alignment(version, x, y) {
        lemma_alignment_slot_near(version, x);
        lemma_alignment_slot_near(version, y);
        assert(placed_at(version, alignment_slot(version, x), alignment_slot(version, y)));
    }
    if exists|i: int, j: int|
        #[trigger] placed_at(version, i, j) && in_block(
            alignment_coords_of(version)[i],
            alignment_coords_of(version)[j],
            x,
            y,
        ) {
        let (i, j) = choose|i: int, j: int|
            #[trigger] placed_at(version, i, j) && in_block(
                alignment_coords_of(version)[i],
                alignment_coords_of(version)[j],
                x,
                y,
            );
        lemma_alignment_slot(version, i, x);
        lemma_alignment_slot(version, j, y);
    }
}

/// The reservation mask covers every module whose value the function
/// patterns fix.
pub proof fn lemma_reserved_covers_fixed(version: int, x: int, y: int)
    ensures
        fixed_value(version, x, y) is Some ==> is_reserved(version, x, y),
        is_dark(version, x, y) ==> is_reserved(version, x, y),
{
}

/// Placing alignment patterns takes no module out of the reservation mask.
pub proof fn lemma_reserved_keeps_base(version: int, x: int, y: int)
    ensures
        base_reserved(side_length_of(version), x, y) ==> is_reserved(version, x, y),
{
}

/// No diagonal probe of a placed alignment pattern was reserved before the
/// alignment patterns were placed.
pub proof fn lemma_alignment_probes_clear(version: int, x: int, y: int)
    requires
        in_alignment(version, x, y),
    ensures
        ({
            let cx = alignment_coords_of(version)[alignment_slot(version, x)];
            let cy = alignment_coords_of(version)[alignment_slot(version, y)];
            let side = side_length_of(version);
            &&& in_block(cx, cy, x, y)
            &&& !base_reserved(side, cx - 2, cy - 2)
            &&& !base_reserved(side, cx - 2, cy + 2)
            &&& !base_reserved(side, cx + 2, cy - 2)
            &&& !base_reserved(side, cx + 2, cy + 2)
        }),
{
    lemma_alignment_slot_near(version, x);
    lemma_alignment_slot_near(version, y);
}

/// An alignment pattern is placed clear of every corner: none of its modules
/// is part of a finder pattern, a separator or a format strip, and all of them
/// lie inside the symbol.
pub proof fn lemma_alignment_avoids_corners(version: int, x: int, y: int)
    requires
        is_version_number(version),
        in_alignment(version, x, y),
    ensures
        !in_corner(side_length_of(version), x, y),
        0 <= x < side_length_of(version),
        0 <= y < side_length_of(version),
{
    lemma_alignment_slot_near(version, x);
    lemma_alignment_slot_near(version, y);
    lemma_coord_shape(version, alignment_slot(version, x));
    lemma_coord_shape(version, alignment_slot(version, y));
}

/// A coordinate of the table is 6, or seven short of the side, or at least
/// twelve away from both.
pub proof fn lemma_coord_shape(version: int, i: int)
    requires
        is_version_number(version),
        0 <= i < alignment_coords_of(version).len(),
    ensures
        ({
            let c = alignment_coords_of(version)[i];
            let side = side_length_of(version);
            c == 6 || c == side - 7 || 18 <= c <= side - 19
        }),
{
    lemma_alignment_table(version);
    let t = alignment_coords_of(version);
    if 0 < i < t.len() - 1 {
        assert(t[0] + ALIGNMENT_SPACING <= t[i]);
        assert(t[i] + ALIGNMENT_SPACING <= t[t.len() - 1]);
    }
}

/// Distance of `(x, y)` from `(cx, cy)`, counted in rings around it.
pub open spec fn ring_distance(cx: int, cy: int, x: int, y: int) -> int {
    let dx = if x < cx {
        cx - x
    } else {
        x - cx
    };
    let dy = if y < cy {
        cy - y
    } else {
        y - cy
    };
    if dx < dy {
        dy
    } else {
        dx
    }
}

/// Each finder pattern shows, from its edge inwards, a dark ring, a light
/// ring, a dark ring and a dark centre: a module of the pattern whose
/// top-left module is `(ox, oy)` is light exactly two rings from the centre.
pub proof fn lemma_finder_rings(version: int, ox: int, oy: int, x: int, y: int)
    requires
        is_version_number(version),
        (ox == 0 && oy == 0) || (ox == 0 && oy == side_length_of(version) - FINDER_PATTERN_SIZE)
            || (ox == side_length_of(version) - FINDER_PATTERN_SIZE && oy == 0),
        in_finder_at(ox, oy, x, y),
    ensures
        fixed_value(version, x, y) == Some(ring_distance(ox + 3, oy + 3, x, y) != 2),
        is_reserved(version, x, y),
{
    if in_alignment(version, x, y) {
        lemma_alignment_avoids_corners(version, x, y);
    }
}

/// An alignment pattern shows a dark ring, a light ring and a dark centre:
/// a module of a placed pattern is light exactly one ring from the centre.
pub proof fn lemma_alignment_rings(version: int, i: int, j: int, x: int, y: int)
    requires
        is_version_number(version),
        placed_at(version, i, j),
        in_block(alignment_coords_of(version)[i], alignment_coords_of(version)[j], x, y),
    ensures
        fixed_value(version, x, y) == Some(
            ring_distance(alignment_coords_of(version)[i], alignment_coords_of(version)[j], x, y)
                != 1,
        ),
        is_reserved(version, x, y),
{
    lemma_alignment_slot(version, i, x);
    lemma_alignment_slot(version, j, y);
}

} // verus!
