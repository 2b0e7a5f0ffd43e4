//! Builds the function-pattern grid of a symbol and its reservation mask.

use crate::alignment::alignment_coords;
use crate::alignment::alignment_coords_of;
use crate::alignment::lemma_alignment_table;
use crate::grid::lemma_index_in_range;
use crate::grid::QrRaw;
use crate::layout::alignment_dark;
use crate::layout::alignment_slot;
use crate::layout::base_reserved;
use crate::layout::block_dark;
use crate::layout::finder_dark;
use crate::layout::finder_dark_at;
use crate::layout::in_alignment;
use crate::layout::in_block;
use crate::layout::in_finder;
use crate::layout::in_finder_at;
use crate::layout::in_format_strip;
use crate::layout::in_separator;
use crate::layout::is_dark;
use crate::layout::is_reserved;
use crate::layout::lemma_alignment_slot;
use crate::layout::lemma_alignment_slot_near;
use crate::layout::lemma_reserved_covers_fixed;
use crate::layout::on_timing;
use crate::layout::placed_at;
use crate::layout::timing_dark;
use crate::layout::timing_index;
use crate::layout::FINDER_PATTERN_SIZE;
use crate::version::is_version_number;
use crate::version::side_length_of;
use crate::version::QrVersion;
use vstd::prelude::*;

verus! {

/// Whether the alignment pattern in column slot `i` and row slot `j` has had
/// its turn once `rows` whole rows and `cols` slots of the next are done.
spec fn handled(i: int, j: int, rows: int, cols: int) -> bool {
    j < rows || (j == rows && i < cols)
}

/// Whether `(x, y)` lies in an alignment pattern that has had its turn.
#[verifier::opaque]
spec fn covered(version: int, x: int, y: int, rows: int, cols: int) -> bool {
    in_alignment(version, x, y) && handled(
        alignment_slot(version, x),
        alignment_slot(version, y),
        rows,
        cols,
    )
}

/// Marks the format strips along row 8 and column 8: light in the pattern
/// grid, reserved in the mask.
fn draw_format_strips(function_patterns: &mut QrRaw, mask: &mut QrRaw)
    requires
        old(function_patterns).version_number() == old(mask).version_number(),
    ensures
        final(function_patterns).version_number() == old(function_patterns).version_number(),
        final(mask).version_number() == old(mask).version_number(),
        forall|x: int, y: int|
            old(mask).holds(x, y) ==> #[trigger] final(function_patterns).at(x, y) == (old(
                function_patterns,
            ).at(x, y) && !in_format_strip(old(mask).side(), x, y)),
        forall|x: int, y: int|
            old(mask).holds(x, y) ==> #[trigger] final(mask).at(x, y) == (old(mask).at(x, y)
                || in_format_strip(old(mask).side(), x, y)),
{
    let side = mask.side_length();
    let far = side - FINDER_PATTERN_SIZE - 2;
    function_patterns.draw_horizontal_line(0, FINDER_PATTERN_SIZE + 1, FINDER_PATTERN_SIZE + 1, false);
    mask.draw_horizontal_line(0, FINDER_PATTERN_SIZE + 1, FINDER_PATTERN_SIZE + 1, true);
    function_patterns.draw_horizontal_line(far, far + FINDER_PATTERN_SIZE + 1, FINDER_PATTERN_SIZE + 1, false);
    mask.draw_horizontal_line(far, far + FINDER_PATTERN_SIZE + 1, FINDER_PATTERN_SIZE + 1, true);

    let low = side - FINDER_PATTERN_SIZE - 1;
    function_patterns.draw_vertical_line(FINDER_PATTERN_SIZE + 1, 0, FINDER_PATTERN_SIZE, false);
    mask.draw_vertical_line(FINDER_PATTERN_SIZE + 1, 0, FINDER_PATTERN_SIZE, true);
    function_patterns.draw_vertical_line(FINDER_PATTERN_SIZE + 1, low, low + FINDER_PATTERN_SIZE, false);
    mask.draw_vertical_line(FINDER_PATTERN_SIZE + 1, low, low + FINDER_PATTERN_SIZE, true);
}

/// Draws the timing patterns along row 6 and column 6 and reserves them.
fn draw_timing(function_patterns: &mut QrRaw, mask: &mut QrRaw)
    requires
        old(function_patterns).version_number() == old(mask).version_number(),
    ensures
        final(function_patterns).version_number() == old(function_patterns).version_number(),
        final(mask).version_number() == old(mask).version_number(),
        forall|x: int, y: int|
            old(mask).holds(x, y) ==> #[trigger] final(function_patterns).at(x, y) == if on_timing(
                x,
                y,
            ) {
                timing_dark(x, y)
            } else {
                old(function_patterns).at(x, y)
            },
        forall|x: int, y: int|
            old(mask).holds(x, y) ==> #[trigger] final(mask).at(x, y) == (old(mask).at(x, y)
                || on_timing(x, y)),
{
    let side = mask.side_length();
    let mut c: usize = 0;
    while c < side
        invariant
            c <= side,
            21 <= side == old(mask).side(),
            function_patterns.version_number() == old(function_patterns).version_number(),
            mask.version_number() == old(mask).version_number(),
            old(function_patterns).version_number() == old(mask).version_number(),
            forall|x: int, y: int|
                old(mask).holds(x, y) ==> #[trigger] function_patterns.at(x, y) == if on_timing(
                    x,
                    y,
                ) && timing_index(x, y) < c {
                    timing_dark(x, y)
                } else {
                    old(function_patterns).at(x, y)
                },
            forall|x: int, y: int|
                old(mask).holds(x, y) ==> #[trigger] mask.at(x, y) == (old(mask).at(x, y) || (
                on_timing(x, y) && timing_index(x, y) < c)),
        decreases side - c,
    {
        let value = c % 2 == 0;
        function_patterns.set(c, 6, value);
        function_patterns.set(6, c, value);

        mask.set(c, 6, true);
        mask.set(6, c, true);
        c = c + 1;
    }
}

/// Draws the finder pattern whose top-left module is `(x, y)` and reserves
/// its square.
fn draw_finder(function_patterns: &mut QrRaw, mask: &mut QrRaw, x: usize, y: usize)
    requires
        is_version_number(old(mask).version_number()),
        old(function_patterns).version_number() == old(mask).version_number(),
        x + FINDER_PATTERN_SIZE <= old(mask).side(),
        y + FINDER_PATTERN_SIZE <= old(mask).side(),
    ensures
        final(function_patterns).version_number() == old(function_patterns).version_number(),
        final(mask).version_number() == old(mask).version_number(),
        forall|cx: int, cy: int|
            old(mask).holds(cx, cy) ==> #[trigger] final(function_patterns).at(cx, cy)
                == if in_finder_at(x as int, y as int, cx, cy) {
                finder_dark_at(x as int, y as int, cx, cy)
            } else {
                old(function_patterns).at(cx, cy)
            },
        forall|cx: int, cy: int|
            old(mask).holds(cx, cy) ==> #[trigger] final(mask).at(cx, cy) == (old(mask).at(cx, cy)
                || in_finder_at(x as int, y as int, cx, cy)),
{
    function_patterns.draw_square(x + 0, y + 0, 7, true);
    function_patterns.draw_square(x + 1, y + 1, 5, false);
    function_patterns.draw_square(x + 2, y + 2, 3, true);
    function_patterns.draw_square(x + 3, y + 3, 1, true);

    mask.draw_square(x + 0, y + 0, 7, true);
    mask.draw_square(x + 1, y + 1, 5, true);
    mask.draw_square(x + 2, y + 2, 3, true);
    mask.draw_square(x + 3, y + 3, 1, true);
}

/// Draws the three finder patterns and reserves them with their separators.
fn draw_finders(function_patterns: &mut QrRaw, mask: &mut QrRaw)
    requires
        old(function_patterns).version_number() == old(mask).version_number(),
    ensures
        final(function_patterns).version_number() == old(function_patterns).version_number(),
        final(mask).version_number() == old(mask).version_number(),
        forall|x: int, y: int|
            old(mask).holds(x, y) ==> #[trigger] final(function_patterns).at(x, y) == if in_finder(
                old(mask).side(),
                x,
                y,
            ) {
                finder_dark(old(mask).side(), x, y)
            } else {
                old(function_patterns).at(x, y)
            },
        forall|x: int, y: int|
            old(mask).holds(x, y) ==> #[trigger] final(mask).at(x, y) == (old(mask).at(x, y)
                || in_finder(old(mask).side(), x, y) || in_separator(old(mask).side(), x, y)),
{
    let side = mask.side_length();
    let far = side - FINDER_PATTERN_SIZE;
    draw_finder(function_patterns, mask, 0, 0);
    draw_finder(function_patterns, mask, 0, far);
    draw_finder(function_patterns, mask, far, 0);

    mask.draw_horizontal_line(0, FINDER_PATTERN_SIZE, FINDER_PATTERN_SIZE, true);
    mask.draw_horizontal_line(0, FINDER_PATTERN_SIZE, far - 1, true);
    mask.draw_horizontal_line(far - 1, far - 1 + FINDER_PATTERN_SIZE, FINDER_PATTERN_SIZE, true);

    mask.draw_vertical_line(FINDER_PATTERN_SIZE, 0, FINDER_PATTERN_SIZE - 1, true);
    mask.draw_vertical_line(far - 1, 0, FINDER_PATTERN_SIZE - 1, true);
    mask.draw_vertical_line(FINDER_PATTERN_SIZE, far, far + FINDER_PATTERN_SIZE - 1, true);
}

/// Draws the alignment pattern centred on `(x, y)` and reserves its square.
fn draw_alignment(function_patterns: &mut QrRaw, mask: &mut QrRaw, x: usize, y: usize)
    requires
        is_version_number(old(mask).version_number()),
        old(function_patterns).version_number() == old(mask).version_number(),
        2 <= x,
        x + 2 < old(mask).side(),
        2 <= y,
        y + 2 < old(mask).side(),
    ensures
        final(function_patterns).version_number() == old(function_patterns).version_number(),
        final(mask).version_number() == old(mask).version_number(),
        forall|cx: int, cy: int|
            old(mask).holds(cx, cy) ==> #[trigger] final(function_patterns).at(cx, cy)
                == if in_block(x as int, y as int, cx, cy) {
                block_dark(x as int, y as int, cx, cy)
            } else {
                old(function_patterns).at(cx, cy)
            },
        forall|cx: int, cy: int|
            old(mask).holds(cx, cy) ==> #[trigger] final(mask).at(cx, cy) == (old(mask).at(cx, cy)
                || in_block(x as int, y as int, cx, cy)),
{
    function_patterns.draw_square(x - 0, y - 0, 1, true);
    function_patterns.draw_square(x - 1, y - 1, 3, false);
    function_patterns.draw_square(x - 2, y - 2, 5, true);

    mask.draw_square(x - 0, y - 0, 1, true);
    mask.draw_square(x - 1, y - 1, 3, true);
    mask.draw_square(x - 2, y - 2, 5, true);
}

/// Whether any of the four modules diagonally two away from `(x, y)` is
/// reserved in `mask`.
fn probe_blocked(mask: &QrRaw, x: usize, y: usize) -> (blocked: bool)
    requires
        is_version_number(mask.version_number()),
        2 <= x,
        x + 2 < mask.side(),
        2 <= y,
        y + 2 < mask.side(),
    ensures
        blocked == (mask.at(x - 2, y - 2) || mask.at(x - 2, y + 2) || mask.at(x + 2, y - 2)
            || mask.at(x + 2, y + 2)),
{
    mask.get_unchecked(x - 2, y - 2) || mask.get_unchecked(x - 2, y + 2) || mask.get_unchecked(
        x + 2,
        y - 2,
    ) || mask.get_unchecked(x + 2, y + 2)
}

/// Taking the turn of slot `(i, j)` adds its pattern, if it is placed, to
/// what is covered, and nothing else.
proof fn lemma_covered_step(version: int, i: int, j: int, x: int, y: int)
    requires
        is_version_number(version),
        0 <= i < alignment_coords_of(version).len(),
        0 <= j < alignment_coords_of(version).len(),
    ensures
        covered(version, x, y, j, i + 1) == (covered(version, x, y, j, i) || (placed_at(
            version,
            i,
            j,
        ) && in_block(alignment_coords_of(version)[i], alignment_coords_of(version)[j], x, y))),
        in_block(alignment_coords_of(version)[i], alignment_coords_of(version)[j], x, y) ==> {
            &&& !covered(version, x, y, j, i)
            &&& alignment_dark(version, x, y) == block_dark(
                alignment_coords_of(version)[i],
                alignment_coords_of(version)[j],
                x,
                y,
            )
        },
{
    reveal(covered);
    let t = alignment_coords_of(version);
    if in_block(t[i], t[j], x, y) {
        lemma_alignment_slot(version, i, x);
        lemma_alignment_slot(version, j, y);
    }
    if in_alignment(version, x, y) {
        lemma_alignment_slot_near(version, x);
        lemma_alignment_slot_near(version, y);
    }
}

/// Before the first turn nothing is covered; a finished row is the start of
/// the next; after the last row every alignment pattern is covered.
proof fn lemma_covered_rows(version: int, x: int, y: int, rows: int)
    ensures
        !covered(version, x, y, 0, 0),
        covered(version, x, y, rows, alignment_coords_of(version).len() as int) == covered(
            version,
            x,
            y,
            rows + 1,
            0,
        ),
        covered(version, x, y, alignment_coords_of(version).len() as int, 0) == in_alignment(
            version,
            x,
            y,
        ),
{
    reveal(covered);
}

/// The grids after the alignment patterns up to a turn: `function_patterns`
/// shows the covered patterns over `before`, and `mask` reserves them on top
/// of what was reserved before any of them.
spec fn alignments_drawn(
    function_patterns: QrRaw,
    mask: QrRaw,
    before: QrRaw,
    rows: int,
    cols: int,
) -> bool {
    let v = mask.version_number();
    &&& function_patterns.version_number() == v
    &&& before.version_number() == v
    &&& forall|x: int, y: int|
        mask.holds(x, y) ==> #[trigger] function_patterns.at(x, y) == if covered(
            v,
            x,
            y,
            rows,
            cols,
        ) {
            alignment_dark(v, x, y)
        } else {
            before.at(x, y)
        }
    &&& forall|x: int, y: int|
        mask.holds(x, y) ==> #[trigger] mask.at(x, y) == (base_reserved(mask.side(), x, y)
            || covered(v, x, y, rows, cols))
}

/// Takes the turn of the alignment pattern centred on `(x, y)`, which stands
/// in column slot `i` and row slot `j`: draws and reserves it unless one of
/// its diagonal probes is reserved.
fn alignment_turn(
    function_patterns: &mut QrRaw,
    mask: &mut QrRaw,
    x: usize,
    y: usize,
    Ghost(before): Ghost<QrRaw>,
    Ghost(i): Ghost<int>,
    Ghost(j): Ghost<int>,
)
    requires
        is_version_number(old(mask).version_number()),
        0 <= i < alignment_coords_of(old(mask).version_number()).len(),
        0 <= j < alignment_coords_of(old(mask).version_number()).len(),
        x == alignment_coords_of(old(mask).version_number())[i],
        y == alignment_coords_of(old(mask).version_number())[j],
        alignments_drawn(*old(function_patterns), *old(mask), before, j, i),
    ensures
        final(mask).version_number() == old(mask).version_number(),
        alignments_drawn(*final(function_patterns), *final(mask), before, j, i + 1),
{
    let ghost v = mask.version_number();
    proof {
        lemma_alignment_table(v);
        lemma_covered_step(v, i, j, x - 2, y - 2);
        lemma_covered_step(v, i, j, x - 2, y + 2);
        lemma_covered_step(v, i, j, x + 2, y - 2);
        lemma_covered_step(v, i, j, x + 2, y + 2);
        assert forall|cx: int, cy: int|
            #[trigger] covered(v, cx, cy, j, i + 1) == (covered(v, cx, cy, j, i) || (placed_at(
                v,
                i,
                j,
            ) && in_block(x as int, y as int, cx, cy))) && (in_block(x as int, y as int, cx, cy)
                ==> alignment_dark(v, cx, cy) == block_dark(x as int, y as int, cx, cy)) by {
            lemma_covered_step(v, i, j, cx, cy);
        }
    }
    if !probe_blocked(mask, x, y) {
        assert(placed_at(v, i, j));
        draw_alignment(function_patterns, mask, x, y);
    } else {
        assert(!placed_at(v, i, j));
    }
}

/// Draws every alignment pattern whose diagonal probes are clear and
/// reserves its square.
fn draw_alignments(function_patterns: &mut QrRaw, mask: &mut QrRaw)
    requires
        old(function_patterns).version_number() == old(mask).version_number(),
        forall|x: int, y: int|
            old(mask).holds(x, y) ==> #[trigger] old(mask).at(x, y) == base_reserved(
                old(mask).side(),
                x,
                y,
            ),
    ensures
        final(function_patterns).version_number() == old(function_patterns).version_number(),
        final(mask).version_number() == old(mask).version_number(),
        forall|x: int, y: int|
            old(mask).holds(x, y) ==> #[trigger] final(function_patterns).at(x, y)
                == if in_alignment(old(mask).version_number(), x, y) {
                alignment_dark(old(mask).version_number(), x, y)
            } else {
                old(function_patterns).at(x, y)
            },
        forall|x: int, y: int|
            old(mask).holds(x, y) ==> #[trigger] final(mask).at(x, y) == is_reserved(
                old(mask).version_number(),
                x,
                y,
            ),
{
    let side = mask.side_length();
    let version = mask.version();
    let coords = alignment_coords(version);
    let ghost v = version@;
    let ghost t = alignment_coords_of(v);
    let ghost before = *function_patterns;
    proof {
        assert forall|x: int, y: int| !covered(v, x, y, 0, 0) by {
            lemma_covered_rows(v, x, y, 0);
        }
    }
    let mut j: usize = 0;
    while j < coords.len()
        invariant
            j <= coords.len(),
            is_version_number(v),
            v == old(mask).version_number(),
            mask.version_number() == v,
            t == alignment_coords_of(v),
            coords@.len() == t.len(),
            forall|k: int| 0 <= k < coords@.len() ==> coords@[k] == t[k],
            alignments_drawn(*function_patterns, *mask, before, j as int, 0),
        decreases coords.len() - j,
    {
        let y = coords[j];
        let mut i: usize = 0;
        while i < coords.len()
            invariant
                i <= coords.len(),
                j < coords.len(),
                y == t[j as int],
                is_version_number(v),
                mask.version_number() == v,
                t == alignment_coords_of(v),
                coords@.len() == t.len(),
                forall|k: int| 0 <= k < coords@.len() ==> coords@[k] == t[k],
                alignments_drawn(*function_patterns, *mask, before, j as int, i as int),
            decreases coords.len() - i,
        {
            let x = coords[i];
            alignment_turn(function_patterns, mask, x, y, Ghost(before), Ghost(i as int), Ghost(j as int));
            i = i + 1;
        }
        proof {
            assert forall|x: int, y: int|
                #[trigger] covered(v, x, y, j as int, t.len() as int) == covered(
                    v,
                    x,
                    y,
                    j + 1,
                    0,
                ) by {
                lemma_covered_rows(v, x, y, j as int);
            }
        }
        j = j + 1;
    }
    proof {
        assert forall|x: int, y: int|
            #[trigger] covered(v, x, y, t.len() as int, 0) == in_alignment(v, x, y) by {
            lemma_covered_rows(v, x, y, 0);
        }
    }
}

/// The function-pattern grid of a `version` symbol, and with it the mask of
/// the modules that data must leave alone.
///
/// The first grid shows the finder, timing and alignment patterns, dark where
/// they are dark and light everywhere else. The second is set exactly on the
/// reserved modules: those patterns, the separators around the finder
/// patterns and the strips kept for format information.
pub fn qr_mask(version: QrVersion) -> (grids: (QrRaw, QrRaw))
    ensures
        grids.0.version_number() == version@,
        grids.1.version_number() == version@,
        forall|x: int, y: int|
            grids.0.holds(x, y) ==> #[trigger] grids.0.at(x, y) == is_dark(version@, x, y),
        forall|x: int, y: int|
            grids.1.holds(x, y) ==> #[trigger] grids.1.at(x, y) == is_reserved(version@, x, y),
        forall|x: int, y: int|
            grids.0.holds(x, y) && #[trigger] grids.0.at(x, y) ==> grids.1.at(x, y),
{
    let mut function_patterns = QrRaw::new(version);
    let mut mask = QrRaw::new(version);
    proof {
        let side = side_length_of(version@);
        assert forall|x: int, y: int| mask.holds(x, y) implies !#[trigger] mask.at(x, y) by {
            lemma_index_in_range(side, x, y);
        }
        assert forall|x: int, y: int| mask.holds(x, y) implies !#[trigger] function_patterns.at(
            x,
            y,
        ) by {
            lemma_index_in_range(side, x, y);
        }
    }
    draw_format_strips(&mut function_patterns, &mut mask);
    draw_timing(&mut function_patterns, &mut mask);
    draw_finders(&mut function_patterns, &mut mask);
    draw_alignments(&mut function_patterns, &mut mask);
    proof {
        assert forall|x: int, y: int|
            function_patterns.holds(x, y) && #[trigger] function_patterns.at(x, y) implies mask.at(
            x,
            y,
        ) by {
            lemma_reserved_covers_fixed(version@, x, y);
        }
    }
    (function_patterns, mask)
}

} // verus!
