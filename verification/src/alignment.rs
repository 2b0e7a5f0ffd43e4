//! Where the centres of alignment patterns may fall, version by version.

use crate::version::is_version_number;
use crate::version::side_length_of;
use crate::version::QrVersion;
use vstd::prelude::*;

verus! {

/// Least distance between two alignment coordinates of one version.
pub const ALIGNMENT_SPACING: usize = 12;

/// The row and column coordinates at which version `version` centres its
/// alignment patterns, in rising order; none outside `1..=40`.
pub open spec fn alignment_coords_of(version: int) -> Seq<int> {
    if version == 1 {
        Seq::empty()
    } else if version == 2 {
        seq![6, 18]
    } else if version == 3 {
        seq![6, 22]
    } else if version == 4 {
        seq![6, 26]
    } else if version == 5 {
        seq![6, 30]
    } else if version == 6 {
        seq![6, 34]
    } else if version == 7 {
        seq![6, 22, 38]
    } else if version == 8 {
        seq![6, 24, 42]
    } else if version == 9 {
        seq![6, 26, 46]
    } else if version == 10 {
        seq![6, 28, 50]
    } else if version == 11 {
        seq![6, 30, 54]
    } else if version == 12 {
        seq![6, 32, 58]
    } else if version == 13 {
        seq![6, 34, 62]
    } else if version == 14 {
        seq![6, 26, 46, 66]
    } else if version == 15 {
        seq![6, 26, 48, 70]
    } else if version == 16 {
        seq![6, 26, 50, 74]
    } else if version == 17 {
        seq![6, 30, 54, 78]
    } else if version == 18 {
        seq![6, 30, 56, 82]
    } else if version == 19 {
        seq![6, 30, 58, 86]
    } else if version == 20 {
        seq![6, 34, 62, 90]
    } else if version == 21 {
        seq![6, 28, 50, 72, 94]
    } else if version == 22 {
        seq![6, 26, 50, 74, 98]
    } else if version == 23 {
        seq![6, 30, 54, 78, 102]
    } else if version == 24 {
        seq![6, 28, 54, 80, 106]
    } else if version == 25 {
        seq![6, 32, 58, 84, 110]
    } else if version == 26 {
        seq![6, 30, 58, 86, 114]
    } else if version == 27 {
        seq![6, 34, 62, 90, 118]
    } else if version == 28 {
        seq![6, 26, 50, 74, 98, 122]
    } else if version == 29 {
        seq![6, 30, 54, 78, 102, 126]
    } else if version == 30 {
        seq![6, 26, 52, 78, 104, 130]
    } else if version == 31 {
        seq![6, 30, 56, 82, 108, 134]
    } else if version == 32 {
        seq![6, 34, 60, 86, 112, 138]
    } else if version == 33 {
        seq![6, 30, 58, 86, 114, 142]
    } else if version == 34 {
        seq![6, 34, 62, 90, 118, 146]
    } else if version == 35 {
        seq![6, 30, 54, 78, 102, 126, 150]
    } else if version == 36 {
        seq![6, 24, 50, 76, 102, 128, 154]
    } else if version == 37 {
        seq![6, 28, 54, 80, 106, 132, 158]
    } else if version == 38 {
        seq![6, 32, 58, 84, 110, 136, 162]
    } else if version == 39 {
        seq![6, 26, 54, 82, 110, 138, 166]
    } else if version == 40 {
        seq![6, 30, 58, 86, 114, 142, 170]
    } else {
        Seq::empty()
    }
}

/// What every row of the table has in common: it starts at 6, ends seven
/// short of the side, and rises by at least `ALIGNMENT_SPACING`.
pub open spec fn well_spaced(coords: Seq<int>, side: int) -> bool {
    &&& coords.len() > 0 ==> coords[0] == 6 && coords[coords.len() - 1] == side - 7
    &&& forall|i: int| 0 <= i < coords.len() ==> 6 <= #[trigger] coords[i] <= side - 7
    &&& forall|i: int, j: int|
        0 <= i < j < coords.len() ==> #[trigger] coords[i] + ALIGNMENT_SPACING <= #[trigger] coords[j]
}

/// The alignment coordinates of `version`, in rising order.
pub fn alignment_coords(version: QrVersion) -> (coords: Vec<usize>)
    ensures
        coords@.len() == alignment_coords_of(version@).len(),
        forall|i: int| 0 <= i < coords@.len() ==> coords@[i] == alignment_coords_of(version@)[i],
{
    match version.to_u8() {
        1 => Vec::new(),
        2 => vec![6, 18],
        3 => vec![6, 22],
        4 => vec![6, 26],
        5 => vec![6, 30],
        6 => vec![6, 34],
        7 => vec![6, 22, 38],
        8 => vec![6, 24, 42],
        9 => vec![6, 26, 46],
        10 => vec![6, 28, 50],
        11 => vec![6, 30, 54],
        12 => vec![6, 32, 58],
        13 => vec![6, 34, 62],
        14 => vec![6, 26, 46, 66],
        15 => vec![6, 26, 48, 70],
        16 => vec![6, 26, 50, 74],
        17 => vec![6, 30, 54, 78],
        18 => vec![6, 30, 56, 82],
        19 => vec![6, 30, 58, 86],
        20 => vec![6, 34, 62, 90],
        21 => vec![6, 28, 50, 72, 94],
        22 => vec![6, 26, 50, 74, 98],
        23 => vec![6, 30, 54, 78, 102],
        24 => vec![6, 28, 54, 80, 106],
        25 => vec![6, 32, 58, 84, 110],
        26 => vec![6, 30, 58, 86, 114],
        27 => vec![6, 34, 62, 90, 118],
        28 => vec![6, 26, 50, 74, 98, 122],
        29 => vec![6, 30, 54, 78, 102, 126],
        30 => vec![6, 26, 52, 78, 104, 130],
        31 => vec![6, 30, 56, 82, 108, 134],
        32 => vec![6, 34, 60, 86, 112, 138],
        33 => vec![6, 30, 58, 86, 114, 142],
        34 => vec![6, 34, 62, 90, 118, 146],
        35 => vec![6, 30, 54, 78, 102, 126, 150],
        36 => vec![6, 24, 50, 76, 102, 128, 154],
        37 => vec![6, 28, 54, 80, 106, 132, 158],
        38 => vec![6, 32, 58, 84, 110, 136, 162],
        39 => vec![6, 26, 54, 82, 110, 138, 166],
        40 => vec![6, 30, 58, 86, 114, 142, 170],
        _ => Vec::new(),
    }
}

/// Every version's row of the table is well spaced, and holds `version / 7 + 2`
/// coordinates from version 2 on.
pub proof fn lemma_alignment_table(version: int)
    requires
        is_version_number(version),
    ensures
        well_spaced(alignment_coords_of(version), side_length_of(version)),
        alignment_coords_of(version).len() == if version == 1 {
            0
        } else {
            version / 7 + 2
        },
{
}

} // verus!
