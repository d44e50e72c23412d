//! Display descriptions: chromaticity coordinates, color-space primaries,
//! the predefined mastering/target display tables, and the luminance
//! decoding of 12-bit PQ codes.
//!
//! Chromaticity coordinates are carried as the IEEE-754 bit patterns of
//! the decoded single-precision values; all comparisons in this crate are
//! bit-exact, so the bit pattern is a faithful stand-in for the value.
//! The numeric decoding itself happens at the crate's boundary.
use vstd::prelude::*;

use crate::metadata::Encoding;
use crate::metadata::EncodingEnum;
use crate::metadata::encoding_from_index_spec;
use crate::metadata::encoding_from_index;
use crate::rpu::FrameData;
use crate::rpu::Level2In;
use crate::rpu::Level8In;
use crate::rpu::Level10In;
use crate::rpu::frame_wf;
use crate::text::dec_str;

verus! {

/// One chromaticity coordinate pair, as f32 bit patterns.
#[derive(Clone, Copy, Debug, PartialEq, Eq, Structural)]
pub struct Chromaticity {
    pub x_bits: u32,
    pub y_bits: u32,
}

/// A full set of color-space primaries.
#[derive(Clone, Copy, Debug, PartialEq, Eq, Structural)]
pub struct Primaries {
    pub red: Chromaticity,
    pub green: Chromaticity,
    pub blue: Chromaticity,
    pub white_point: Chromaticity,
}

/// Builds a `Primaries` from eight coordinate bit patterns, in the order
/// red x/y, green x/y, blue x/y, white x/y.
pub open spec fn prim8_spec(
    rx: u32,
    ry: u32,
    gx: u32,
    gy: u32,
    bx: u32,
    by: u32,
    wx: u32,
    wy: u32,
) -> Primaries {
    Primaries {
        red: Chromaticity { x_bits: rx, y_bits: ry },
        green: Chromaticity { x_bits: gx, y_bits: gy },
        blue: Chromaticity { x_bits: bx, y_bits: by },
        white_point: Chromaticity { x_bits: wx, y_bits: wy },
    }
}

fn prim8(rx: u32, ry: u32, gx: u32, gy: u32, bx: u32, by: u32, wx: u32, wy: u32) -> (r: Primaries)
    ensures
        r == prim8_spec(rx, ry, gx, gy, bx, by, wx, wy),
{
    Primaries {
        red: Chromaticity { x_bits: rx, y_bits: ry },
        green: Chromaticity { x_bits: gx, y_bits: gy },
        blue: Chromaticity { x_bits: bx, y_bits: by },
        white_point: Chromaticity { x_bits: wx, y_bits: wy },
    }
}

/// Number of rows in the predefined color-space primaries table.
pub const PRIMARIES_COUNT: u64 = 19;

/// The predefined color-space primaries, by row index.  Rows are the
/// decoded single-precision coordinates of the well-known color spaces
/// (DCI-P3 D65, BT.709, BT.2020, ...), as bit patterns.
pub open spec fn primaries_row_spec(index: nat) -> Primaries {
    if index == 0 {
        prim8_spec(0x3f2e147b, 0x3ea3d70a, 0x3e87ae14, 0x3f30a3d7, 0x3e19999a, 0x3d75c28f, 0x3ea01a37, 0x3ea872b0)
    } else if index == 1 {
        prim8_spec(0x3f23d70a, 0x3ea8f5c3, 0x3e99999a, 0x3f19999a, 0x3e19999a, 0x3d75c28f, 0x3ea01a37, 0x3ea872b0)
    } else if index == 2 {
        prim8_spec(0x3f353f7d, 0x3e958106, 0x3e2e147b, 0x3f4c0831, 0x3e0624dd, 0x3d3c6a7f, 0x3ea01a37, 0x3ea872b0)
    } else if index == 3 {
        prim8_spec(0x3f2147ae, 0x3eae147b, 0x3e9eb852, 0x3f1851ec, 0x3e1eb852, 0x3d8f5c29, 0x3ea01a37, 0x3ea872b0)
    } else if index == 4 {
        prim8_spec(0x3f23d70a, 0x3ea8f5c3, 0x3e947ae1, 0x3f19999a, 0x3e19999a, 0x3d75c28f, 0x3ea01a37, 0x3ea872b0)
    } else if index == 5 {
        prim8_spec(0x3f2e147b, 0x3ea3d70a, 0x3e87ae14, 0x3f30a3d7, 0x3e19999a, 0x3d75c28f, 0x3ea0c49c, 0x3eb3b646)
    } else if index == 6 {
        prim8_spec(0x3f3c154d, 0x3e87d567, 0x00000000, 0x3f800000, 0x38d1b717, 0xbd9db22d, 0x3ea4b33e, 0x3eace315)
    } else if index == 7 {
        prim8_spec(0x3f3ae148, 0x3e8f5c29, 0x3e0f5c29, 0x3f5ae148, 0x3dcccccd, 0xbd4ccccd, 0x3ea01a37, 0x3ea872b0)
    } else if index == 8 {
        prim8_spec(0x3f441893, 0x3e8ccccd, 0x3e666666, 0x3f4ccccd, 0x3db645a2, 0xbdb22d0e, 0x3ea01a37, 0x3ea872b0)
    } else if index == 9 {
        prim8_spec(0x3f316873, 0x3e9ba5e3, 0x3e54fdf4, 0x3f42d0e5, 0x3e163886, 0x3d57dbf5, 0x3ea01a37, 0x3ea872b0)
    } else if index == 10 {
        prim8_spec(0x3f2fcb92, 0x3e9df3b6, 0x3e6c8b44, 0x3f30a3d7, 0x3e18793e, 0x3d82a993, 0x3ea01a37, 0x3ea872b0)
    } else if index == 11 {
        prim8_spec(0x3f2d97f6, 0x3ea346dc, 0x3e722d0e, 0x3f346dc6, 0x3e10624e, 0x3d484b5e, 0x3ea01a37, 0x3ea872b0)
    } else if index == 12 {
        prim8_spec(0x3f2e147b, 0x3ea3d70a, 0x3e87ae14, 0x3f30a3d7, 0x3e19999a, 0x3d75c28f, 0x3ea01a37, 0x3ea872b0)
    } else if index == 13 {
        prim8_spec(0x3f344674, 0x3e96872b, 0x3e688ce7, 0x3f39999a, 0x3e10ff97, 0x3d535a86, 0x3ea01a37, 0x3ea872b0)
    } else if index == 14 {
        prim8_spec(0x3f2cac08, 0x3e9eb852, 0x3e628241, 0x3f35fd8b, 0x3e1ba5e3, 0x3d7d8adb, 0x3ea01a37, 0x3ea872b0)
    } else if index == 15 {
        prim8_spec(0x3f2e353f, 0x3ea36113, 0x3e81205c, 0x3f2b923a, 0x3e0f0d84, 0x3d62eb1c, 0x3ea01a37, 0x3ea872b0)
    } else if index == 16 {
        prim8_spec(0x3f2f0d84, 0x3e9df3b6, 0x3e8ab368, 0x3f2346dc, 0x3e1758e2, 0x3d714120, 0x3ea01a37, 0x3ea872b0)
    } else if index == 17 {
        prim8_spec(0x3f2ce076, 0x3ea37b4a, 0x3e86f694, 0x3f2ef9db, 0x3e1bc01a, 0x3d8068dc, 0x3ea01a37, 0x3ea872b0)
    } else {
        prim8_spec(0x3f32b6ae, 0x3e9460aa, 0x3e39c0ec, 0x3f3809d5, 0x3e1b573f, 0x3d683e42, 0x3ea01a37, 0x3ea872b0)
    }
}

/// Returns the predefined primaries row at `index`.
pub fn primaries_row(index: u64) -> (r: Primaries)
    requires
        index < PRIMARIES_COUNT,
    ensures
        r == primaries_row_spec(index as nat),
{
    if index == 0 {
        prim8(0x3f2e147b, 0x3ea3d70a, 0x3e87ae14, 0x3f30a3d7, 0x3e19999a, 0x3d75c28f, 0x3ea01a37, 0x3ea872b0)
    } else if index == 1 {
        prim8(0x3f23d70a, 0x3ea8f5c3, 0x3e99999a, 0x3f19999a, 0x3e19999a, 0x3d75c28f, 0x3ea01a37, 0x3ea872b0)
    } else if index == 2 {
        prim8(0x3f353f7d, 0x3e958106, 0x3e2e147b, 0x3f4c0831, 0x3e0624dd, 0x3d3c6a7f, 0x3ea01a37, 0x3ea872b0)
    } else if index == 3 {
        prim8(0x3f2147ae, 0x3eae147b, 0x3e9eb852, 0x3f1851ec, 0x3e1eb852, 0x3d8f5c29, 0x3ea01a37, 0x3ea872b0)
    } else if index == 4 {
        prim8(0x3f23d70a, 0x3ea8f5c3, 0x3e947ae1, 0x3f19999a, 0x3e19999a, 0x3d75c28f, 0x3ea01a37, 0x3ea872b0)
    } else if index == 5 {
        prim8(0x3f2e147b, 0x3ea3d70a, 0x3e87ae14, 0x3f30a3d7, 0x3e19999a, 0x3d75c28f, 0x3ea0c49c, 0x3eb3b646)
    } else if index == 6 {
        prim8(0x3f3c154d, 0x3e87d567, 0x00000000, 0x3f800000, 0x38d1b717, 0xbd9db22d, 0x3ea4b33e, 0x3eace315)
    } else if index == 7 {
        prim8(0x3f3ae148, 0x3e8f5c29, 0x3e0f5c29, 0x3f5ae148, 0x3dcccccd, 0xbd4ccccd, 0x3ea01a37, 0x3ea872b0)
    } else if index == 8 {
        prim8(0x3f441893, 0x3e8ccccd, 0x3e666666, 0x3f4ccccd, 0x3db645a2, 0xbdb22d0e, 0x3ea01a37, 0x3ea872b0)
    } else if index == 9 {
        prim8(0x3f316873, 0x3e9ba5e3, 0x3e54fdf4, 0x3f42d0e5, 0x3e163886, 0x3d57dbf5, 0x3ea01a37, 0x3ea872b0)
    } else if index == 10 {
        prim8(0x3f2fcb92, 0x3e9df3b6, 0x3e6c8b44, 0x3f30a3d7, 0x3e18793e, 0x3d82a993, 0x3ea01a37, 0x3ea872b0)
    } else if index == 11 {
        prim8(0x3f2d97f6, 0x3ea346dc, 0x3e722d0e, 0x3f346dc6, 0x3e10624e, 0x3d484b5e, 0x3ea01a37, 0x3ea872b0)
    } else if index == 12 {
        prim8(0x3f2e147b, 0x3ea3d70a, 0x3e87ae14, 0x3f30a3d7, 0x3e19999a, 0x3d75c28f, 0x3ea01a37, 0x3ea872b0)
    } else if index == 13 {
        prim8(0x3f344674, 0x3e96872b, 0x3e688ce7, 0x3f39999a, 0x3e10ff97, 0x3d535a86, 0x3ea01a37, 0x3ea872b0)
    } else if index == 14 {
        prim8(0x3f2cac08, 0x3e9eb852, 0x3e628241, 0x3f35fd8b, 0x3e1ba5e3, 0x3d7d8adb, 0x3ea01a37, 0x3ea872b0)
    } else if index == 15 {
        prim8(0x3f2e353f, 0x3ea36113, 0x3e81205c, 0x3f2b923a, 0x3e0f0d84, 0x3d62eb1c, 0x3ea01a37, 0x3ea872b0)
    } else if index == 16 {
        prim8(0x3f2f0d84, 0x3e9df3b6, 0x3e8ab368, 0x3f2346dc, 0x3e1758e2, 0x3d714120, 0x3ea01a37, 0x3ea872b0)
    } else if index == 17 {
        prim8(0x3f2ce076, 0x3ea37b4a, 0x3e86f694, 0x3f2ef9db, 0x3e1bc01a, 0x3d8068dc, 0x3ea01a37, 0x3ea872b0)
    } else {
        prim8(0x3f32b6ae, 0x3e9460aa, 0x3e39c0ec, 0x3f3809d5, 0x3e1b573f, 0x3d683e42, 0x3ea01a37, 0x3ea872b0)
    }
}

/// The predefined primaries row selected by an index byte: `None` when
/// the index is out of range, or beyond the target-display subset when
/// `is_target` is set.
pub open spec fn get_index_primary_spec(index: nat, is_target: bool) -> Option<Primaries> {
    if index >= PRIMARIES_COUNT || (is_target && index > 8) {
        None
    } else {
        Some(primaries_row_spec(index))
    }
}

/// Looks up the predefined primaries for an index byte.
pub fn get_index_primary(index: u64, is_target: bool) -> (r: Option<Primaries>)
    ensures
        r == get_index_primary_spec(index as nat, is_target),
{
    if index >= PRIMARIES_COUNT || (is_target && index > 8) {
        None
    } else {
        Some(primaries_row(index))
    }
}

/// The default primaries (DCI-P3, D65).
pub fn default_primaries() -> (r: Primaries)
    ensures
        r == primaries_row_spec(0),
{
    primaries_row(0)
}

/// One row of a predefined display table: identifier, primaries index,
/// peak brightness in nits, minimum brightness as a 12-bit PQ code, the
/// transfer-function index, and the signal-range index.
#[derive(Clone, Copy, Debug, PartialEq, Eq, Structural)]
pub struct DisplayRow {
    pub id: u64,
    pub primary_index: u64,
    pub peak_brightness: u64,
    pub min_pq: u64,
    pub eotf: u64,
    pub range: u64,
}

/// Number of rows in the predefined mastering display table.
pub const MASTERING_COUNT: u64 = 6;

/// Number of rows in the predefined target display table.
pub const TARGET_COUNT: u64 = 8;

/// The predefined mastering displays.  Row 0 is the default source
/// (4000-nit, P3 D65, PQ).
pub open spec fn mastering_display_row_spec(index: nat) -> DisplayRow {
    if index == 0 {
        DisplayRow { id: 7, primary_index: 0, peak_brightness: 4000, min_pq: 62, eotf: 0, range: 0 }
    } else if index == 1 {
        DisplayRow { id: 8, primary_index: 2, peak_brightness: 4000, min_pq: 62, eotf: 0, range: 0 }
    } else if index == 2 {
        DisplayRow { id: 20, primary_index: 0, peak_brightness: 1000, min_pq: 7, eotf: 0, range: 0 }
    } else if index == 3 {
        DisplayRow { id: 21, primary_index: 2, peak_brightness: 1000, min_pq: 7, eotf: 0, range: 0 }
    } else if index == 4 {
        DisplayRow { id: 30, primary_index: 0, peak_brightness: 2000, min_pq: 7, eotf: 0, range: 0 }
    } else {
        DisplayRow { id: 31, primary_index: 2, peak_brightness: 2000, min_pq: 7, eotf: 0, range: 0 }
    }
}

/// Returns the predefined mastering display row at `index`.
pub fn mastering_display_row(index: u64) -> (r: DisplayRow)
    requires
        index < MASTERING_COUNT,
    ensures
        r == mastering_display_row_spec(index as nat),
{
    if index == 0 {
        DisplayRow { id: 7, primary_index: 0, peak_brightness: 4000, min_pq: 62, eotf: 0, range: 0 }
    } else if index == 1 {
        DisplayRow { id: 8, primary_index: 2, peak_brightness: 4000, min_pq: 62, eotf: 0, range: 0 }
    } else if index == 2 {
        DisplayRow { id: 20, primary_index: 0, peak_brightness: 1000, min_pq: 7, eotf: 0, range: 0 }
    } else if index == 3 {
        DisplayRow { id: 21, primary_index: 2, peak_brightness: 1000, min_pq: 7, eotf: 0, range: 0 }
    } else if index == 4 {
        DisplayRow { id: 30, primary_index: 0, peak_brightness: 2000, min_pq: 7, eotf: 0, range: 0 }
    } else {
        DisplayRow { id: 31, primary_index: 2, peak_brightness: 2000, min_pq: 7, eotf: 0, range: 0 }
    }
}

/// The predefined target displays (home targets only).
pub open spec fn target_display_row_spec(index: nat) -> DisplayRow {
    if index == 0 {
        DisplayRow { id: 1, primary_index: 1, peak_brightness: 100, min_pq: 62, eotf: 2, range: 0 }
    } else if index == 1 {
        DisplayRow { id: 27, primary_index: 0, peak_brightness: 600, min_pq: 0, eotf: 0, range: 0 }
    } else if index == 2 {
        DisplayRow { id: 28, primary_index: 2, peak_brightness: 600, min_pq: 0, eotf: 0, range: 0 }
    } else if index == 3 {
        DisplayRow { id: 37, primary_index: 0, peak_brightness: 2000, min_pq: 0, eotf: 0, range: 0 }
    } else if index == 4 {
        DisplayRow { id: 38, primary_index: 2, peak_brightness: 2000, min_pq: 0, eotf: 0, range: 0 }
    } else if index == 5 {
        DisplayRow { id: 48, primary_index: 0, peak_brightness: 1000, min_pq: 0, eotf: 0, range: 0 }
    } else if index == 6 {
        DisplayRow { id: 49, primary_index: 2, peak_brightness: 1000, min_pq: 0, eotf: 0, range: 0 }
    } else {
        DisplayRow { id: 9003, primary_index: 1, peak_brightness: 600, min_pq: 7, eotf: 2, range: 0 }
    }
}

/// Returns the predefined target display row at `index`.
pub fn target_display_row(index: u64) -> (r: DisplayRow)
    requires
        index < TARGET_COUNT,
    ensures
        r == target_display_row_spec(index as nat),
{
    if index == 0 {
        DisplayRow { id: 1, primary_index: 1, peak_brightness: 100, min_pq: 62, eotf: 2, range: 0 }
    } else if index == 1 {
        DisplayRow { id: 27, primary_index: 0, peak_brightness: 600, min_pq: 0, eotf: 0, range: 0 }
    } else if index == 2 {
        DisplayRow { id: 28, primary_index: 2, peak_brightness: 600, min_pq: 0, eotf: 0, range: 0 }
    } else if index == 3 {
        DisplayRow { id: 37, primary_index: 0, peak_brightness: 2000, min_pq: 0, eotf: 0, range: 0 }
    } else if index == 4 {
        DisplayRow { id: 38, primary_index: 2, peak_brightness: 2000, min_pq: 0, eotf: 0, range: 0 }
    } else if index == 5 {
        DisplayRow { id: 48, primary_index: 0, peak_brightness: 1000, min_pq: 0, eotf: 0, range: 0 }
    } else if index == 6 {
        DisplayRow { id: 49, primary_index: 2, peak_brightness: 1000, min_pq: 0, eotf: 0, range: 0 }
    } else {
        DisplayRow { id: 9003, primary_index: 1, peak_brightness: 600, min_pq: 7, eotf: 2, range: 0 }
    }
}

/// Whether a table row answers a search for the given peak brightness and
/// primaries index.
pub open spec fn row_matches(row: DisplayRow, max_luminance: nat, primary: nat) -> bool {
    row.peak_brightness == max_luminance && row.primary_index == primary
}

/// The first target display row, at or after `from`, with the given peak
/// brightness and primaries index.
pub open spec fn find_target_row_spec(from: nat, max_luminance: nat, primary: nat) -> Option<
    DisplayRow,
>
    decreases TARGET_COUNT - from,
{
    if from >= TARGET_COUNT {
        None
    } else if row_matches(target_display_row_spec(from), max_luminance, primary) {
        Some(target_display_row_spec(from))
    } else {
        find_target_row_spec(from + 1, max_luminance, primary)
    }
}

/// The first mastering display row, at or after `from`, with the given
/// peak brightness and primaries index.
pub open spec fn find_mastering_row_spec(from: nat, max_luminance: nat, primary: nat) -> Option<
    DisplayRow,
>
    decreases MASTERING_COUNT - from,
{
    if from >= MASTERING_COUNT {
        None
    } else if row_matches(mastering_display_row_spec(from), max_luminance, primary) {
        Some(mastering_display_row_spec(from))
    } else {
        find_mastering_row_spec(from + 1, max_luminance, primary)
    }
}

/// Searches the target display table for a row with the given peak
/// brightness and primaries index.
pub fn find_target_row(max_luminance: u64, primary: u64) -> (r: Option<DisplayRow>)
    ensures
        r == find_target_row_spec(0, max_luminance as nat, primary as nat),
{
    let mut i: u64 = 0;
    while i < TARGET_COUNT
        invariant
            i <= TARGET_COUNT,
            find_target_row_spec(i as nat, max_luminance as nat, primary as nat)
                == find_target_row_spec(0, max_luminance as nat, primary as nat),
        decreases TARGET_COUNT - i,
    {
        let row = target_display_row(i);
        if row.peak_brightness == max_luminance && row.primary_index == primary {
            return Some(row);
        }
        i = i + 1;
    }
    None
}

/// Searches the mastering display table for a row with the given peak
/// brightness and primaries index.
pub fn find_mastering_row(max_luminance: u64, primary: u64) -> (r: Option<DisplayRow>)
    ensures
        r == find_mastering_row_spec(0, max_luminance as nat, primary as nat),
{
    let mut i: u64 = 0;
    while i < MASTERING_COUNT
        invariant
            i <= MASTERING_COUNT,
            find_mastering_row_spec(i as nat, max_luminance as nat, primary as nat)
                == find_mastering_row_spec(0, max_luminance as nat, primary as nat),
        decreases MASTERING_COUNT - i,
    {
        let row = mastering_display_row(i);
        if row.peak_brightness == max_luminance && row.primary_index == primary {
            return Some(row);
        }
        i = i + 1;
    }
    None
}

/// The identifier of the first matching row of one of the two display
/// tables, `None` when no row matches.
pub fn get_display_id(target_table: bool, max_luminance: u64, primary: u64) -> (r: Option<u64>)
    ensures
        target_table ==> r == match find_target_row_spec(0, max_luminance as nat, primary as nat) {
            Some(row) => Some(row.id),
            None => None::<u64>,
        },
        !target_table ==> r == match find_mastering_row_spec(
            0,
            max_luminance as nat,
            primary as nat,
        ) {
            Some(row) => Some(row.id),
            None => None::<u64>,
        },
{
    let row = if target_table {
        find_target_row(max_luminance, primary)
    } else {
        find_mastering_row(max_luminance, primary)
    };
    match row {
        Some(row) => Some(row.id),
        None => None,
    }
}

/// The identifier of the predefined target display with the given peak
/// brightness and primaries index, `None` when there is none.
pub fn find_target_id(max_luminance: u64, primary: u64) -> (r: Option<u64>)
    ensures
        r == match find_target_row_spec(0, max_luminance as nat, primary as nat) {
            Some(row) => Some(row.id),
            None => None::<u64>,
        },
{
    get_display_id(true, max_luminance, primary)
}

/// Rounds a nit count above 500 up to the next multiple of 50.
pub open spec fn smooth_nits_spec(n: nat) -> nat {
    if n > 500 {
        (n / 50 + 1) * 50
    } else {
        n
    }
}

/// The luminance in nits decoded from a 12-bit PQ code.  The well-known
/// codes decode to their exact table values; any other code takes the
/// transfer-function result (rounded to whole nits, supplied by the
/// caller) and smooths values above 500 nits to a 50-nit step.
pub open spec fn nits_from_pq_code_spec(code: u16, formula_nits: nat) -> nat {
    if code == 2081 {
        100
    } else if code == 2851 {
        600
    } else if code == 3079 {
        1000
    } else if code == 3696 {
        4000
    } else {
        smooth_nits_spec(formula_nits)
    }
}

/// Decodes a 12-bit PQ code to whole nits.  `formula_nits` is the
/// rounded inverse-PQ value of `code / 4095`, computed at the crate's
/// boundary; it is ignored for the table codes.
pub fn max_u16_from_rpu_pq_u12(code: u16, formula_nits: u64) -> (r: u64)
    requires
        formula_nits <= 100_000,
    ensures
        r == nits_from_pq_code_spec(code, formula_nits as nat),
{
    if code == 2081 {
        100
    } else if code == 2851 {
        600
    } else if code == 3079 {
        1000
    } else if code == 3696 {
        4000
    } else if formula_nits > 500 {
        (formula_nits / 50 + 1) * 50
    } else {
        formula_nits
    }
}

/// The four table codes decode to exactly 100, 600, 1000 and 4000 nits,
/// whatever the transfer-function result says.
pub proof fn lemma_pq_table_cases(formula_nits: nat)
    ensures
        nits_from_pq_code_spec(2081, formula_nits) == 100,
        nits_from_pq_code_spec(2851, formula_nits) == 600,
        nits_from_pq_code_spec(3079, formula_nits) == 1000,
        nits_from_pq_code_spec(3696, formula_nits) == 4000,
{
}

/// Every decoded luminance above 500 nits is a multiple of 50.
pub proof fn lemma_nits_multiple_of_50(code: u16, formula_nits: nat)
    ensures
        nits_from_pq_code_spec(code, formula_nits) > 500 ==> nits_from_pq_code_spec(
            code,
            formula_nits,
        ) % 50 == 0,
{
    if code == 2081 || code == 2851 || code == 3079 || code == 3696 {
    } else if formula_nits > 500 {
        let k = formula_nits / 50 + 1;
        assert((k * 50) % 50 == 0) by (nonlinear_arith);
    }
}

/// The description of one display: identity, primaries, brightness range
/// and transfer function.  The minimum brightness is carried as the
/// 12-bit PQ code it decodes from; its human-readable name is derived on
/// demand by [`Characteristics::display_name`].
#[derive(Clone, Copy, Debug, PartialEq, Eq, Structural)]
pub struct Characteristics {
    pub id: u64,
    pub primary_index: u64,
    pub primaries: Primaries,
    pub peak_brightness: u64,
    pub minimum_brightness_pq: u16,
    pub encoding: Encoding,
    pub diagonal_size: u64,
}

/// The color-model part of a display name.
pub open spec fn color_model_str(primary_index: u64) -> Seq<char> {
    if primary_index == 0 {
        "P3, D65"@
    } else if primary_index == 1 {
        "BT.709"@
    } else if primary_index == 2 {
        "BT.2020"@
    } else if primary_index == 5 {
        "P3, DCI"@
    } else if primary_index == 9 {
        "WCG, D65"@
    } else {
        "Custom"@
    }
}

/// The transfer-function part of a display name.
pub open spec fn eotf_str(e: EncodingEnum) -> Seq<char> {
    match e {
        EncodingEnum::Pq => "ST.2084"@,
        EncodingEnum::Linear => "Linear"@,
        EncodingEnum::GammaBT1886 => "BT.1886"@,
        EncodingEnum::GammaDCI => "Gamma2.6"@,
        EncodingEnum::Gamma22 => "Gamma2.2"@,
        EncodingEnum::Gamma24 => "Gamma2.4"@,
        EncodingEnum::Hlg => "HLG"@,
    }
}

/// The display name: peak nits, color model, transfer function, range.
pub open spec fn display_name_spec(c: Characteristics) -> Seq<char> {
    dec_str(c.peak_brightness as nat) + "-nits, "@ + color_model_str(c.primary_index) + ", "@
        + eotf_str(c.encoding.encoding) + ", Full"@
}

/// The `Characteristics` described by a predefined display table row.
pub open spec fn ch_from_row_spec(row: DisplayRow) -> Characteristics {
    Characteristics {
        id: row.id,
        primary_index: row.primary_index,
        primaries: match get_index_primary_spec(row.primary_index as nat, true) {
            Some(p) => p,
            None => primaries_row_spec(0),
        },
        peak_brightness: row.peak_brightness,
        minimum_brightness_pq: row.min_pq as u16,
        encoding: Encoding { encoding: encoding_from_index_spec(row.eotf as nat) },
        diagonal_size: 42,
    }
}

/// The target `Characteristics` a level-2 block describes: a predefined
/// target when decoded luminance and primaries index name one, otherwise
/// a custom target identified by the raw peak-PQ code.
pub open spec fn primary_target_spec(
    b: Level2In,
    primaries: Primaries,
    matched: Option<u64>,
) -> Characteristics {
    let luminance = nits_from_pq_code_spec(b.target_max_pq, b.target_max_pq_nits as nat);
    let primary_index: u64 = match matched {
        Some(p) => if luminance == 100 {
            1
        } else {
            p
        },
        None => 0,
    };
    match find_target_row_spec(0, luminance, primary_index as nat) {
        Some(row) => ch_from_row_spec(row),
        None => Characteristics {
            id: b.target_max_pq as u64,
            primary_index,
            primaries,
            peak_brightness: luminance as u64,
            minimum_brightness_pq: 0,
            encoding: Encoding { encoding: EncodingEnum::GammaBT1886 },
            diagonal_size: 42,
        },
    }
}

/// The predefined target a level-8 block points at, if its identifier
/// names one.
pub open spec fn find_target_row_by_id_spec(from: nat, id: nat) -> Option<DisplayRow>
    decreases TARGET_COUNT - from,
{
    if from >= TARGET_COUNT {
        None
    } else if target_display_row_spec(from).id == id {
        Some(target_display_row_spec(from))
    } else {
        find_target_row_by_id_spec(from + 1, id)
    }
}

/// The target `Characteristics` a level-8 block describes, if any.
pub open spec fn l8_target_spec(b: Level8In) -> Option<Characteristics> {
    match find_target_row_by_id_spec(0, b.target_display_index as nat) {
        Some(row) => Some(ch_from_row_spec(row)),
        None => None,
    }
}

/// The target `Characteristics` a level-10 block describes.
pub open spec fn ch_from_l10_spec(b: Level10In) -> Characteristics {
    Characteristics {
        id: b.target_display_index as u64,
        primary_index: b.target_primary_index as u64,
        primaries: b.primaries,
        peak_brightness: nits_from_pq_code_spec(b.target_max_pq, b.target_max_pq_nits as nat) as u64,
        minimum_brightness_pq: b.target_min_pq,
        encoding: Encoding { encoding: EncodingEnum::Pq },
        diagonal_size: 42,
    }
}

/// The mastering display a frame describes: a predefined one when the
/// luminance (level 6's when present, else the decoded source peak) and
/// matched primaries name one; otherwise the default source, customized
/// when the frame carries the version marker.
pub open spec fn source_or_default_spec(fd: FrameData) -> Characteristics {
    let primary_index: u64 = match fd.source_primary_matched {
        Some(p) => p,
        None => 0,
    };
    let max_luminance: nat = match fd.level6 {
        Some(b) => b.max_display_mastering_luminance as nat,
        None => nits_from_pq_code_spec(fd.source_max_pq, fd.source_max_pq_nits as nat),
    };
    match find_mastering_row_spec(0, max_luminance, primary_index as nat) {
        Some(row) => ch_from_row_spec(row),
        None => {
            let base = ch_from_row_spec(mastering_display_row_spec(0));
            if fd.level254 is Some {
                let adjusted = Characteristics {
                    id: fd.source_max_pq as u64,
                    primaries: fd.source_primaries,
                    primary_index: if fd.source_primary_matched is None {
                        255
                    } else {
                        primary_index
                    },
                    ..base
                };
                if primary_index == 1 {
                    Characteristics {
                        encoding: Encoding { encoding: EncodingEnum::GammaBT1886 },
                        peak_brightness: 100,
                        ..adjusted
                    }
                } else {
                    adjusted
                }
            } else {
                base
            }
        },
    }
}

/// All target displays one frame describes, in block order: the level-10
/// customs, then the level-8 references that name a predefined target,
/// then the level-2 targets.
pub open spec fn l8_targets_spec(s: Seq<Level8In>) -> Seq<Characteristics>
    decreases s.len(),
{
    if s.len() == 0 {
        Seq::empty()
    } else {
        (match l8_target_spec(s[0]) {
            Some(c) => seq![c],
            None => Seq::empty(),
        }) + l8_targets_spec(s.drop_first())
    }
}

/// All target displays one frame describes, in block order.
#[verifier::opaque]
pub open spec fn collected_targets_spec(fd: FrameData) -> Seq<Characteristics> {
    fd.level10@.map(|i: int, b: Level10In| ch_from_l10_spec(b)) + l8_targets_spec(fd.level8@)
        + fd.level2@.map(
        |i: int, b: Level2In| primary_target_spec(b, fd.source_primaries, fd.source_primary_matched),
    )
}

/// Whether two target lists describe the same set of displays: each
/// entry of either occurs in the other.  Kept opaque so its quantifiers
/// open only where a proof asks for them.
#[verifier::opaque]
pub open spec fn targets_cover(v: Seq<Characteristics>, coll: Seq<Characteristics>) -> bool {
    &&& (forall|i: int| 0 <= i < v.len() ==> coll.contains(#[trigger] v[i]))
    &&& (forall|ci: int| 0 <= ci < coll.len() ==> v.contains(#[trigger] coll[ci]))
}

impl Characteristics {
    /// The human-readable display name.
    pub fn display_name(&self) -> (r: String)
        ensures
            r@ == display_name_spec(*self),
    {
        let mut s = String::new();
        crate::text::append_decimal(&mut s, self.peak_brightness);
        s.append("-nits, ");
        if self.primary_index == 0 {
            s.append("P3, D65");
        } else if self.primary_index == 1 {
            s.append("BT.709");
        } else if self.primary_index == 2 {
            s.append("BT.2020");
        } else if self.primary_index == 5 {
            s.append("P3, DCI");
        } else if self.primary_index == 9 {
            s.append("WCG, D65");
        } else {
            s.append("Custom");
        }
        s.append(", ");
        match self.encoding.encoding {
            EncodingEnum::Pq => s.append("ST.2084"),
            EncodingEnum::Linear => s.append("Linear"),
            EncodingEnum::GammaBT1886 => s.append("BT.1886"),
            EncodingEnum::GammaDCI => s.append("Gamma2.6"),
            EncodingEnum::Gamma22 => s.append("Gamma2.2"),
            EncodingEnum::Gamma24 => s.append("Gamma2.4"),
            EncodingEnum::Hlg => s.append("HLG"),
        }
        s.append(", Full");
        proof {
            assert(s@ =~= display_name_spec(*self));
        }
        s
    }

    /// The `Characteristics` described by a display table row.
    pub fn from_row(row: &DisplayRow) -> (r: Self)
        ensures
            r == ch_from_row_spec(*row),
    {
        Characteristics {
            id: row.id,
            primary_index: row.primary_index,
            primaries: match get_index_primary(row.primary_index, true) {
                Some(p) => p,
                None => default_primaries(),
            },
            peak_brightness: row.peak_brightness,
            minimum_brightness_pq: row.min_pq as u16,
            encoding: Encoding { encoding: encoding_from_index(row.eotf) },
            diagonal_size: 42,
        }
    }

    /// The default target display (the first predefined target).
    pub fn default_value() -> (r: Self)
        ensures
            r == ch_from_row_spec(target_display_row_spec(0)),
    {
        Characteristics::from_row(&target_display_row(0))
    }

    /// The default mastering display (the first predefined source).
    pub fn default_source() -> (r: Self)
        ensures
            r == ch_from_row_spec(mastering_display_row_spec(0)),
    {
        Characteristics::from_row(&mastering_display_row(0))
    }

    /// The target display a level-2 block describes.
    pub fn get_primary_target(b: &Level2In, primaries: &Primaries, matched: Option<u64>) -> (r:
        Self)
        requires
            b.target_max_pq_nits <= 100_000,
        ensures
            r == primary_target_spec(*b, *primaries, matched),
    {
        let max_luminance = max_u16_from_rpu_pq_u12(b.target_max_pq, b.target_max_pq_nits);
        let primary_index: u64 = match matched {
            Some(p) => if max_luminance == 100 {
                1
            } else {
                p
            },
            None => 0,
        };
        match find_target_row(max_luminance, primary_index) {
            Some(row) => Characteristics::from_row(&row),
            None => Characteristics {
                id: b.target_max_pq as u64,
                primary_index,
                primaries: *primaries,
                peak_brightness: max_luminance,
                minimum_brightness_pq: 0,
                encoding: Encoding { encoding: EncodingEnum::GammaBT1886 },
                diagonal_size: 42,
            },
        }
    }

    /// The predefined target a level-8 block points at, if any.
    pub fn get_target(b: &Level8In) -> (r: Option<Self>)
        ensures
            r == l8_target_spec(*b),
    {
        let want = b.target_display_index as u64;
        let mut i: u64 = 0;
        while i < TARGET_COUNT
            invariant
                i <= TARGET_COUNT,
                want == b.target_display_index as u64,
                find_target_row_by_id_spec(i as nat, want as nat) == find_target_row_by_id_spec(
                    0,
                    want as nat,
                ),
            decreases TARGET_COUNT - i,
        {
            let row = target_display_row(i);
            if row.id == want {
                proof {
                    assert(find_target_row_by_id_spec(i as nat, want as nat) == Some(
                        target_display_row_spec(i as nat),
                    ));
                    assert(l8_target_spec(*b) == Some(
                        ch_from_row_spec(target_display_row_spec(i as nat)),
                    ));
                }
                return Some(Characteristics::from_row(&row));
            }
            i = i + 1;
        }
        proof {
            assert(find_target_row_by_id_spec(TARGET_COUNT as nat, want as nat) is None);
        }
        None
    }

    /// The target display a level-10 block describes.
    pub fn from_l10(b: &Level10In) -> (r: Self)
        requires
            b.target_max_pq_nits <= 100_000,
        ensures
            r == ch_from_l10_spec(*b),
    {
        Characteristics {
            id: b.target_display_index as u64,
            primary_index: b.target_primary_index as u64,
            primaries: b.primaries,
            peak_brightness: max_u16_from_rpu_pq_u12(b.target_max_pq, b.target_max_pq_nits),
            minimum_brightness_pq: b.target_min_pq,
            encoding: Encoding { encoding: EncodingEnum::Pq },
            diagonal_size: 42,
        }
    }

    /// The mastering display a frame describes.
    pub fn get_source_or_default(fd: &FrameData) -> (r: Self)
        requires
            frame_wf(*fd),
        ensures
            r == source_or_default_spec(*fd),
    {
        let primary_index: u64 = match fd.source_primary_matched {
            Some(p) => p,
            None => 0,
        };
        let max_luminance: u64 = match &fd.level6 {
            Some(b) => b.max_display_mastering_luminance as u64,
            None => max_u16_from_rpu_pq_u12(fd.source_max_pq, fd.source_max_pq_nits),
        };
        match find_mastering_row(max_luminance, primary_index) {
            Some(row) => Characteristics::from_row(&row),
            None => {
                let mut source = Characteristics::default_source();
                if fd.level254.is_some() {
                    source.id = fd.source_max_pq as u64;
                    source.primaries = fd.source_primaries;
                    source.primary_index = if fd.source_primary_matched.is_none() {
                        255
                    } else {
                        primary_index
                    };
                    if primary_index == 1 {
                        source.encoding = Encoding { encoding: EncodingEnum::GammaBT1886 };
                        source.peak_brightness = 100;
                    }
                }
                source
            },
        }
    }

    /// All target displays one frame describes, first occurrences kept,
    /// ordered by identifier.  `None` when the frame describes none.
    pub fn get_targets(fd: &FrameData) -> (r: Option<Vec<Self>>)
        requires
            frame_wf(*fd),
        ensures
            r is Some <==> collected_targets_spec(*fd).len() > 0,
            r matches Some(v) ==> {
                &&& v@.len() > 0
                &&& forall|i: int, j: int|
                    0 <= i < j < v@.len() ==> #[trigger] v@[i] != #[trigger] v@[j]
                &&& forall|i: int, j: int|
                    0 <= i <= j < v@.len() ==> #[trigger] v@[i].id <= #[trigger] v@[j].id
                &&& targets_cover(v@, collected_targets_spec(*fd))
            },
    {
        proof {
            reveal(collected_targets_spec);
        }
        let ghost all = collected_targets_spec(*fd);
        let mut collected: Vec<Characteristics> = Vec::new();
        let mut i: usize = 0;
        while i < fd.level10.len()
            invariant
                i <= fd.level10@.len(),
                frame_wf(*fd),
                collected@ =~= fd.level10@.subrange(0, i as int).map(
                    |k: int, b: Level10In| ch_from_l10_spec(b),
                ),
            decreases fd.level10@.len() - i,
        {
            collected.push(Characteristics::from_l10(&fd.level10[i]));
            proof {
                assert(fd.level10@.subrange(0, i + 1 as int).map(
                    |k: int, b: Level10In| ch_from_l10_spec(b),
                ) =~= fd.level10@.subrange(0, i as int).map(
                    |k: int, b: Level10In| ch_from_l10_spec(b),
                ).push(ch_from_l10_spec(fd.level10@[i as int])));
            }
            i = i + 1;
        }
        proof {
            assert(fd.level10@.subrange(0, fd.level10@.len() as int) =~= fd.level10@);
        }
        let mut j: usize = 0;
        while j < fd.level8.len()
            invariant
                j <= fd.level8@.len(),
                frame_wf(*fd),
                collected@ =~= fd.level10@.map(|k: int, b: Level10In| ch_from_l10_spec(b))
                    + l8_targets_spec(fd.level8@.subrange(0, j as int)),
            decreases fd.level8@.len() - j,
        {
            let ghost pre = fd.level8@.subrange(0, j as int);
            match Characteristics::get_target(&fd.level8[j]) {
                Some(c) => collected.push(c),
                None => {},
            }
            proof {
                lemma_l8_targets_snoc(fd.level8@, j as int);
            }
            j = j + 1;
        }
        proof {
            assert(fd.level8@.subrange(0, fd.level8@.len() as int) =~= fd.level8@);
        }
        let mut k: usize = 0;
        while k < fd.level2.len()
            invariant
                k <= fd.level2@.len(),
                frame_wf(*fd),
                collected@ =~= fd.level10@.map(|m: int, b: Level10In| ch_from_l10_spec(b))
                    + l8_targets_spec(fd.level8@) + fd.level2@.subrange(0, k as int).map(
                    |m: int, b: Level2In| primary_target_spec(
                        b,
                        fd.source_primaries,
                        fd.source_primary_matched,
                    ),
                ),
            decreases fd.level2@.len() - k,
        {
            collected.push(
                Characteristics::get_primary_target(
                    &fd.level2[k],
                    &fd.source_primaries,
                    fd.source_primary_matched,
                ),
            );
            proof {
                assert(fd.level2@.subrange(0, k + 1 as int).map(
                    |m: int, b: Level2In| primary_target_spec(
                        b,
                        fd.source_primaries,
                        fd.source_primary_matched,
                    ),
                ) =~= fd.level2@.subrange(0, k as int).map(
                    |m: int, b: Level2In| primary_target_spec(
                        b,
                        fd.source_primaries,
                        fd.source_primary_matched,
                    ),
                ).push(
                    primary_target_spec(
                        fd.level2@[k as int],
                        fd.source_primaries,
                        fd.source_primary_matched,
                    ),
                ));
            }
            k = k + 1;
        }
        proof {
            assert(fd.level2@.subrange(0, fd.level2@.len() as int) =~= fd.level2@);
            reveal(collected_targets_spec);
            assert(collected@ =~= all);
        }
        if collected.len() == 0 {
            return None;
        }
        // Keep the first occurrence of each distinct description.
        let mut unique: Vec<Characteristics> = Vec::new();
        let mut m: usize = 0;
        while m < collected.len()
            invariant
                m <= collected@.len(),
                forall|a: int, b: int|
                    0 <= a < b < unique@.len() ==> #[trigger] unique@[a] != #[trigger] unique@[b],
                forall|a: int| 0 <= a < unique@.len() ==> collected@.contains(#[trigger] unique@[a]),
                forall|a: int|
                    0 <= a < m ==> unique@.contains(#[trigger] collected@[a]),
            decreases collected@.len() - m,
        {
            let cand = collected[m];
            let mut seen = false;
            let mut t: usize = 0;
            while t < unique.len()
                invariant
                    t <= unique@.len(),
                    seen <==> exists|a: int| 0 <= a < t && unique@[a] == cand,
                decreases unique@.len() - t,
            {
                if unique[t] == cand {
                    seen = true;
                }
                t = t + 1;
            }
            if !seen {
                let ghost ub = unique@;
                unique.push(cand);
                proof {
                    assert(unique@[ub.len() as int] == cand);
                    assert forall|a: int| 0 <= a < m + 1 implies unique@.contains(
                        #[trigger] collected@[a],
                    ) by {
                        if a == m {
                            assert(unique@[ub.len() as int] == collected@[a]);
                        } else {
                            let w = choose|w: int| 0 <= w < ub.len() && ub[w] == collected@[a];
                            assert(unique@[w] == collected@[a]);
                        }
                    }
                    assert forall|a: int, b: int| 0 <= a < b < unique@.len() implies #[trigger] unique@[a]
                        != #[trigger] unique@[b] by {
                        if b == ub.len() {
                            assert(!(ub[a] == cand));
                        }
                    }
                }
            } else {
                proof {
                    let a = choose|a: int| 0 <= a < unique@.len() && unique@[a] == cand;
                    assert(unique@.contains(collected@[m as int]));
                }
            }
            m = m + 1;
        }
        proof {
            assert(collected@.contains(collected@[0]));
            assert(unique@.contains(collected@[0]));
            assert(unique@.len() > 0);
        }
        // Order by display identifier (insertion sort).
        let mut sorted: Vec<Characteristics> = Vec::new();
        let mut p: usize = 0;
        while p < unique.len()
            invariant
                p <= unique@.len(),
                sorted@.len() == p,
                forall|a: int, b: int|
                    0 <= a < b < unique@.len() ==> #[trigger] unique@[a] != #[trigger] unique@[b],
                forall|a: int, b: int|
                    0 <= a <= b < sorted@.len() ==> #[trigger] sorted@[a].id
                        <= #[trigger] sorted@[b].id,
                forall|w: int|
                    0 <= w < sorted@.len() ==> exists|v: int|
                        0 <= v < p && unique@[v] == #[trigger] sorted@[w],
                forall|a: int| 0 <= a < p ==> sorted@.contains(#[trigger] unique@[a]),
                forall|a: int, b: int|
                    0 <= a < b < sorted@.len() ==> #[trigger] sorted@[a] != #[trigger] sorted@[b],
            decreases unique@.len() - p,
        {
            let cand = unique[p];
            let mut pos: usize = 0;
            while pos < sorted.len() && sorted[pos].id <= cand.id
                invariant
                    pos <= sorted@.len(),
                    forall|a: int| 0 <= a < pos ==> #[trigger] sorted@[a].id <= cand.id,
                decreases sorted@.len() - pos,
            {
                pos = pos + 1;
            }
            let ghost before = sorted@;
            sorted.insert(pos, cand);
            proof {
                assert(sorted@.len() == before.len() + 1);
                assert(forall|w: int| 0 <= w < pos ==> #[trigger] sorted@[w] == before[w]);
                assert(sorted@[pos as int] == cand);
                assert(forall|w: int|
                    pos < w < sorted@.len() ==> #[trigger] sorted@[w] == before[w - 1]);
                assert forall|a: int, b: int| 0 <= a <= b < sorted@.len() implies #[trigger] sorted@[a].id
                    <= #[trigger] sorted@[b].id by {
                    if a == pos && b > pos {
                        assert(pos < before.len());
                        assert(cand.id < before[pos as int].id);
                        assert(before[pos as int].id <= before[b - 1].id);
                    } else if b == pos && a < pos {
                        assert(before[a].id <= cand.id);
                    }
                }
                assert forall|w: int| 0 <= w < sorted@.len() implies exists|v: int|
                    0 <= v < p + 1 && unique@[v] == #[trigger] sorted@[w] by {
                    if w == pos {
                        assert(unique@[p as int] == sorted@[w]);
                    } else {
                        let w0 = if w < pos {
                            w
                        } else {
                            w - 1
                        };
                        assert(before[w0] == sorted@[w]);
                        let v = choose|v: int| 0 <= v < p && unique@[v] == before[w0];
                        assert(unique@[v] == sorted@[w]);
                    }
                }
                assert forall|a: int| 0 <= a < p + 1 implies sorted@.contains(
                    #[trigger] unique@[a],
                ) by {
                    if a == p {
                        assert(sorted@[pos as int] == unique@[a]);
                    } else {
                        let w = choose|w: int| 0 <= w < before.len() && before[w] == unique@[a];
                        if w < pos {
                            assert(sorted@[w] == unique@[a]);
                        } else {
                            assert(sorted@[w + 1] == unique@[a]);
                        }
                    }
                }
                // The inserted entry is fresh: everything already placed
                // comes from an earlier entry of `unique`, all distinct.
                assert forall|w: int| 0 <= w < before.len() implies #[trigger] before[w]
                    != cand by {
                    let v = choose|v: int| 0 <= v < p && unique@[v] == before[w];
                    assert(unique@[v] != unique@[p as int]);
                }
                assert forall|a: int, b: int| 0 <= a < b < sorted@.len() implies #[trigger] sorted@[a]
                    != #[trigger] sorted@[b] by {
                    if a == pos {
                        assert(sorted@[b] == before[b - 1]);
                    } else if b == pos {
                        assert(sorted@[a] == before[a]);
                    } else {
                        let a0 = if a < pos {
                            a
                        } else {
                            a - 1
                        };
                        let b0 = if b < pos {
                            b
                        } else {
                            b - 1
                        };
                        assert(sorted@[a] == before[a0] && sorted@[b] == before[b0]);
                    }
                }
            }
            p = p + 1;
        }
        proof {
            assert forall|a: int| 0 <= a < sorted@.len() implies collected@.contains(
                #[trigger] sorted@[a],
            ) by {
                let v = choose|v: int| 0 <= v < unique@.len() && unique@[v] == sorted@[a];
                assert(collected@.contains(unique@[v]));
            }
            assert forall|a: int| 0 <= a < collected@.len() implies sorted@.contains(
                #[trigger] collected@[a],
            ) by {
                assert(unique@.contains(collected@[a]));
                let w = choose|w: int| 0 <= w < unique@.len() && unique@[w] == collected@[a];
                assert(sorted@.contains(unique@[w]));
            }
            assert(sorted@.len() > 0);
            reveal(targets_cover);
            assert(targets_cover(sorted@, all));
        }
        Some(sorted)
    }
}

/// Extending a level-8 prefix by one block extends its targets by that
/// block's target, if it has one.
proof fn lemma_l8_targets_snoc(s: Seq<Level8In>, j: int)
    requires
        0 <= j < s.len(),
    ensures
        l8_targets_spec(s.subrange(0, j + 1)) == l8_targets_spec(s.subrange(0, j)) + (
        match l8_target_spec(s[j]) {
            Some(c) => seq![c],
            None => Seq::<Characteristics>::empty(),
        }),
    decreases j,
{
    let pre = s.subrange(0, j);
    let post = s.subrange(0, j + 1);
    if j == 0 {
        assert(post =~= seq![s[0]]);
        assert(post.drop_first() =~= Seq::<Level8In>::empty());
        assert(pre =~= Seq::<Level8In>::empty());
        assert(l8_targets_spec(post) =~= (match l8_target_spec(s[0]) {
            Some(c) => seq![c],
            None => Seq::<Characteristics>::empty(),
        }));
    } else {
        lemma_l8_targets_snoc(s.drop_first(), j - 1);
        assert(post.drop_first() =~= s.drop_first().subrange(0, j));
        assert(pre.drop_first() =~= s.drop_first().subrange(0, j - 1));
        assert(s.drop_first()[j - 1] == s[j]);
        assert(l8_targets_spec(post) =~= l8_targets_spec(pre) + (match l8_target_spec(s[j]) {
            Some(c) => seq![c],
            None => Seq::<Characteristics>::empty(),
        }));
    }
}

} // verus!
