//! The per-level metadata value types of the document, and their
//! constructors from decoded frame-record blocks.
//!
//! Values that the source format stores as fixed-point codes are kept as
//! those codes; values that exist only as decoded single-precision
//! numbers (the color trims) are kept as IEEE-754 bit patterns, already
//! transformed at the crate's boundary.  Equality on either form is
//! exactly the bit-exact equality the document pipeline relies on.
use vstd::prelude::*;

use crate::display::Primaries;
use crate::metadata::MDFType;
use crate::metadata::WithTid;
use crate::metadata::mdf_inner_spec;
use crate::rpu::Level1In;
use crate::rpu::Level2In;
use crate::rpu::Level3In;
use crate::rpu::Level6In;
use crate::rpu::Level8In;
use crate::rpu::Level11In;
use crate::rpu::Level254In;

verus! {

/// Six color-trim fields, as f32 bit patterns.  For the first three
/// fields the boundary has already replaced slope/offset/power by
/// lift/gain/gamma.
#[derive(Clone, Copy, Debug, PartialEq, Eq, Structural)]
pub struct TrimSixField {
    pub t0: u32,
    pub t1: u32,
    pub t2: u32,
    pub t3: u32,
    pub t4: u32,
    pub t5: u32,
}

/// Three image-character values (minimum, average, maximum), as the
/// 12-bit codes they were decoded from.
#[derive(Clone, Copy, Debug, PartialEq, Eq, Structural)]
pub struct ImageCharacter {
    pub v0: u16,
    pub v1: u16,
    pub v2: u16,
}

/// A canvas/image aspect-ratio pair, as f32 bit patterns, together with
/// the image-to-canvas quotient that aspect-ratio comparisons use.
#[derive(Clone, Copy, Debug, PartialEq, Eq, Structural)]
pub struct AspectRatio {
    pub canvas_ar_bits: u32,
    pub image_ar_bits: u32,
    pub ratio_bits: u32,
}

/// Image character (level 1): codes are fractions of 4095.
#[derive(Clone, Copy, Debug, PartialEq, Eq, Structural)]
pub struct Level1 {
    pub level: u8,
    pub image_character: MDFType<ImageCharacter>,
}

/// Per-target color trim (level 2).
#[derive(Clone, Copy, Debug, PartialEq, Eq, Structural)]
pub struct Level2 {
    pub level: u8,
    pub tid: u64,
    pub trim: MDFType<TrimSixField>,
}

/// Offsets over level 1 (level 3): biased 12-bit codes.
#[derive(Clone, Copy, Debug, PartialEq, Eq, Structural)]
pub struct Level3 {
    pub level: u8,
    pub l1_offset: MDFType<ImageCharacter>,
}

/// Aspect ratio (level 5).
#[derive(Clone, Copy, Debug, PartialEq, Eq, Structural)]
pub struct Level5 {
    pub level: u8,
    pub aspect_ratio: MDFType<AspectRatio>,
}

/// Content light levels (level 6).
#[derive(Clone, Copy, Debug, PartialEq, Eq, Structural)]
pub struct Level6 {
    pub level: u64,
    pub max_cll: u64,
    pub max_fall: u64,
}

/// Per-target trim pass (level 8).
#[derive(Clone, Copy, Debug, PartialEq, Eq, Structural)]
pub struct Level8 {
    pub level: u8,
    pub tid: u8,
    pub l8_trim: MDFType<TrimSixField>,
    pub mid_contrast_bias: u32,
    pub highlight_clipping: u32,
    pub sat_vector_field: MDFType<TrimSixField>,
    pub hue_vector_field: MDFType<TrimSixField>,
}

/// Source color primaries (level 9).
#[derive(Clone, Copy, Debug, PartialEq, Eq, Structural)]
pub struct Level9 {
    pub level: u8,
    pub source_color_model: u8,
    pub source_color_primary: MDFType<Primaries>,
}

/// Content type (level 11).
#[derive(Clone, Copy, Debug, PartialEq, Eq, Structural)]
pub struct Level11 {
    pub level: u8,
    pub content_type: u8,
    pub intended_white_point: u8,
    pub extension_properties: Option<u8>,
}

/// Version marker (level 254); its presence selects the current dialect.
#[derive(Clone, Debug)]
pub struct Level254 {
    pub level: u8,
    pub dm_mode: u8,
    pub dm_version: u8,
    pub cm_version: String,
}

/// Whether two aspect-ratio values count as the same: the comparison the
/// statistics use is on the image-to-canvas quotient alone.
pub open spec fn ar_same(a: AspectRatio, b: AspectRatio) -> bool {
    a.ratio_bits == b.ratio_bits
}

/// Whether two level-5 values count as the same aspect ratio.
pub open spec fn level5_same(a: Level5, b: Level5) -> bool {
    ar_same(mdf_inner_spec(a.aspect_ratio), mdf_inner_spec(b.aspect_ratio))
}

/// Whether two optional level-5 values count as the same.
pub open spec fn opt_level5_same(a: Option<Level5>, b: Option<Level5>) -> bool {
    match (a, b) {
        (Option::None, Option::None) => true,
        (Option::Some(x), Option::Some(y)) => level5_same(x, y),
        _ => false,
    }
}

/// Compares two optional level-5 values as aspect ratios.
pub fn eq_opt_level5(a: &Option<Level5>, b: &Option<Level5>) -> (r: bool)
    ensures
        r == opt_level5_same(*a, *b),
{
    match (a, b) {
        (Option::None, Option::None) => true,
        (Option::Some(x), Option::Some(y)) => {
            x.aspect_ratio.into_inner().ratio_bits == y.aspect_ratio.into_inner().ratio_bits
        },
        _ => false,
    }
}

/// Compares two optional level-11 values structurally.
pub fn eq_opt_level11(a: &Option<Level11>, b: &Option<Level11>) -> (r: bool)
    ensures
        r == (*a == *b),
{
    match (a, b) {
        (Option::None, Option::None) => true,
        (Option::Some(x), Option::Some(y)) => {
            let props_eq = match (x.extension_properties, y.extension_properties) {
                (Option::None, Option::None) => true,
                (Option::Some(p), Option::Some(q)) => p == q,
                _ => false,
            };
            x.level == y.level && x.content_type == y.content_type && x.intended_white_point
                == y.intended_white_point && props_eq
        },
        _ => false,
    }
}

impl Level1 {
    /// The level-1 value decoded from a frame's level-1 block.
    pub fn from_block(b: &Level1In) -> (r: Self)
        ensures
            r == level1_from_block_spec(*b),
    {
        Level1 {
            level: 1,
            image_character: MDFType::CMV40(
                ImageCharacter { v0: b.min_pq, v1: b.avg_pq, v2: b.max_pq },
            ),
        }
    }

    /// The placeholder level-1 value of a frame without a level-1 block.
    pub fn default_value() -> (r: Self)
        ensures
            r == level1_default_spec(),
    {
        Level1 {
            level: 0,
            image_character: MDFType::CMV40(ImageCharacter { v0: 0, v1: 0, v2: 0 }),
        }
    }
}

/// The level-1 value decoded from a level-1 block.
pub open spec fn level1_from_block_spec(b: Level1In) -> Level1 {
    Level1 {
        level: 1,
        image_character: MDFType::CMV40(
            ImageCharacter { v0: b.min_pq, v1: b.avg_pq, v2: b.max_pq },
        ),
    }
}

/// The placeholder level-1 value.
pub open spec fn level1_default_spec() -> Level1 {
    Level1 { level: 0, image_character: MDFType::CMV40(ImageCharacter { v0: 0, v1: 0, v2: 0 }) }
}

/// The level-2 value built from a level-2 block and the frame's source
/// primaries index: the target identifier comes from the predefined
/// target table keyed by decoded luminance and primaries index, falling
/// back to the raw peak-PQ code when no table row matches.
pub open spec fn level2_from_block_spec(b: Level2In, primary: Option<u64>) -> Level2 {
    let luminance = crate::display::nits_from_pq_code_spec(
        b.target_max_pq,
        b.target_max_pq_nits as nat,
    );
    let primary_index: nat = if luminance == 100 {
        1
    } else {
        match primary {
            Some(p) => p as nat,
            None => 0,
        }
    };
    let tid: u64 = match crate::display::find_target_row_spec(0, luminance, primary_index) {
        Some(row) => row.id,
        None => b.target_max_pq as u64,
    };
    Level2 { level: 2, tid, trim: MDFType::CMV40(b.trim) }
}

impl Level2 {
    /// Builds the level-2 value for a block, given the frame's source
    /// primaries index byte (if a level-9 block named one).
    pub fn with_primary_index(b: &Level2In, primary: Option<u64>) -> (r: Self)
        requires
            b.target_max_pq_nits <= 100_000,
        ensures
            r == level2_from_block_spec(*b, primary),
    {
        let luminance = crate::display::max_u16_from_rpu_pq_u12(
            b.target_max_pq,
            b.target_max_pq_nits,
        );
        let primary_index: u64 = if luminance == 100 {
            1
        } else {
            match primary {
                Some(p) => p,
                None => 0,
            }
        };
        let tid: u64 = match crate::display::find_target_id(luminance, primary_index) {
            Some(id) => id,
            None => b.target_max_pq as u64,
        };
        Level2 { level: 2, tid, trim: MDFType::CMV40(b.trim) }
    }
}

impl Level3 {
    /// The level-3 value decoded from a frame's level-3 block.
    pub fn from_block(b: &Level3In) -> (r: Self)
        ensures
            r == level3_from_block_spec(*b),
    {
        Level3 {
            level: 3,
            l1_offset: MDFType::CMV40(
                ImageCharacter { v0: b.min_pq_offset, v1: b.avg_pq_offset, v2: b.max_pq_offset },
            ),
        }
    }
}

/// The level-3 value decoded from a level-3 block.
pub open spec fn level3_from_block_spec(b: Level3In) -> Level3 {
    Level3 {
        level: 3,
        l1_offset: MDFType::CMV40(
            ImageCharacter { v0: b.min_pq_offset, v1: b.avg_pq_offset, v2: b.max_pq_offset },
        ),
    }
}

impl Level5 {
    /// The level-5 value for a decoded aspect-ratio pair.
    pub fn from_ar(ar: AspectRatio) -> (r: Self)
        ensures
            r == level5_from_ar_spec(ar),
    {
        Level5 { level: 5, aspect_ratio: MDFType::CMV40(ar) }
    }

    /// The canvas and image aspect ratios, as bit patterns.
    pub fn get_ar(&self) -> (r: (u32, u32))
        ensures
            r.0 == mdf_inner_spec(self.aspect_ratio).canvas_ar_bits,
            r.1 == mdf_inner_spec(self.aspect_ratio).image_ar_bits,
    {
        let ar = self.aspect_ratio.into_inner();
        (ar.canvas_ar_bits, ar.image_ar_bits)
    }
}

/// The level-5 value for a decoded aspect-ratio pair.
pub open spec fn level5_from_ar_spec(ar: AspectRatio) -> Level5 {
    Level5 { level: 5, aspect_ratio: MDFType::CMV40(ar) }
}

impl Level6 {
    /// The level-6 value decoded from a frame's level-6 block.
    pub fn from_block(b: &Level6In) -> (r: Self)
        ensures
            r == level6_from_block_spec(*b),
    {
        Level6 {
            level: 6,
            max_cll: b.max_content_light_level as u64,
            max_fall: b.max_frame_average_light_level as u64,
        }
    }

    /// The empty level-6 value used when the source block is dropped.
    pub fn default_value() -> (r: Self)
        ensures
            r == (Level6 { level: 6, max_cll: 0, max_fall: 0 }),
    {
        Level6 { level: 6, max_cll: 0, max_fall: 0 }
    }
}

/// The level-6 value decoded from a level-6 block.
pub open spec fn level6_from_block_spec(b: Level6In) -> Level6 {
    Level6 {
        level: 6,
        max_cll: b.max_content_light_level as u64,
        max_fall: b.max_frame_average_light_level as u64,
    }
}

/// The level-8 value decoded from a level-8 block.
pub open spec fn level8_from_block_spec(b: Level8In) -> Level8 {
    Level8 {
        level: 8,
        tid: b.target_display_index,
        l8_trim: MDFType::CMV40(b.trim),
        mid_contrast_bias: b.mid_contrast_bias,
        highlight_clipping: b.clip_trim,
        sat_vector_field: MDFType::CMV40(b.sat_vector_field),
        hue_vector_field: MDFType::CMV40(b.hue_vector_field),
    }
}

impl Level8 {
    /// The level-8 value decoded from a frame's level-8 block.
    pub fn from_block(b: &Level8In) -> (r: Self)
        ensures
            r == level8_from_block_spec(*b),
    {
        Level8 {
            level: 8,
            tid: b.target_display_index,
            l8_trim: MDFType::CMV40(b.trim),
            mid_contrast_bias: b.mid_contrast_bias,
            highlight_clipping: b.clip_trim,
            sat_vector_field: MDFType::CMV40(b.sat_vector_field),
            hue_vector_field: MDFType::CMV40(b.hue_vector_field),
        }
    }
}

impl WithTid for Level8 {
    open spec fn tid_spec(&self) -> u64 {
        self.tid as u64
    }

    open spec fn tid_in_range(tid: u64) -> bool {
        tid < 256
    }

    open spec fn with_tid_spec(tid: u64) -> Level8 {
        Level8 {
            level: 8,
            tid: tid as u8,
            l8_trim: MDFType::CMV40(TrimSixField { t0: 0, t1: 0, t2: 0, t3: 0, t4: 0, t5: 0 }),
            mid_contrast_bias: 0,
            highlight_clipping: 0,
            sat_vector_field: MDFType::CMV40(
                TrimSixField { t0: 0, t1: 0, t2: 0, t3: 0, t4: 0, t5: 0 },
            ),
            hue_vector_field: MDFType::CMV40(
                TrimSixField { t0: 0, t1: 0, t2: 0, t3: 0, t4: 0, t5: 0 },
            ),
        }
    }

    fn tid(&self) -> u64 {
        self.tid as u64
    }

    fn with_tid(tid: u64) -> Self {
        let zero_trim = TrimSixField { t0: 0, t1: 0, t2: 0, t3: 0, t4: 0, t5: 0 };
        Level8 {
            level: 8,
            tid: tid as u8,
            l8_trim: MDFType::CMV40(zero_trim),
            mid_contrast_bias: 0,
            highlight_clipping: 0,
            sat_vector_field: MDFType::CMV40(zero_trim),
            hue_vector_field: MDFType::CMV40(zero_trim),
        }
    }
}

impl Level9 {
    /// The level-9 value for a set of source primaries.
    pub fn from_primaries(p: &Primaries) -> (r: Self)
        ensures
            r == level9_from_primaries_spec(*p),
    {
        Level9 { level: 9, source_color_model: 255, source_color_primary: MDFType::CMV40(*p) }
    }
}

/// The level-9 value for a set of source primaries.
pub open spec fn level9_from_primaries_spec(p: Primaries) -> Level9 {
    Level9 { level: 9, source_color_model: 255, source_color_primary: MDFType::CMV40(p) }
}

impl Level11 {
    /// The level-11 value decoded from a frame's level-11 block.
    pub fn from_block(b: &Level11In) -> (r: Self)
        ensures
            r == level11_from_block_spec(*b),
    {
        Level11 {
            level: 11,
            content_type: b.content_type,
            intended_white_point: b.whitepoint,
            extension_properties: None,
        }
    }

    /// The default content type (movie, standard white point).
    pub fn default_value() -> (r: Self)
        ensures
            r == (Level11 {
                level: 11,
                content_type: 1,
                intended_white_point: 0,
                extension_properties: None,
            }),
    {
        Level11 { level: 11, content_type: 1, intended_white_point: 0, extension_properties: None }
    }
}

/// The level-11 value decoded from a level-11 block.
pub open spec fn level11_from_block_spec(b: Level11In) -> Level11 {
    Level11 {
        level: 11,
        content_type: b.content_type,
        intended_white_point: b.whitepoint,
        extension_properties: None,
    }
}

impl Level254 {
    /// The level-254 value decoded from a frame's level-254 block.  The
    /// embedded CM version pair is fixed.
    pub fn from_block(b: &Level254In) -> (r: Self)
        ensures
            r.level == 254,
            r.dm_mode == b.dm_mode,
            r.dm_version == b.dm_version_index,
            r.cm_version@ == "4 1"@,
    {
        let mut cm_version = String::new();
        cm_version.append("4 1");
        proof {
            assert(cm_version@ =~= "4 1"@);
        }
        Level254 { level: 254, dm_mode: b.dm_mode, dm_version: b.dm_version_index, cm_version }
    }
}

/// Whether two optional level-254 values are structurally equal.
pub open spec fn opt_level254_same(a: Option<Level254>, b: Option<Level254>) -> bool {
    match (a, b) {
        (Option::None, Option::None) => true,
        (Option::Some(x), Option::Some(y)) => x.level == y.level && x.dm_mode == y.dm_mode
            && x.dm_version == y.dm_version && x.cm_version@ == y.cm_version@,
        _ => false,
    }
}

} // verus!
