//! The decoded per-frame metadata record, as the conversion pipeline
//! consumes it: one record per encoded frame, in encoding order, each
//! either carrying its decoded level blocks or marked invalid.
//!
//! The crate's boundary produces these records from the binary metadata
//! stream; numeric fields that the source format stores as fixed-point
//! codes stay codes, and the few values that only exist as decoded
//! single-precision numbers arrive as IEEE-754 bit patterns, already
//! transformed where the format calls for it (color trims, aspect-ratio
//! quotients, inverse-PQ luminances rounded to whole nits).
use vstd::prelude::*;

use crate::display::Primaries;
use crate::levels::AspectRatio;
use crate::levels::TrimSixField;

verus! {

/// A decoded level-1 block: image character codes.
#[derive(Clone, Copy, Debug, PartialEq, Eq, Structural)]
pub struct Level1In {
    pub min_pq: u16,
    pub avg_pq: u16,
    pub max_pq: u16,
}

/// A decoded level-2 block: the target's peak-PQ code, its rounded
/// inverse-PQ luminance, and the transformed trim fields.
#[derive(Clone, Copy, Debug, PartialEq, Eq, Structural)]
pub struct Level2In {
    pub target_max_pq: u16,
    pub target_max_pq_nits: u64,
    pub trim: TrimSixField,
}

/// A decoded level-3 block: offset codes over level 1.
#[derive(Clone, Copy, Debug, PartialEq, Eq, Structural)]
pub struct Level3In {
    pub min_pq_offset: u16,
    pub avg_pq_offset: u16,
    pub max_pq_offset: u16,
}

/// A decoded level-6 block: mastering-display and content light levels.
#[derive(Clone, Copy, Debug, PartialEq, Eq, Structural)]
pub struct Level6In {
    pub max_display_mastering_luminance: u16,
    pub min_display_mastering_luminance: u16,
    pub max_content_light_level: u16,
    pub max_frame_average_light_level: u16,
}

/// A decoded level-8 block, trims transformed at the boundary.
#[derive(Clone, Copy, Debug, PartialEq, Eq, Structural)]
pub struct Level8In {
    pub target_display_index: u8,
    pub trim: TrimSixField,
    pub mid_contrast_bias: u32,
    pub clip_trim: u32,
    pub sat_vector_field: TrimSixField,
    pub hue_vector_field: TrimSixField,
}

/// A decoded level-9 block: the raw source-primaries index byte and the
/// primaries it names (or carries explicitly).
#[derive(Clone, Copy, Debug, PartialEq, Eq, Structural)]
pub struct Level9In {
    pub source_primary_index: u8,
    pub primaries: Primaries,
}

/// A decoded level-10 block: a custom target display.
#[derive(Clone, Copy, Debug, PartialEq, Eq, Structural)]
pub struct Level10In {
    pub target_display_index: u8,
    pub target_primary_index: u8,
    pub primaries: Primaries,
    pub target_max_pq: u16,
    pub target_max_pq_nits: u64,
    pub target_min_pq: u16,
}

/// A decoded level-11 block: content type.
#[derive(Clone, Copy, Debug, PartialEq, Eq, Structural)]
pub struct Level11In {
    pub content_type: u8,
    pub whitepoint: u8,
}

/// A decoded level-254 block: the version marker.
#[derive(Clone, Copy, Debug, PartialEq, Eq, Structural)]
pub struct Level254In {
    pub dm_mode: u8,
    pub dm_version_index: u8,
}

/// One valid decoded frame record.
#[derive(Clone, Debug)]
pub struct FrameData {
    /// Whether this instant starts a new scene.
    pub scene_refresh: bool,
    /// The source's peak-PQ code.
    pub source_max_pq: u16,
    /// The rounded inverse-PQ luminance of `source_max_pq / 4095`.
    pub source_max_pq_nits: u64,
    pub level1: Option<Level1In>,
    pub level2: Vec<Level2In>,
    pub level3: Option<Level3In>,
    /// The aspect ratio decoded from the level-5 block against the
    /// configured canvas, when the frame carries one.
    pub level5: Option<AspectRatio>,
    pub level6: Option<Level6In>,
    pub level8: Vec<Level8In>,
    pub level9: Option<Level9In>,
    pub level10: Vec<Level10In>,
    pub level11: Option<Level11In>,
    pub level254: Option<Level254In>,
    /// The source primaries (level 9's, or the default set).
    pub source_primaries: Primaries,
    /// The predefined-primaries index the source primaries match, if any
    /// (matched at the boundary, coordinate by coordinate).
    pub source_primary_matched: Option<u64>,
}

/// One record of the decoded frame stream.
#[derive(Clone, Debug)]
pub enum FrameRecord {
    /// The decoder had no usable data at this position.
    Invalid,
    /// A decoded frame.
    Valid(FrameData),
}

/// The machine bound every decoded luminance respects: the inverse PQ
/// transfer function peaks at 10000 nits, so its rounded values stay far
/// below this.
pub open spec fn nits_bounded(n: u64) -> bool {
    n <= 100_000
}

/// Well-formedness of one decoded frame: every boundary-computed
/// luminance is within the transfer function's range.
pub open spec fn frame_wf(fd: FrameData) -> bool {
    &&& nits_bounded(fd.source_max_pq_nits)
    &&& forall|i: int|
        0 <= i < fd.level2@.len() ==> nits_bounded(#[trigger] fd.level2@[i].target_max_pq_nits)
    &&& forall|i: int|
        0 <= i < fd.level10@.len() ==> nits_bounded(#[trigger] fd.level10@[i].target_max_pq_nits)
}

/// Well-formedness of one record.
pub open spec fn record_wf(r: FrameRecord) -> bool {
    match r {
        FrameRecord::Invalid => true,
        FrameRecord::Valid(fd) => frame_wf(fd),
    }
}

/// Well-formedness of a frame stream.
pub open spec fn records_wf(rs: Seq<FrameRecord>) -> bool {
    forall|i: int| 0 <= i < rs.len() ==> record_wf(#[trigger] rs[i])
}

/// Whether a record is a valid frame.
pub open spec fn is_valid_record(r: FrameRecord) -> bool {
    r is Valid
}

/// The data of a valid record.
pub open spec fn record_data(r: FrameRecord) -> FrameData
    recommends
        r is Valid,
{
    r->Valid_0
}

} // verus!
