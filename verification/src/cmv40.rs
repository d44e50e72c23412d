//! The current-dialect document model: track, shots, per-frame overrides
//! and the document root, with the builders that assemble them from
//! decoded frame records.
use vstd::prelude::*;

use crate::display;
use crate::display::Chromaticity;
use crate::display::source_or_default_spec;
use crate::levels::AspectRatio;
use crate::levels::Level1;
use crate::levels::Level2;
use crate::levels::Level3;
use crate::levels::Level5;
use crate::levels::Level6;
use crate::levels::Level8;
use crate::levels::Level9;
use crate::levels::Level11;
use crate::levels::Level254;
use crate::levels::level1_default_spec;
use crate::levels::level1_from_block_spec;
use crate::levels::level2_from_block_spec;
use crate::levels::level3_from_block_spec;
use crate::levels::level5_from_ar_spec;
use crate::levels::level6_from_block_spec;
use crate::levels::level8_from_block_spec;
use crate::levels::level9_from_primaries_spec;
use crate::levels::level11_from_block_spec;
use crate::levels::opt_level5_same;
use crate::levels::opt_level254_same;
use crate::levels::eq_opt_level5;
use crate::levels::eq_opt_level11;
use crate::metadata::ApplicationType;
use crate::metadata::ApplicationTypeEnum;
use crate::metadata::ColorSpace;
use crate::metadata::ColorSpaceEnum;
use crate::metadata::Encoding;
use crate::metadata::EncodingEnum;
use crate::metadata::MDFType;
use crate::metadata::RevisionHistory;
use crate::metadata::SignalRange;
use crate::metadata::SignalRangeEnum;
use crate::metadata::UUIDv4;
use crate::metadata::Version;
use crate::metadata::XMLVersion;
use crate::metadata::mdf_inner_spec;
use crate::metadata::version_above_min_cmv40_spec;
use crate::metadata::version_of_spec;
use crate::rpu::FrameData;
use crate::rpu::frame_wf;

verus! {

/// The fallback aspect-ratio bit pattern (16:9, the standard UHD canvas).
pub const UHD_AR_BITS: u32 = 0x3fe38e39;

/// A shot's place on the timeline: first frame index and length.
#[derive(Clone, Copy, Debug, PartialEq, Eq, Structural)]
pub struct Record {
    pub in_: usize,
    pub duration: usize,
}

/// The track's edit rate, in frames per second, as a rational.
#[derive(Clone, Copy, Debug, PartialEq, Eq, Structural)]
pub struct EditRate {
    pub n: u64,
    pub d: u64,
}

/// The edit rate read from up to two numbers (numerator, denominator);
/// missing parts default to 1.
pub open spec fn edit_rate_from_spec(v: Seq<u64>) -> EditRate {
    EditRate {
        n: if v.len() >= 1 {
            v[0]
        } else {
            1
        },
        d: if v.len() >= 2 {
            v[1]
        } else {
            1
        },
    }
}

impl EditRate {
    /// Reads an edit rate from the parsed numerator/denominator list.
    pub fn from_vec(v: &Vec<u64>) -> (r: Self)
        requires
            v@.len() <= 2,
        ensures
            r == edit_rate_from_spec(v@),
    {
        let n: u64 = if v.len() >= 1 {
            v[0]
        } else {
            1
        };
        let d: u64 = if v.len() >= 2 {
            v[1]
        } else {
            1
        };
        EditRate { n, d }
    }

    /// The default edit rate, 24000/1001 frames per second.
    pub fn default_value() -> (r: Self)
        ensures
            r == (EditRate { n: 24000, d: 1001 }),
    {
        EditRate { n: 24000, d: 1001 }
    }

    /// Rejects an edit rate with a zero part.
    pub fn validate(&self) -> (r: Result<(), crate::ConvertError>)
        ensures
            r is Ok <==> self.n != 0 && self.d != 0,
            r matches Err(e) ==> e == crate::ConvertError::InvalidRate,
    {
        if self.n != 0 && self.d != 0 {
            Ok(())
        } else {
            Err(crate::ConvertError::InvalidRate)
        }
    }
}

/// The per-instant dynamic metadata: one value or list per level.
#[derive(Clone, Debug)]
pub struct DVDynamicData {
    pub level1: Level1,
    pub level2: Option<Vec<Level2>>,
    pub level3: Option<Level3>,
    pub level5: Option<Level5>,
    pub level8: Option<Vec<Level8>>,
    pub level9: Option<Level9>,
}

/// The source-primaries index byte a frame's level-9 block names.
pub open spec fn l9_index_spec(fd: FrameData) -> Option<u64> {
    match fd.level9 {
        Some(l9) => Some(l9.source_primary_index as u64),
        None => None,
    }
}

/// The aspect ratio an instant carries: its level-5 block's, or the
/// canvas's own.
pub open spec fn effective_ar_spec(fd: FrameData, canvas_ar: AspectRatio) -> AspectRatio {
    match fd.level5 {
        Some(ar) => ar,
        None => canvas_ar,
    }
}

/// Whether `dd` is exactly the dynamic data decoded from frame `fd`
/// against the given canvas aspect ratio.
pub open spec fn dd_matches_frame(dd: DVDynamicData, fd: FrameData, canvas_ar: AspectRatio) -> bool {
    &&& dd.level1 == (match fd.level1 {
        Some(b) => level1_from_block_spec(b),
        None => level1_default_spec(),
    })
    &&& dd.level2 matches Some(v2) && v2@.len() == fd.level2@.len() && (forall|i: int|
        0 <= i < v2@.len() ==> #[trigger] v2@[i] == level2_from_block_spec(
            fd.level2@[i],
            l9_index_spec(fd),
        ))
    &&& dd.level3 == (match fd.level3 {
        Some(b) => Some(level3_from_block_spec(b)),
        None => None::<Level3>,
    })
    &&& dd.level5 == Some(level5_from_ar_spec(effective_ar_spec(fd, canvas_ar)))
    &&& dd.level8 matches Some(v8) && v8@.len() == fd.level8@.len() && (forall|i: int|
        0 <= i < v8@.len() ==> #[trigger] v8@[i] == level8_from_block_spec(fd.level8@[i]))
    &&& dd.level9 == (match fd.level9 {
        Some(l9) => Some(level9_from_primaries_spec(l9.primaries)),
        None => None::<Level9>,
    })
}

/// Structural equality of two dynamic-data values, with aspect ratios
/// compared as ratios.  This is the comparison that decides whether an
/// instant diverges from its shot's baseline.
pub open spec fn dd_same(a: DVDynamicData, b: DVDynamicData) -> bool {
    &&& a.level1 == b.level1
    &&& opt_vec_same::<Level2>(a.level2, b.level2)
    &&& a.level3 == b.level3
    &&& opt_level5_same(a.level5, b.level5)
    &&& opt_vec_same::<Level8>(a.level8, b.level8)
    &&& a.level9 == b.level9
}

/// Elementwise equality of two optional lists.
pub open spec fn opt_vec_same<T>(a: Option<Vec<T>>, b: Option<Vec<T>>) -> bool {
    match (a, b) {
        (Option::None, Option::None) => true,
        (Option::Some(x), Option::Some(y)) => x@ == y@,
        _ => false,
    }
}

/// Compares two optional level-2 lists.
#[verifier::loop_isolation(false)]
fn eq_opt_vec_level2(a: &Option<Vec<Level2>>, b: &Option<Vec<Level2>>) -> (r: bool)
    ensures
        r == opt_vec_same::<Level2>(*a, *b),
{
    match (a, b) {
        (Option::None, Option::None) => true,
        (Option::Some(x), Option::Some(y)) => {
            if x.len() != y.len() {
                proof {
                    assert(x@.len() != y@.len());
                }
                false
            } else {
                let mut i: usize = 0;
                while i < x.len()
                    invariant
                        i <= x@.len(),
                        x@.len() == y@.len(),
                        forall|j: int| 0 <= j < i ==> x@[j] == y@[j],
                    decreases x@.len() - i,
                {
                    if !(x[i] == y[i]) {
                        return false;
                    }
                    i = i + 1;
                }
                proof {
                    assert(x@ =~= y@);
                }
                true
            }
        },
        _ => false,
    }
}

/// Compares two optional level-8 lists.
#[verifier::loop_isolation(false)]
fn eq_opt_vec_level8(a: &Option<Vec<Level8>>, b: &Option<Vec<Level8>>) -> (r: bool)
    ensures
        r == opt_vec_same::<Level8>(*a, *b),
{
    match (a, b) {
        (Option::None, Option::None) => true,
        (Option::Some(x), Option::Some(y)) => {
            if x.len() != y.len() {
                proof {
                    assert(x@.len() != y@.len());
                }
                false
            } else {
                let mut i: usize = 0;
                while i < x.len()
                    invariant
                        i <= x@.len(),
                        x@.len() == y@.len(),
                        forall|j: int| 0 <= j < i ==> x@[j] == y@[j],
                    decreases x@.len() - i,
                {
                    if !(x[i] == y[i]) {
                        return false;
                    }
                    i = i + 1;
                }
                proof {
                    assert(x@ =~= y@);
                }
                true
            }
        },
        _ => false,
    }
}

/// A fresh copy of an optional level-2 list.
#[verifier::loop_isolation(false)]
fn copy_opt_level2(v: &Option<Vec<Level2>>) -> (r: Option<Vec<Level2>>)
    ensures
        opt_vec_same::<Level2>(r, *v),
        r is Some <==> *v is Some,
{
    match v {
        None => None,
        Some(x) => {
            let mut out: Vec<Level2> = Vec::new();
            let mut i: usize = 0;
            while i < x.len()
                invariant
                    i <= x@.len(),
                    out@ == x@.subrange(0, i as int),
                decreases x@.len() - i,
            {
                out.push(x[i]);
                proof {
                    assert(out@ =~= x@.subrange(0, i + 1 as int));
                }
                i = i + 1;
            }
            proof {
                assert(out@ =~= x@);
            }
            Some(out)
        },
    }
}

/// A fresh copy of an optional level-8 list.
#[verifier::loop_isolation(false)]
fn copy_opt_level8(v: &Option<Vec<Level8>>) -> (r: Option<Vec<Level8>>)
    ensures
        opt_vec_same::<Level8>(r, *v),
        r is Some <==> *v is Some,
{
    match v {
        None => None,
        Some(x) => {
            let mut out: Vec<Level8> = Vec::new();
            let mut i: usize = 0;
            while i < x.len()
                invariant
                    i <= x@.len(),
                    out@ == x@.subrange(0, i as int),
                decreases x@.len() - i,
            {
                out.push(x[i]);
                proof {
                    assert(out@ =~= x@.subrange(0, i + 1 as int));
                }
                i = i + 1;
            }
            proof {
                assert(out@ =~= x@);
            }
            Some(out)
        },
    }
}

/// Compares two optional level-1 values (always present in practice).
fn eq_opt_level3(a: &Option<Level3>, b: &Option<Level3>) -> (r: bool)
    ensures
        r == (*a == *b),
{
    match (a, b) {
        (Option::None, Option::None) => true,
        (Option::Some(x), Option::Some(y)) => x == y,
        _ => false,
    }
}

/// Compares two optional level-9 values.
fn eq_opt_level9(a: &Option<Level9>, b: &Option<Level9>) -> (r: bool)
    ensures
        r == (*a == *b),
{
    match (a, b) {
        (Option::None, Option::None) => true,
        (Option::Some(x), Option::Some(y)) => x == y,
        _ => false,
    }
}

impl DVDynamicData {
    /// Decodes an instant's dynamic data from its frame record, against
    /// the canvas aspect ratio.
    #[verifier::loop_isolation(false)]
    pub fn with_canvas(fd: &FrameData, canvas_ar: AspectRatio) -> (r: Self)
        requires
            frame_wf(*fd),
        ensures
            dd_matches_frame(r, *fd, canvas_ar),
    {
        let level1 = match &fd.level1 {
            Some(b) => Level1::from_block(b),
            None => Level1::default_value(),
        };
        let primary: Option<u64> = match &fd.level9 {
            Some(l9) => Some(l9.source_primary_index as u64),
            None => None,
        };
        let mut level2: Vec<Level2> = Vec::new();
        let mut i: usize = 0;
        while i < fd.level2.len()
            invariant
                i <= fd.level2@.len(),
                frame_wf(*fd),
                primary == l9_index_spec(*fd),
                level2@.len() == i,
                forall|j: int|
                    0 <= j < i ==> #[trigger] level2@[j] == level2_from_block_spec(
                        fd.level2@[j],
                        l9_index_spec(*fd),
                    ),
            decreases fd.level2@.len() - i,
        {
            level2.push(Level2::with_primary_index(&fd.level2[i], primary));
            i = i + 1;
        }
        let level3 = match &fd.level3 {
            Some(b) => Some(Level3::from_block(b)),
            None => None,
        };
        let level5 = match &fd.level5 {
            Some(ar) => Some(Level5::from_ar(*ar)),
            None => Some(Level5::from_ar(canvas_ar)),
        };
        let mut level8: Vec<Level8> = Vec::new();
        let mut k: usize = 0;
        while k < fd.level8.len()
            invariant
                k <= fd.level8@.len(),
                level8@.len() == k,
                forall|j: int|
                    0 <= j < k ==> #[trigger] level8@[j] == level8_from_block_spec(fd.level8@[j]),
            decreases fd.level8@.len() - k,
        {
            level8.push(Level8::from_block(&fd.level8[k]));
            k = k + 1;
        }
        let level9 = match &fd.level9 {
            Some(l9) => Some(Level9::from_primaries(&l9.primaries)),
            None => None,
        };
        DVDynamicData {
            level1,
            level2: Some(level2),
            level3,
            level5,
            level8: Some(level8),
            level9,
        }
    }
}

/// Compares two dynamic-data values.
pub fn eq_dd(a: &DVDynamicData, b: &DVDynamicData) -> (r: bool)
    ensures
        r == dd_same(*a, *b),
{
    a.level1 == b.level1 && eq_opt_vec_level2(&a.level2, &b.level2) && eq_opt_level3(
        &a.level3,
        &b.level3,
    ) && eq_opt_level5(&a.level5, &b.level5) && eq_opt_vec_level8(&a.level8, &b.level8)
        && eq_opt_level9(&a.level9, &b.level9)
}

/// An instant's plugin node: dynamic data plus content type.
#[derive(Clone, Debug)]
pub struct ShotPluginNode {
    pub dv_dynamic_data: DVDynamicData,
    pub level11: Option<Level11>,
}

/// Equality of two plugin nodes, as the divergence test uses it.
pub open spec fn spn_same(a: ShotPluginNode, b: ShotPluginNode) -> bool {
    dd_same(a.dv_dynamic_data, b.dv_dynamic_data) && a.level11 == b.level11
}

/// Whether a plugin node is exactly the one decoded from a frame.
pub open spec fn spn_matches_frame(
    spn: ShotPluginNode,
    fd: FrameData,
    canvas_ar: AspectRatio,
) -> bool {
    &&& dd_matches_frame(spn.dv_dynamic_data, fd, canvas_ar)
    &&& spn.level11 == (match fd.level11 {
        Some(b) => Some(level11_from_block_spec(b)),
        None => None::<Level11>,
    })
}

/// Compares two plugin nodes.
pub fn eq_spn(a: &ShotPluginNode, b: &ShotPluginNode) -> (r: bool)
    ensures
        r == spn_same(*a, *b),
{
    eq_dd(&a.dv_dynamic_data, &b.dv_dynamic_data) && eq_opt_level11(&a.level11, &b.level11)
}

/// A fresh copy of a plugin node.
pub fn copy_spn(s: &ShotPluginNode) -> (r: ShotPluginNode)
    ensures
        spn_same(r, *s),
        r.level11 == s.level11,
        r.dv_dynamic_data.level9 == s.dv_dynamic_data.level9,
        r.dv_dynamic_data.level5 == s.dv_dynamic_data.level5,
        r.dv_dynamic_data.level1 == s.dv_dynamic_data.level1,
        r.dv_dynamic_data.level3 == s.dv_dynamic_data.level3,
{
    ShotPluginNode {
        dv_dynamic_data: DVDynamicData {
            level1: s.dv_dynamic_data.level1,
            level2: copy_opt_level2(&s.dv_dynamic_data.level2),
            level3: s.dv_dynamic_data.level3,
            level5: s.dv_dynamic_data.level5,
            level8: copy_opt_level8(&s.dv_dynamic_data.level8),
            level9: s.dv_dynamic_data.level9,
        },
        level11: s.level11,
    }
}

impl ShotPluginNode {
    /// Decodes an instant's plugin node from its frame record.
    #[verifier::loop_isolation(false)]
    pub fn with_canvas(fd: &FrameData, canvas_ar: AspectRatio) -> (r: Self)
        requires
            frame_wf(*fd),
        ensures
            spn_matches_frame(r, *fd, canvas_ar),
    {
        let level11 = match &fd.level11 {
            Some(b) => Some(Level11::from_block(b)),
            None => None,
        };
        ShotPluginNode { dv_dynamic_data: DVDynamicData::with_canvas(fd, canvas_ar), level11 }
    }
}

/// One per-frame override inside a shot.
#[derive(Clone, Debug)]
pub struct Frame {
    pub edit_offset: usize,
    pub plugin_node: ShotPluginNode,
}

/// The plugin node an override carries: the instant's dynamic data
/// without its level 9, and no content type.
pub open spec fn frame_node_of(spn: ShotPluginNode) -> ShotPluginNode {
    ShotPluginNode {
        dv_dynamic_data: DVDynamicData { level9: None, ..spn.dv_dynamic_data },
        level11: None,
    }
}

impl Frame {
    /// The override recording `shot`'s current instant at `offset`.
    pub fn with_offset(shot: &Shot, offset: usize) -> (r: Self)
        ensures
            r.edit_offset == offset,
            spn_same(r.plugin_node, frame_node_of(shot.plugin_node)),
            r.plugin_node.level11 is None,
            r.plugin_node.dv_dynamic_data.level9 is None,
    {
        let src = &shot.plugin_node.dv_dynamic_data;
        let dv_dynamic_data = DVDynamicData {
            level1: src.level1,
            level2: copy_opt_level2(&src.level2),
            level3: src.level3,
            level5: src.level5,
            level8: copy_opt_level8(&src.level8),
            level9: None,
        };
        Frame { edit_offset: offset, plugin_node: ShotPluginNode { dv_dynamic_data, level11: None } }
    }
}

/// A run of consecutive frames sharing one metadata baseline.
#[derive(Clone, Debug)]
pub struct Shot {
    pub unique_id: UUIDv4,
    pub record: Record,
    pub plugin_node: ShotPluginNode,
    pub frames: Option<Vec<Frame>>,
}

impl Shot {
    /// A fresh one-frame-so-far shot whose baseline is this instant.
    #[verifier::loop_isolation(false)]
    pub fn with_canvas(fd: &FrameData, canvas_ar: AspectRatio) -> (r: Self)
        requires
            frame_wf(*fd),
        ensures
            r.record == (Record { in_: 0, duration: 0 }),
            spn_matches_frame(r.plugin_node, *fd, canvas_ar),
            r.frames is None,
    {
        Shot {
            unique_id: UUIDv4::new(),
            record: Record { in_: 0, duration: 0 },
            plugin_node: ShotPluginNode::with_canvas(fd, canvas_ar),
            frames: None,
        }
    }

    /// Restates the shot's record: a new first frame resets the length
    /// to one; no index extends the shot by one frame; an explicit
    /// length override sets the length to one past it.
    pub fn update_record(&mut self, index: Option<usize>, duration_override: Option<usize>)
        requires
            old(self).record.duration < usize::MAX,
            duration_override matches Some(d) ==> d < usize::MAX,
        ensures
            final(self).record.in_ == (match index {
                Some(i) => i,
                None => old(self).record.in_,
            }),
            final(self).record.duration == (match duration_override {
                Some(d) => d + 1,
                None => match index {
                    Some(_) => 1,
                    None => old(self).record.duration + 1,
                },
            }),
            final(self).plugin_node == old(self).plugin_node,
            final(self).frames == old(self).frames,
            final(self).unique_id == old(self).unique_id,
    {
        match index {
            Some(i) => {
                self.record.in_ = i;
                self.record.duration = 1;
            },
            None => {
                self.record.duration = self.record.duration + 1;
            },
        }
        if let Some(d) = duration_override {
            self.record.duration = d + 1;
        }
    }

    /// Records the current instant as a per-frame override when it
    /// diverges from the shot's baseline; the override list is created
    /// on the first divergence and stays sparse — instants equal to the
    /// baseline add nothing.
    pub fn append_metadata(&mut self, other: &Shot)
        requires
            old(self).record.duration >= 1,
        ensures
            spn_same(old(self).plugin_node, other.plugin_node) ==> *final(self) == *old(self),
            !spn_same(old(self).plugin_node, other.plugin_node) ==> {
                &&& final(self).frames matches Some(fv)
                &&& fv@.len() == (match old(self).frames {
                    Some(old_fv) => old_fv@.len() + 1,
                    None => 1,
                })
                &&& (match old(self).frames {
                    Some(old_fv) => fv@.subrange(0, old_fv@.len() as int) == old_fv@,
                    None => true,
                })
                &&& fv@.last().edit_offset == old(self).record.duration - 1
                &&& spn_same(fv@.last().plugin_node, frame_node_of(other.plugin_node))
                &&& fv@.last().plugin_node.level11 is None
                &&& fv@.last().plugin_node.dv_dynamic_data.level9 is None
                &&& final(self).record == old(self).record
                &&& final(self).plugin_node == old(self).plugin_node
                &&& final(self).unique_id == old(self).unique_id
            },
    {
        if !eq_spn(&self.plugin_node, &other.plugin_node) {
            let offset = self.record.duration - 1;
            let new_frame = Frame::with_offset(other, offset);
            match &mut self.frames {
                Some(frames) => {
                    frames.push(new_frame);
                },
                None => {
                    let mut frames: Vec<Frame> = Vec::new();
                    frames.push(new_frame);
                    self.frames = Some(frames);
                },
            }
        }
    }

    /// Extends the shot over an invalid instant: the length grows by one
    /// and, when overrides are being tracked, the last override is
    /// repeated at the new offset.
    pub fn repeat_last_instant(&mut self)
        requires
            1 <= old(self).record.duration < usize::MAX,
        ensures
            final(self).record.in_ == old(self).record.in_,
            final(self).record.duration == old(self).record.duration + 1,
            final(self).plugin_node == old(self).plugin_node,
            final(self).unique_id == old(self).unique_id,
            match old(self).frames {
                None => final(self).frames is None,
                Some(old_fv) => {
                    &&& final(self).frames matches Some(fv)
                    &&& (old_fv@.len() == 0 ==> fv@ == old_fv@)
                    &&& (old_fv@.len() > 0 ==> fv@.len() == old_fv@.len() + 1 && fv@.subrange(
                        0,
                        old_fv@.len() as int,
                    ) == old_fv@ && fv@.last().edit_offset == old(self).record.duration
                        && spn_same(fv@.last().plugin_node, old_fv@.last().plugin_node)
                        && fv@.last().plugin_node.level11 == old_fv@.last().plugin_node.level11)
                },
            },
    {
        self.record.duration = self.record.duration + 1;
        let new_offset = self.record.duration - 1;
        match &mut self.frames {
            Some(frames) => {
                if frames.len() > 0 {
                    let n = frames.len() - 1;
                    let last_node = copy_spn(&frames[n].plugin_node);
                    frames.push(Frame { edit_offset: new_offset, plugin_node: last_node });
                }
            },
            None => {},
        }
    }
}

/// The track-wide static display data.
#[derive(Clone, Debug)]
pub struct DVGlobalData {
    pub level: u64,
    pub mastering_display: Characteristics,
    pub target_displays: Option<Vec<Characteristics>>,
}

/// The track's plugin node: global data, content type, version marker.
#[derive(Clone, Debug)]
pub struct TrackPluginNode {
    pub dv_global_data: DVGlobalData,
    pub level11: Option<Level11>,
    pub level254: Option<Level254>,
}

/// The track's color encoding.
#[derive(Clone, Debug)]
pub struct ColorEncoding {
    pub primaries: crate::metadata::Primaries,
    pub white_point: MDFType<Chromaticity>,
    pub peak_brightness: u64,
    pub minimum_brightness: u64,
    pub encoding: Encoding,
    pub color_space: ColorSpace,
    pub signal_range: SignalRange,
}

/// The default color encoding: BT.2020 primaries, PQ, RGB, full range.
pub open spec fn color_encoding_default_spec(c: ColorEncoding) -> bool {
    &&& c.primaries.red == MDFType::CMV40(display::primaries_row_spec(2).red)
    &&& c.primaries.green == MDFType::CMV40(display::primaries_row_spec(2).green)
    &&& c.primaries.blue == MDFType::CMV40(display::primaries_row_spec(2).blue)
    &&& c.white_point == MDFType::CMV40(display::primaries_row_spec(2).white_point)
    &&& c.peak_brightness == 10000
    &&& c.minimum_brightness == 0
    &&& c.encoding == (Encoding { encoding: EncodingEnum::Pq })
    &&& c.color_space == (ColorSpace { color_space: ColorSpaceEnum::Rgb })
    &&& c.signal_range == (SignalRange { signal_range: SignalRangeEnum::Computer })
}

impl ColorEncoding {
    /// The default color encoding.
    pub fn default_value() -> (r: Self)
        ensures
            color_encoding_default_spec(r),
    {
        let p = display::primaries_row(2);
        ColorEncoding {
            primaries: crate::metadata::Primaries::from_display(&p),
            white_point: MDFType::CMV40(p.white_point),
            peak_brightness: 10000,
            minimum_brightness: 0,
            encoding: Encoding { encoding: EncodingEnum::Pq },
            color_space: ColorSpace { color_space: ColorSpaceEnum::Rgb },
            signal_range: SignalRange { signal_range: SignalRangeEnum::Computer },
        }
    }
}

/// A display description as the document carries it.  The name is
/// derived on demand from the other fields.
#[derive(Clone, Copy, Debug, PartialEq, Eq, Structural)]
pub struct Characteristics {
    pub id: u64,
    pub primary_index: u64,
    pub primaries: crate::metadata::Primaries,
    pub white_point: MDFType<Chromaticity>,
    pub peak_brightness: u64,
    pub minimum_brightness_pq: u16,
    pub eotf: Encoding,
    pub diagonal_size: u64,
    pub application_type: Option<ApplicationType>,
}

/// The document display description for a decoded display.
pub open spec fn ch40_from_display_spec(d: display::Characteristics) -> Characteristics {
    Characteristics {
        id: d.id,
        primary_index: d.primary_index,
        primaries: crate::metadata::Primaries {
            red: MDFType::CMV40(d.primaries.red),
            green: MDFType::CMV40(d.primaries.green),
            blue: MDFType::CMV40(d.primaries.blue),
        },
        white_point: MDFType::CMV40(d.primaries.white_point),
        peak_brightness: d.peak_brightness,
        minimum_brightness_pq: d.minimum_brightness_pq,
        eotf: d.encoding,
        diagonal_size: d.diagonal_size,
        application_type: None,
    }
}

impl Characteristics {
    /// Converts a decoded display description into document form.
    pub fn from_display(d: &display::Characteristics) -> (r: Self)
        ensures
            r == ch40_from_display_spec(*d),
    {
        Characteristics {
            id: d.id,
            primary_index: d.primary_index,
            primaries: crate::metadata::Primaries::from_display(&d.primaries),
            white_point: MDFType::CMV40(d.primaries.white_point),
            peak_brightness: d.peak_brightness,
            minimum_brightness_pq: d.minimum_brightness_pq,
            eotf: d.encoding,
            diagonal_size: d.diagonal_size,
            application_type: None,
        }
    }

    /// The human-readable display name.
    pub fn display_name(&self) -> (r: String)
        ensures
            r@ == crate::display::display_name_spec(
                crate::display::Characteristics {
                    id: self.id,
                    primary_index: self.primary_index,
                    primaries: crate::display::primaries_row_spec(0),
                    peak_brightness: self.peak_brightness,
                    minimum_brightness_pq: self.minimum_brightness_pq,
                    encoding: self.eotf,
                    diagonal_size: self.diagonal_size,
                },
            ),
    {
        let stand_in = crate::display::Characteristics {
            id: self.id,
            primary_index: self.primary_index,
            primaries: crate::display::primaries_row(0),
            peak_brightness: self.peak_brightness,
            minimum_brightness_pq: self.minimum_brightness_pq,
            encoding: self.eotf,
            diagonal_size: self.diagonal_size,
        };
        stand_in.display_name()
    }
}

/// The single metadata track of the document.
#[derive(Clone, Debug)]
pub struct Track {
    pub track_name: String,
    pub unique_id: UUIDv4,
    pub edit_rate: MDFType<EditRate>,
    pub color_encoding: ColorEncoding,
    pub level6: Option<Level6>,
    pub plugin_node: TrackPluginNode,
    pub shots: Option<Vec<Shot>>,
}

/// Whether a track's global data was taken from the given frame: the
/// first valid frame seeds level 6, the content-type and version-marker
/// blocks, and the mastering display.
pub open spec fn track_matches_frame(t: Track, fd: FrameData) -> bool {
    &&& t.track_name@ == "V1"@
    &&& t.edit_rate == MDFType::CMV40(EditRate { n: 24000, d: 1001 })
    &&& color_encoding_default_spec(t.color_encoding)
    &&& t.level6 == (match fd.level6 {
        Some(b) => Some(level6_from_block_spec(b)),
        None => None::<Level6>,
    })
    &&& t.plugin_node.dv_global_data.level == 0
    &&& t.plugin_node.dv_global_data.mastering_display == ch40_from_display_spec(
        source_or_default_spec(fd),
    )
    &&& t.plugin_node.dv_global_data.target_displays is None
    &&& t.plugin_node.level11 == (match fd.level11 {
        Some(b) => Some(level11_from_block_spec(b)),
        None => None::<Level11>,
    })
    &&& (t.plugin_node.level254 is Some <==> fd.level254 is Some)
    &&& (t.plugin_node.level254 matches Some(l) ==> (fd.level254 matches Some(b) && l.level == 254
        && l.dm_mode == b.dm_mode && l.dm_version == b.dm_version_index && l.cm_version@ == "4 1"@))
    &&& t.shots is None
}

impl Track {
    /// Seeds the track from the first valid frame.
    pub fn with_single_vdr(fd: &FrameData) -> (r: Self)
        requires
            frame_wf(*fd),
        ensures
            track_matches_frame(r, *fd),
    {
        let level6 = match &fd.level6 {
            Some(b) => Some(Level6::from_block(b)),
            None => None,
        };
        let level11 = match &fd.level11 {
            Some(b) => Some(Level11::from_block(b)),
            None => None,
        };
        let level254 = match &fd.level254 {
            Some(b) => Some(Level254::from_block(b)),
            None => None,
        };
        let mastering = display::Characteristics::get_source_or_default(fd);
        let mut track_name = String::new();
        track_name.append("V1");
        proof {
            assert(track_name@ =~= "V1"@);
        }
        Track {
            track_name,
            unique_id: UUIDv4::new(),
            edit_rate: MDFType::CMV40(EditRate::default_value()),
            color_encoding: ColorEncoding::default_value(),
            level6,
            plugin_node: TrackPluginNode {
                dv_global_data: DVGlobalData {
                    level: 0,
                    mastering_display: Characteristics::from_display(&mastering),
                    target_displays: None,
                },
                level11,
                level254,
            },
            shots: None,
        }
    }
}

/// The video node: the track list.
#[derive(Clone, Debug)]
pub struct Video {
    pub tracks: Vec<Track>,
}

/// One output of the document.
#[derive(Clone, Debug)]
pub struct Output {
    pub composition_name: String,
    pub unique_id: UUIDv4,
    pub number_video_tracks: u64,
    pub canvas_aspect_ratio_bits: u32,
    pub image_aspect_ratio_bits: u32,
    pub video: Video,
}

impl Output {
    /// Wraps the finished track in an output node, taking the canvas and
    /// image aspect ratios from the chosen track-level aspect ratio.
    pub fn with_level5(track: Track, level5: &Option<Level5>) -> (r: Self)
        ensures
            r.composition_name@ == "Timeline"@,
            r.number_video_tracks == 1,
            r.video.tracks@.len() == 1,
            r.video.tracks@[0] == track,
            match level5 {
                Some(l5) => r.canvas_aspect_ratio_bits == mdf_inner_spec(
                    l5.aspect_ratio,
                ).canvas_ar_bits && r.image_aspect_ratio_bits == mdf_inner_spec(
                    l5.aspect_ratio,
                ).image_ar_bits,
                None => r.canvas_aspect_ratio_bits == UHD_AR_BITS && r.image_aspect_ratio_bits
                    == UHD_AR_BITS,
            },
    {
        let (canvas_bits, image_bits): (u32, u32) = match level5 {
            Some(l5) => l5.get_ar(),
            None => (UHD_AR_BITS, UHD_AR_BITS),
        };
        let mut composition_name = String::new();
        composition_name.append("Timeline");
        proof {
            assert(composition_name@ =~= "Timeline"@);
        }
        let mut tracks: Vec<Track> = Vec::new();
        tracks.push(track);
        Output {
            composition_name,
            unique_id: UUIDv4::new(),
            number_video_tracks: 1,
            canvas_aspect_ratio_bits: canvas_bits,
            image_aspect_ratio_bits: image_bits,
            video: Video { tracks },
        }
    }
}

/// The outputs node.
#[derive(Clone, Debug)]
pub struct Outputs {
    pub outputs: Vec<Output>,
}

/// The document root of the current dialect.
#[derive(Clone, Debug)]
pub struct DolbyLabsMDF {
    pub xmlns: String,
    pub version: Version,
    pub revision_history: Option<RevisionHistory>,
    pub outputs: Outputs,
}

impl DolbyLabsMDF {
    /// Wraps one output into a document.  The schema version depends on
    /// whether the track carries a content-type block; from one version
    /// past the least current-dialect version, every display receives an
    /// explicit application scope (masters all, targets home).
    #[verifier::loop_isolation(false)]
    pub fn with_single_output(output: Output) -> (r: Result<Self, crate::ConvertError>)
        ensures
            output.video.tracks@.len() == 0 ==> (r matches Err(e) && e
                == crate::ConvertError::NoTrack),
            output.video.tracks@.len() > 0 ==> (r matches Ok(doc) && {
                let has11 = output.video.tracks@[0].plugin_node.level11 is Some;
                let keep = {
                    &&& doc.outputs.outputs@[0].canvas_aspect_ratio_bits
                        == output.canvas_aspect_ratio_bits
                    &&& doc.outputs.outputs@[0].image_aspect_ratio_bits
                        == output.image_aspect_ratio_bits
                    &&& doc.outputs.outputs@[0].composition_name == output.composition_name
                    &&& doc.outputs.outputs@[0].number_video_tracks == output.number_video_tracks
                };
                let version = version_of_spec(
                    if has11 {
                        XMLVersion::V510
                    } else {
                        XMLVersion::V402
                    },
                );
                &&& keep
                &&& doc.version == version
                &&& doc.xmlns@ == crate::metadata::dolby_xmlns_spec(version)
                &&& (doc.revision_history matches Some(h) && h.revisions matches Some(rv)
                    && rv@.len() == 1)
                &&& doc.outputs.outputs@.len() == 1
                &&& doc.outputs.outputs@[0].video.tracks@.len() == output.video.tracks@.len()
                &&& {
                    let t_old = output.video.tracks@[0];
                    let t_new = doc.outputs.outputs@[0].video.tracks@[0];
                    if version_above_min_cmv40_spec(version) {
                        &&& t_new.plugin_node.dv_global_data.mastering_display.application_type
                            == Some(
                            ApplicationType { application_type: ApplicationTypeEnum::All },
                        )
                        &&& t_new.plugin_node.dv_global_data.mastering_display == (Characteristics {
                            application_type: Some(
                                ApplicationType { application_type: ApplicationTypeEnum::All },
                            ),
                            ..t_old.plugin_node.dv_global_data.mastering_display
                        })
                        &&& (match (
                            t_old.plugin_node.dv_global_data.target_displays,
                            t_new.plugin_node.dv_global_data.target_displays,
                        ) {
                            (Option::Some(ds_old), Option::Some(ds_new)) => ds_new@.len()
                                == ds_old@.len() && forall|i: int|
                                0 <= i < ds_new@.len() ==> #[trigger] ds_new@[i]
                                    == (Characteristics {
                                    application_type: Some(
                                        ApplicationType {
                                            application_type: ApplicationTypeEnum::Home,
                                        },
                                    ),
                                    ..ds_old@[i]
                                }),
                            (Option::None, Option::None) => true,
                            _ => false,
                        })
                        &&& t_new.shots == t_old.shots
                        &&& t_new.level6 == t_old.level6
                        &&& t_new.plugin_node.level11 == t_old.plugin_node.level11
                        &&& t_new.edit_rate == t_old.edit_rate
                    } else {
                        t_new == t_old
                    }
                }
            }),
    {
        let mut output = output;
        if output.video.tracks.len() == 0 {
            return Err(crate::ConvertError::NoTrack);
        }
        let has_level11 = output.video.tracks[0].plugin_node.level11.is_some();
        let version = Version::from_xml_version(
            if has_level11 {
                XMLVersion::V510
            } else {
                XMLVersion::V402
            },
        );
        if version.above_min_cmv40() {
            let ghost tracks0 = output.video.tracks@;
            let mut rest = output.video.tracks;
            let mut stamped: Vec<Track> = Vec::new();
            while rest.len() > 0
                invariant
                    stamped@.len() + rest@.len() == tracks0.len(),
                    forall|i: int|
                        0 <= i < rest@.len() ==> #[trigger] rest@[i] == tracks0[stamped@.len()
                            + i],
                    forall|i: int|
                        0 <= i < stamped@.len() ==> track_with_scopes(
                            tracks0[i],
                            #[trigger] stamped@[i],
                        ),
                decreases rest@.len(),
            {
                let tr = rest.remove(0);
                stamped.push(stamp_track(tr));
            }
            output.video.tracks = stamped;
        }
        Ok(
            DolbyLabsMDF {
                xmlns: version.get_dolby_xmlns(),
                version,
                revision_history: Some(RevisionHistory::new()),
                outputs: Outputs { outputs: {
                    let mut v: Vec<Output> = Vec::new();
                    v.push(output);
                    v
                } },
            },
        )
    }
}

/// Stamps the application scopes on a track's displays: the mastering
/// display is scoped to all applications, each target display to home.
#[verifier::loop_isolation(false)]
fn stamp_track(tr: Track) -> (r: Track)
    ensures
        track_with_scopes(tr, r),
{
    let Track { track_name, unique_id, edit_rate, color_encoding, level6, plugin_node, shots } = tr;
    let TrackPluginNode { dv_global_data, level11, level254 } = plugin_node;
    let DVGlobalData { level, mastering_display, target_displays } = dv_global_data;
    let mut mastering_display = mastering_display;
    mastering_display.application_type = Some(
        ApplicationType { application_type: ApplicationTypeEnum::All },
    );
    let target_displays = match target_displays {
        Some(ds) => {
            let mut out: Vec<Characteristics> = Vec::new();
            let mut k: usize = 0;
            while k < ds.len()
                invariant
                    k <= ds@.len(),
                    out@.len() == k,
                    forall|i: int|
                        0 <= i < k ==> #[trigger] out@[i] == (Characteristics {
                            application_type: Some(
                                ApplicationType { application_type: ApplicationTypeEnum::Home },
                            ),
                            ..ds@[i]
                        }),
                decreases ds@.len() - k,
            {
                let mut c = ds[k];
                c.application_type = Some(
                    ApplicationType { application_type: ApplicationTypeEnum::Home },
                );
                out.push(c);
                k = k + 1;
            }
            Some(out)
        },
        None => None,
    };
    Track {
        track_name,
        unique_id,
        edit_rate,
        color_encoding,
        level6,
        plugin_node: TrackPluginNode {
            dv_global_data: DVGlobalData { level, mastering_display, target_displays },
            level11,
            level254,
        },
        shots,
    }
}

/// The relation between a track before and after application scopes are
/// stamped on its displays.
pub open spec fn track_with_scopes(t_old: Track, t_new: Track) -> bool {
    &&& t_new.plugin_node.dv_global_data.mastering_display == (Characteristics {
        application_type: Some(ApplicationType { application_type: ApplicationTypeEnum::All }),
        ..t_old.plugin_node.dv_global_data.mastering_display
    })
    &&& (match (
        t_old.plugin_node.dv_global_data.target_displays,
        t_new.plugin_node.dv_global_data.target_displays,
    ) {
        (Option::Some(ds_old), Option::Some(ds_new)) => ds_new@.len() == ds_old@.len() && forall|
            i: int,
        |
            0 <= i < ds_new@.len() ==> #[trigger] ds_new@[i] == (Characteristics {
                application_type: Some(
                    ApplicationType { application_type: ApplicationTypeEnum::Home },
                ),
                ..ds_old@[i]
            }),
        (Option::None, Option::None) => true,
        _ => false,
    })
    &&& t_new.shots == t_old.shots
    &&& t_new.level6 == t_old.level6
    &&& t_new.plugin_node.level11 == t_old.plugin_node.level11
    &&& t_new.plugin_node.level254 == t_old.plugin_node.level254
    &&& t_new.edit_rate == t_old.edit_rate
    &&& t_new.track_name == t_old.track_name
    &&& t_new.unique_id == t_old.unique_id
    &&& t_new.color_encoding == t_old.color_encoding
    &&& t_new.plugin_node.dv_global_data.level == t_old.plugin_node.dv_global_data.level
}


/// The placeholder display description of a track that never saw a
/// valid frame (all zeros, current-dialect tags).
pub open spec fn ch40_placeholder_spec() -> Characteristics {
    Characteristics {
        id: 0,
        primary_index: 0,
        primaries: crate::metadata::Primaries {
            red: MDFType::CMV40(Chromaticity { x_bits: 0, y_bits: 0 }),
            green: MDFType::CMV40(Chromaticity { x_bits: 0, y_bits: 0 }),
            blue: MDFType::CMV40(Chromaticity { x_bits: 0, y_bits: 0 }),
        },
        white_point: MDFType::CMV40(Chromaticity { x_bits: 0, y_bits: 0 }),
        peak_brightness: 0,
        minimum_brightness_pq: 0,
        eotf: Encoding { encoding: EncodingEnum::Pq },
        diagonal_size: 0,
        application_type: None,
    }
}

impl Track {
    /// The placeholder track of a conversion that never saw a valid
    /// frame: empty name, nil identifier, default edit rate and color
    /// encoding, no blocks.
    pub fn default_value() -> (r: Self)
        ensures
            r.track_name@ == Seq::<char>::empty(),
            r.edit_rate == MDFType::CMV40(EditRate { n: 24000, d: 1001 }),
            crate::cmv40::color_encoding_default_spec(r.color_encoding),
            r.level6 is None,
            r.plugin_node.dv_global_data.level == 0,
            r.plugin_node.dv_global_data.mastering_display == ch40_placeholder_spec(),
            r.plugin_node.dv_global_data.target_displays is None,
            r.plugin_node.level11 is None,
            r.plugin_node.level254 is None,
            r.shots is None,
    {
        Track {
            track_name: String::new(),
            unique_id: UUIDv4::default(),
            edit_rate: MDFType::CMV40(EditRate::default_value()),
            color_encoding: ColorEncoding::default_value(),
            level6: None,
            plugin_node: TrackPluginNode {
                dv_global_data: DVGlobalData {
                    level: 0,
                    mastering_display: Characteristics {
                        id: 0,
                        primary_index: 0,
                        primaries: crate::metadata::Primaries {
                            red: MDFType::CMV40(Chromaticity { x_bits: 0, y_bits: 0 }),
                            green: MDFType::CMV40(Chromaticity { x_bits: 0, y_bits: 0 }),
                            blue: MDFType::CMV40(Chromaticity { x_bits: 0, y_bits: 0 }),
                        },
                        white_point: MDFType::CMV40(Chromaticity { x_bits: 0, y_bits: 0 }),
                        peak_brightness: 0,
                        minimum_brightness_pq: 0,
                        eotf: Encoding { encoding: EncodingEnum::Pq },
                        diagonal_size: 0,
                        application_type: None,
                    },
                    target_displays: None,
                },
                level11: None,
                level254: None,
            },
            shots: None,
        }
    }
}

/// Orders a list of display descriptions by identifier (insertion sort);
/// distinct identifiers stay distinct and no description is gained or
/// lost.
#[verifier::loop_isolation(false)]
pub fn sort_characteristics_by_id(v: Vec<Characteristics>) -> (r: Vec<Characteristics>)
    requires
        forall|a: int, b: int|
            0 <= a < b < v@.len() ==> (#[trigger] v@[a]).id != (#[trigger] v@[b]).id,
    ensures
        r@.len() == v@.len(),
        forall|a: int, b: int|
            0 <= a <= b < r@.len() ==> (#[trigger] r@[a]).id <= (#[trigger] r@[b]).id,
        forall|a: int| 0 <= a < r@.len() ==> v@.contains(#[trigger] r@[a]),
        forall|a: int| 0 <= a < v@.len() ==> r@.contains(#[trigger] v@[a]),
        forall|a: int, b: int|
            0 <= a < b < r@.len() ==> (#[trigger] r@[a]).id != (#[trigger] r@[b]).id,
{
    let mut sorted: Vec<Characteristics> = Vec::new();
    let mut p: usize = 0;
    while p < v.len()
        invariant
            p <= v@.len(),
            sorted@.len() == p,
            forall|a: int, b: int|
                0 <= a <= b < sorted@.len() ==> (#[trigger] sorted@[a]).id
                    <= (#[trigger] sorted@[b]).id,
            forall|w: int|
                0 <= w < sorted@.len() ==> exists|q: int|
                    0 <= q < p && v@[q] == #[trigger] sorted@[w],
            forall|a: int| 0 <= a < p ==> sorted@.contains(#[trigger] v@[a]),
            forall|a: int, b: int|
                0 <= a < b < sorted@.len() ==> (#[trigger] sorted@[a]).id
                    != (#[trigger] sorted@[b]).id,
        decreases v@.len() - p,
    {
        let cand = v[p];
        let mut pos: usize = 0;
        while pos < sorted.len() && sorted[pos].id <= cand.id
            invariant
                pos <= sorted@.len(),
                forall|a: int| 0 <= a < pos ==> (#[trigger] sorted@[a]).id <= cand.id,
            decreases sorted@.len() - pos,
        {
            pos = pos + 1;
        }
        let ghost before = sorted@;
        sorted.insert(pos, cand);
        proof {
            assert(sorted@.len() == before.len() + 1);
            assert(forall|w: int| 0 <= w < pos ==> #[trigger] sorted@[w] == before[w]);
            assert(sorted@[pos as int] == cand);
            assert(forall|w: int|
                pos < w < sorted@.len() ==> #[trigger] sorted@[w] == before[w - 1]);
            assert forall|a: int, b: int| 0 <= a <= b < sorted@.len() implies (
            #[trigger] sorted@[a]).id <= (#[trigger] sorted@[b]).id by {
                if a == pos && b > pos {
                    assert(pos < before.len());
                    assert(cand.id < before[pos as int].id);
                    assert(before[pos as int].id <= before[b - 1].id);
                } else if b == pos && a < pos {
                    assert(before[a].id <= cand.id);
                }
            }
            assert forall|w: int| 0 <= w < sorted@.len() implies exists|q: int|
                0 <= q < p + 1 && v@[q] == #[trigger] sorted@[w] by {
                if w == pos {
                    assert(v@[p as int] == sorted@[w]);
                } else {
                    let w0 = if w < pos {
                        w
                    } else {
                        w - 1
                    };
                    assert(before[w0] == sorted@[w]);
                    let q = choose|q: int| 0 <= q < p && v@[q] == before[w0];
                    assert(v@[q] == sorted@[w]);
                }
            }
            assert forall|a: int| 0 <= a < p + 1 implies sorted@.contains(#[trigger] v@[a]) by {
                if a == p {
                    assert(sorted@[pos as int] == v@[a]);
                } else {
                    let w = choose|w: int| 0 <= w < before.len() && before[w] == v@[a];
                    if w < pos {
                        assert(sorted@[w] == v@[a]);
                    } else {
                        assert(sorted@[w + 1] == v@[a]);
                    }
                }
            }
            assert forall|w: int| 0 <= w < before.len() implies (#[trigger] before[w]).id
                != cand.id by {
                let q = choose|q: int| 0 <= q < p && v@[q] == before[w];
            }
            assert forall|a: int, b: int| 0 <= a < b < sorted@.len() implies (
            #[trigger] sorted@[a]).id != (#[trigger] sorted@[b]).id by {
                if a == pos {
                    assert(sorted@[b] == before[b - 1]);
                } else if b == pos {
                    assert(sorted@[a] == before[a]);
                } else {
                    let a0 = if a < pos {
                        a
                    } else {
                        a - 1
                    };
                    let b0 = if b < pos {
                        b
                    } else {
                        b - 1
                    };
                    assert(sorted@[a] == before[a0] && sorted@[b] == before[b0]);
                }
            }
        }
        p = p + 1;
    }
    proof {
        assert forall|a: int| 0 <= a < sorted@.len() implies v@.contains(#[trigger] sorted@[a]) by {
            let q = choose|q: int| 0 <= q < v@.len() && v@[q] == sorted@[a];
        }
    }
    sorted
}

} // verus!
