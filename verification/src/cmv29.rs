//! The legacy-dialect document model and the structural mapping from the
//! current dialect: field renames, fixed bit-depth/color-space/range
//! fills, a freshly generated parent identifier shared by every shot,
//! and zero in-points on the per-shot source records (the legacy dialect
//! tracks no absolute source offsets, a known lossy step).
use vstd::prelude::*;

use crate::cmv40;
use crate::display::Chromaticity;
use crate::levels::Level1;
use crate::levels::Level2;
use crate::levels::Level5;
use crate::levels::Level6;
use crate::metadata::ColorSpace;
use crate::metadata::ColorSpaceEnum;
use crate::metadata::Encoding;
use crate::metadata::MDFType;
use crate::metadata::RevisionHistory;
use crate::metadata::SignalRange;
use crate::metadata::SignalRangeEnum;
use crate::metadata::UUIDv4;
use crate::metadata::Version;
use crate::metadata::XMLVersion;
use crate::metadata::is_cmv29;
use crate::metadata::mdf_inner_spec;
use crate::metadata::mdf_to_cmv29;
use crate::metadata::version_of_spec;

verus! {

/// The legacy rational edit rate.
#[derive(Clone, Copy, Debug, PartialEq, Eq, Structural)]
pub struct Rate {
    pub n: u64,
    pub d: u64,
}

/// The legacy algorithm-version pair.
#[derive(Clone, Copy, Debug, PartialEq, Eq, Structural)]
pub struct AlgorithmVersions {
    pub major: u64,
    pub minor: u64,
}

/// A legacy display description.
#[derive(Clone, Copy, Debug, PartialEq, Eq, Structural)]
pub struct CharacteristicsLegacy {
    pub level: u64,
    pub id: u64,
    pub primaries: crate::metadata::Primaries,
    pub white_point: MDFType<Chromaticity>,
    pub peak_brightness: u64,
    pub minimum_brightness_pq: u16,
    pub diagonal_size: u64,
    pub encoding: Encoding,
    pub bit_depth: u64,
    pub color_space: ColorSpace,
    pub signal_range: SignalRange,
}

/// The legacy display description of a current-dialect one: same
/// identity and brightness, legacy-tagged coordinates, and the fixed
/// 16-bit RGB full-range fill the legacy dialect requires.
pub open spec fn legacy_of_ch40(d: cmv40::Characteristics) -> CharacteristicsLegacy {
    CharacteristicsLegacy {
        level: 0,
        id: d.id,
        primaries: crate::metadata::Primaries {
            red: MDFType::CMV29(mdf_inner_spec(d.primaries.red)),
            green: MDFType::CMV29(mdf_inner_spec(d.primaries.green)),
            blue: MDFType::CMV29(mdf_inner_spec(d.primaries.blue)),
        },
        white_point: MDFType::CMV29(mdf_inner_spec(d.white_point)),
        peak_brightness: d.peak_brightness,
        minimum_brightness_pq: d.minimum_brightness_pq,
        diagonal_size: d.diagonal_size,
        encoding: d.eotf,
        bit_depth: 16,
        color_space: ColorSpace { color_space: ColorSpaceEnum::Rgb },
        signal_range: SignalRange { signal_range: SignalRangeEnum::Computer },
    }
}

/// Converts a current-dialect display description to legacy form.
pub fn ch40_into_cmv29(d: &cmv40::Characteristics) -> (r: CharacteristicsLegacy)
    ensures
        r == legacy_of_ch40(*d),
{
    CharacteristicsLegacy {
        level: 0,
        id: d.id,
        primaries: d.primaries.into_cmv29(),
        white_point: mdf_to_cmv29(d.white_point),
        peak_brightness: d.peak_brightness,
        minimum_brightness_pq: d.minimum_brightness_pq,
        diagonal_size: d.diagonal_size,
        encoding: d.eotf,
        bit_depth: 16,
        color_space: ColorSpace { color_space: ColorSpaceEnum::Rgb },
        signal_range: SignalRange { signal_range: SignalRangeEnum::Computer },
    }
}

/// The legacy display node of a track.
#[derive(Clone, Debug)]
pub struct Characteristics {
    pub level: u64,
    pub mastering_display: CharacteristicsLegacy,
    pub target_displays: Option<Vec<CharacteristicsLegacy>>,
}

/// The legacy track plugin node.
#[derive(Clone, Debug)]
pub struct TrackDolbyEDR {
    pub algorithm_versions: MDFType<AlgorithmVersions>,
    pub characteristics: Characteristics,
}

/// The legacy track plugin wrapper.
#[derive(Clone, Debug)]
pub struct TrackPluginNode {
    pub dolby_edr: TrackDolbyEDR,
}

/// The legacy track color encoding.
#[derive(Clone, Debug)]
pub struct ColorEncoding {
    pub primaries: crate::metadata::Primaries,
    pub white_point: MDFType<Chromaticity>,
    pub peak_brightness: u64,
    pub minimum_brightness: u64,
    pub encoding: Encoding,
    pub bit_depth: u64,
    pub color_space: ColorSpace,
    pub chroma_format: String,
    pub signal_range: SignalRange,
}

/// The legacy shot source link.
#[derive(Clone, Debug)]
pub struct ShotSource {
    pub parent_id: UUIDv4,
    pub in_: usize,
}

/// The legacy shot record.
#[derive(Clone, Copy, Debug, PartialEq, Eq, Structural)]
pub struct Record {
    pub in_: usize,
    pub duration: usize,
}

/// The legacy per-shot plugin node: levels 1, 2 and 5 only.
#[derive(Clone, Debug)]
pub struct ShotPluginNode {
    pub level1: Level1,
    pub level2: Option<Vec<Level2>>,
    pub level5: Option<Level5>,
}

/// One legacy per-frame override.
#[derive(Clone, Debug)]
pub struct Frame {
    pub unique_id: UUIDv4,
    pub edit_offset: usize,
    pub plugin_node: ShotPluginNode,
}

/// A legacy shot.
#[derive(Clone, Debug)]
pub struct Shot {
    pub unique_id: UUIDv4,
    pub source: ShotSource,
    pub record: Record,
    pub plugin_node: ShotPluginNode,
    pub frames: Option<Vec<Frame>>,
}

/// A legacy track.
#[derive(Clone, Debug)]
pub struct Track {
    pub name: String,
    pub unique_id: UUIDv4,
    pub rate: Rate,
    pub color_encoding: ColorEncoding,
    pub level6: Option<Level6>,
    pub plugin_node: TrackPluginNode,
    pub shots: Option<Vec<Shot>>,
}

/// The legacy video node.
#[derive(Clone, Debug)]
pub struct Video {
    pub tracks: Vec<Track>,
}

/// A legacy output.
#[derive(Clone, Debug)]
pub struct Output {
    pub name: String,
    pub unique_id: UUIDv4,
    pub number_video_tracks: u64,
    pub number_audio_tracks: u64,
    pub canvas_aspect_ratio_bits: u32,
    pub image_aspect_ratio_bits: u32,
    pub video: Video,
}

/// The legacy outputs node.
#[derive(Clone, Debug)]
pub struct Outputs {
    pub outputs: Option<Vec<Output>>,
}

/// One legacy source entry.
#[derive(Clone, Debug)]
pub struct Source {
    pub type_: String,
    pub unique_id: UUIDv4,
    pub in_: usize,
    pub duration: usize,
}

/// The legacy source list.
#[derive(Clone, Debug)]
pub struct SourceList {
    pub sources: Option<Vec<Source>>,
}

/// The legacy document root.
#[derive(Clone, Debug)]
pub struct DolbyLabsMDF {
    pub version: Version,
    pub xmlns_xsd: String,
    pub xmlns_xsi: String,
    pub source_list: Option<SourceList>,
    pub revision_history: Option<RevisionHistory>,
    pub outputs: Option<Outputs>,
}

/// How a legacy per-shot plugin node relates to the dynamic data it was
/// converted from: levels 1, 2 and 5 carried over under legacy tags,
/// everything else dropped.
pub open spec fn spn29_of_dd(dd: cmv40::DVDynamicData, spn: ShotPluginNode) -> bool {
    &&& spn.level1.level == 1
    &&& mdf_inner_spec(spn.level1.image_character) == mdf_inner_spec(dd.level1.image_character)
    &&& is_cmv29(spn.level1.image_character)
    &&& (dd.level2 is Some <==> spn.level2 is Some)
    &&& (dd.level2 matches Some(v40) ==> (spn.level2 matches Some(v29) && v29@.len() == v40@.len()
        && (forall|i: int|
        0 <= i < v29@.len() ==> {
            &&& (#[trigger] v29@[i]).level == 2
            &&& v29@[i].tid == v40@[i].tid
            &&& mdf_inner_spec(v29@[i].trim) == mdf_inner_spec(v40@[i].trim)
            &&& is_cmv29(v29@[i].trim)
        })))
    &&& (dd.level5 is Some <==> spn.level5 is Some)
    &&& (dd.level5 matches Some(l5) ==> (spn.level5 matches Some(l29) && l29.level == 5
        && mdf_inner_spec(l29.aspect_ratio) == mdf_inner_spec(l5.aspect_ratio) && is_cmv29(
        l29.aspect_ratio,
    )))
}

/// Converts dynamic data to the legacy per-shot plugin node.
#[verifier::loop_isolation(false)]
pub fn dd_into_cmv29(dd: &cmv40::DVDynamicData) -> (r: ShotPluginNode)
    ensures
        spn29_of_dd(*dd, r),
{
    let level1 = Level1 { level: 1, image_character: mdf_to_cmv29(dd.level1.image_character) };
    let level2 = match &dd.level2 {
        None => None,
        Some(v40) => {
            let mut v29: Vec<Level2> = Vec::new();
            let mut i: usize = 0;
            while i < v40.len()
                invariant
                    i <= v40@.len(),
                    v29@.len() == i,
                    forall|j: int|
                        0 <= j < i ==> {
                            &&& (#[trigger] v29@[j]).level == 2
                            &&& v29@[j].tid == v40@[j].tid
                            &&& mdf_inner_spec(v29@[j].trim) == mdf_inner_spec(v40@[j].trim)
                            &&& is_cmv29(v29@[j].trim)
                        },
                decreases v40@.len() - i,
            {
                let t = &v40[i];
                v29.push(Level2 { level: 2, tid: t.tid, trim: mdf_to_cmv29(t.trim) });
                i = i + 1;
            }
            Some(v29)
        },
    };
    let level5 = match &dd.level5 {
        None => None,
        Some(l5) => Some(
            Level5 { level: 5, aspect_ratio: mdf_to_cmv29(l5.aspect_ratio) },
        ),
    };
    ShotPluginNode { level1, level2, level5 }
}

/// How a legacy shot relates to its current-dialect original: identity
/// and record kept, the source in-point fixed at zero (lossy), levels
/// reduced to the legacy plugin node, overrides carried over with fresh
/// identifiers.
pub open spec fn shot29_of(s40: cmv40::Shot, s29: Shot) -> bool {
    &&& s29.unique_id == s40.unique_id
    &&& s29.record == (Record { in_: s40.record.in_, duration: s40.record.duration })
    &&& s29.source.in_ == 0
    &&& spn29_of_dd(s40.plugin_node.dv_dynamic_data, s29.plugin_node)
    &&& (s40.frames is Some <==> s29.frames is Some)
    &&& (s40.frames matches Some(f40) ==> (s29.frames matches Some(f29) && f29@.len()
        == f40@.len() && (forall|i: int|
        0 <= i < f29@.len() ==> {
            &&& (#[trigger] f29@[i]).edit_offset == f40@[i].edit_offset
            &&& spn29_of_dd(f40@[i].plugin_node.dv_dynamic_data, f29@[i].plugin_node)
        })))
}

/// Converts a shot to legacy form.
#[verifier::loop_isolation(false)]
pub fn shot_into_cmv29(s: cmv40::Shot) -> (r: Shot)
    ensures
        shot29_of(s, r),
{
    let cmv40::Shot { unique_id, record, plugin_node, frames } = s;
    let new_frames = match frames {
        None => None,
        Some(fv) => {
            let ghost fv0 = fv@;
            let mut rest = fv;
            let mut out: Vec<Frame> = Vec::new();
            while rest.len() > 0
                invariant
                    out@.len() + rest@.len() == fv0.len(),
                    forall|j: int|
                        0 <= j < rest@.len() ==> #[trigger] rest@[j] == fv0[out@.len() + j],
                    forall|j: int|
                        0 <= j < out@.len() ==> {
                            &&& (#[trigger] out@[j]).edit_offset == fv0[j].edit_offset
                            &&& spn29_of_dd(
                                fv0[j].plugin_node.dv_dynamic_data,
                                out@[j].plugin_node,
                            )
                        },
                decreases rest@.len(),
            {
                let f = rest.remove(0);
                let converted = dd_into_cmv29(&f.plugin_node.dv_dynamic_data);
                out.push(
                    Frame {
                        unique_id: UUIDv4::new(),
                        edit_offset: f.edit_offset,
                        plugin_node: converted,
                    },
                );
            }
            Some(out)
        },
    };
    Shot {
        unique_id,
        source: ShotSource { parent_id: UUIDv4::default(), in_: 0 },
        record: Record { in_: record.in_, duration: record.duration },
        plugin_node: dd_into_cmv29(&plugin_node.dv_dynamic_data),
        frames: new_frames,
    }
}

/// How a legacy track relates to its current-dialect original: identity
/// and rate carried over, the color encoding re-tagged legacy with the
/// fixed 16-bit 4:4:4 full-range fill, the plugin node degraded to the
/// legacy display block (algorithm versions 2.1), and every shot
/// converted in place.  The per-shot source parent identifier is not
/// constrained here: the enclosing output stamps it.
pub open spec fn track29_of(t: cmv40::Track, r: Track) -> bool {
    &&& r.name == t.track_name
    &&& r.unique_id == t.unique_id
    &&& r.rate == (Rate { n: mdf_inner_spec(t.edit_rate).n, d: mdf_inner_spec(t.edit_rate).d })
    &&& mdf_inner_spec(r.color_encoding.primaries.red) == mdf_inner_spec(
        t.color_encoding.primaries.red,
    )
    &&& mdf_inner_spec(r.color_encoding.primaries.green) == mdf_inner_spec(
        t.color_encoding.primaries.green,
    )
    &&& mdf_inner_spec(r.color_encoding.primaries.blue) == mdf_inner_spec(
        t.color_encoding.primaries.blue,
    )
    &&& is_cmv29(r.color_encoding.primaries.red)
    &&& is_cmv29(r.color_encoding.primaries.green)
    &&& is_cmv29(r.color_encoding.primaries.blue)
    &&& mdf_inner_spec(r.color_encoding.white_point) == mdf_inner_spec(
        t.color_encoding.white_point,
    )
    &&& is_cmv29(r.color_encoding.white_point)
    &&& r.color_encoding.peak_brightness == t.color_encoding.peak_brightness
    &&& r.color_encoding.minimum_brightness == t.color_encoding.minimum_brightness
    &&& r.color_encoding.encoding == t.color_encoding.encoding
    &&& r.color_encoding.bit_depth == 16
    &&& r.color_encoding.color_space == t.color_encoding.color_space
    &&& r.color_encoding.chroma_format@ == "444"@
    &&& r.color_encoding.signal_range == (SignalRange {
        signal_range: SignalRangeEnum::Computer,
    })
    &&& r.plugin_node.dolby_edr.algorithm_versions == MDFType::CMV29(
        AlgorithmVersions { major: 2, minor: 1 },
    )
    &&& r.plugin_node.dolby_edr.characteristics.level == 0
    &&& r.plugin_node.dolby_edr.characteristics.mastering_display == legacy_of_ch40(
        t.plugin_node.dv_global_data.mastering_display,
    )
    &&& (t.plugin_node.dv_global_data.target_displays is Some
        <==> r.plugin_node.dolby_edr.characteristics.target_displays is Some)
    &&& (t.plugin_node.dv_global_data.target_displays matches Some(ds40) ==> (
    r.plugin_node.dolby_edr.characteristics.target_displays matches Some(ds29) && ds29@.len()
        == ds40@.len() && (forall|i: int|
        0 <= i < ds29@.len() ==> #[trigger] ds29@[i] == legacy_of_ch40(ds40@[i]))))
    &&& r.level6 == t.level6
    &&& (t.shots is Some <==> r.shots is Some)
    &&& (t.shots matches Some(s40) ==> (r.shots matches Some(s29) && s29@.len() == s40@.len() && (
    forall|i: int| 0 <= i < s29@.len() ==> shot29_of(s40@[i], #[trigger] s29@[i]))))
}

/// Converts a track to legacy form.
#[verifier::loop_isolation(false)]
pub fn track_into_cmv29(t: cmv40::Track) -> (r: Track)
    ensures
        track29_of(t, r),
{
    let cmv40::Track {
        track_name,
        unique_id,
        edit_rate,
        color_encoding,
        level6,
        plugin_node,
        shots,
    } = t;
    let rate_inner = edit_rate.into_inner();
    let mut chroma_format = String::new();
    chroma_format.append("444");
    proof {
        assert(chroma_format@ =~= "444"@);
    }
    let new_color_encoding = ColorEncoding {
        primaries: color_encoding.primaries.into_cmv29(),
        white_point: mdf_to_cmv29(color_encoding.white_point),
        peak_brightness: color_encoding.peak_brightness,
        minimum_brightness: color_encoding.minimum_brightness,
        encoding: color_encoding.encoding,
        bit_depth: 16,
        color_space: color_encoding.color_space,
        chroma_format,
        signal_range: SignalRange { signal_range: SignalRangeEnum::Computer },
    };
    let targets = match &plugin_node.dv_global_data.target_displays {
        None => None,
        Some(ds40) => {
            let mut ds29: Vec<CharacteristicsLegacy> = Vec::new();
            let mut i: usize = 0;
            while i < ds40.len()
                invariant
                    i <= ds40@.len(),
                    ds29@.len() == i,
                    forall|j: int|
                        0 <= j < i ==> #[trigger] ds29@[j] == legacy_of_ch40(ds40@[j]),
                decreases ds40@.len() - i,
            {
                ds29.push(ch40_into_cmv29(&ds40[i]));
                i = i + 1;
            }
            Some(ds29)
        },
    };
    let new_plugin_node = TrackPluginNode {
        dolby_edr: TrackDolbyEDR {
            algorithm_versions: MDFType::CMV29(AlgorithmVersions { major: 2, minor: 1 }),
            characteristics: Characteristics {
                level: 0,
                mastering_display: ch40_into_cmv29(
                    &plugin_node.dv_global_data.mastering_display,
                ),
                target_displays: targets,
            },
        },
    };
    let new_shots = match shots {
        None => None,
        Some(sv) => {
            let ghost sv0 = sv@;
            let mut rest = sv;
            let mut out: Vec<Shot> = Vec::new();
            while rest.len() > 0
                invariant
                    out@.len() + rest@.len() == sv0.len(),
                    forall|j: int|
                        0 <= j < rest@.len() ==> #[trigger] rest@[j] == sv0[out@.len() + j],
                    forall|j: int| 0 <= j < out@.len() ==> shot29_of(sv0[j], #[trigger] out@[j]),
                decreases rest@.len(),
            {
                let s = rest.remove(0);
                out.push(shot_into_cmv29(s));
            }
            Some(out)
        },
    };
    Track {
        name: track_name,
        unique_id,
        rate: Rate { n: rate_inner.n, d: rate_inner.d },
        color_encoding: new_color_encoding,
        level6,
        plugin_node: new_plugin_node,
        shots: new_shots,
    }
}

/// The last shot of an output's last track, if any.
pub open spec fn last_shot_of(o: Output) -> Option<Shot> {
    if o.video.tracks@.len() == 0 {
        None
    } else {
        match o.video.tracks@.last().shots {
            Some(shots) => if shots@.len() == 0 {
                None
            } else {
                Some(shots@.last())
            },
            None => None,
        }
    }
}

/// The shots the legacy source list draws from: for each output whose
/// last track holds a non-empty shot list, that track's last shot, in
/// output order.
pub open spec fn last_shots_spec(outputs: Seq<Output>) -> Seq<Shot>
    decreases outputs.len(),
{
    if outputs.len() == 0 {
        Seq::empty()
    } else {
        last_shots_spec(outputs.drop_last()) + (match last_shot_of(outputs.last()) {
            Some(s) => seq![s],
            None => Seq::empty(),
        })
    }
}

/// Builds the legacy source list: one video-typed source per output
/// whose last track holds a non-empty shot list, in output order, with a
/// zero in-point, the parent identifier that output's shots carry, and a
/// duration reaching the end of that last shot.
#[verifier::loop_isolation(false)]
pub fn get_source_list(outputs: &Vec<Output>) -> (r: Option<SourceList>)
    requires
        forall|i: int|
            0 <= i < outputs@.len() ==> (match last_shot_of(#[trigger] outputs@[i]) {
                Some(s) => s.record.in_ + s.record.duration <= usize::MAX,
                None => true,
            }),
    ensures
        r matches Some(sl) && sl.sources matches Some(sources) && {
            let ls = last_shots_spec(outputs@);
            &&& sources@.len() == ls.len()
            &&& forall|k: int|
                0 <= k < ls.len() ==> {
                    &&& (#[trigger] sources@[k]).in_ == 0
                    &&& sources@[k].type_@ == "Video"@
                    &&& sources@[k].duration == ls[k].record.in_ + ls[k].record.duration
                    &&& sources@[k].unique_id.0@ == ls[k].source.parent_id.0@
                }
        },
{
    let mut sources: Vec<Source> = Vec::new();
    let mut i: usize = 0;
    while i < outputs.len()
        invariant
            i <= outputs@.len(),
            ({
                let ls = last_shots_spec(outputs@.subrange(0, i as int));
                &&& sources@.len() == ls.len()
                &&& forall|k: int|
                    0 <= k < ls.len() ==> {
                        &&& (#[trigger] sources@[k]).in_ == 0
                        &&& sources@[k].type_@ == "Video"@
                        &&& sources@[k].duration == ls[k].record.in_ + ls[k].record.duration
                        &&& sources@[k].unique_id.0@ == ls[k].source.parent_id.0@
                    }
            }),
        decreases outputs@.len() - i,
    {
        proof {
            assert(outputs@.subrange(0, i + 1 as int).drop_last() =~= outputs@.subrange(
                0,
                i as int,
            ));
            assert(outputs@.subrange(0, i + 1 as int).last() == outputs@[i as int]);
        }
        let output = &outputs[i];
        if output.video.tracks.len() > 0 {
            let track = &output.video.tracks[output.video.tracks.len() - 1];
            match &track.shots {
                Some(shots) if shots.len() > 0 => {
                    let shot = &shots[shots.len() - 1];
                    proof {
                        assert(last_shot_of(outputs@[i as int]) == Some(*shot));
                    }
                    let mut type_ = String::new();
                    type_.append("Video");
                    proof {
                        assert(type_@ =~= "Video"@);
                    }
                    sources.push(
                        Source {
                            type_,
                            unique_id: UUIDv4(shot.source.parent_id.0.clone()),
                            in_: 0,
                            duration: shot.record.in_ + shot.record.duration,
                        },
                    );
                },
                _ => {
                    proof {
                        assert(last_shot_of(outputs@[i as int]) is None);
                    }
                },
            }
        } else {
            proof {
                assert(last_shot_of(outputs@[i as int]) is None);
            }
        }
        i = i + 1;
    }
    proof {
        assert(outputs@.subrange(0, outputs@.len() as int) =~= outputs@);
    }
    Some(SourceList { sources: Some(sources) })
}

/// Whether every shot of every track names `pid` as its source parent.
pub open spec fn shots_share_parent(tracks: Seq<Track>, pid: UUIDv4) -> bool {
    forall|t: int, k: int|
        0 <= t < tracks.len() && (#[trigger] tracks[t]).shots is Some && 0 <= k
            < tracks[t].shots->Some_0@.len() ==> (
        #[trigger] tracks[t].shots->Some_0@[k]).source.parent_id.0@ == pid.0@
}

/// How a legacy output relates to its current-dialect original: the
/// header fields carried (audio track count fixed at zero), each track
/// converted in place, and one fresh parent identifier shared by every
/// shot of every track.
pub open spec fn output29_of(o: cmv40::Output, r: Output) -> bool {
    &&& r.name == o.composition_name
    &&& r.unique_id == o.unique_id
    &&& r.number_video_tracks == o.number_video_tracks
    &&& r.number_audio_tracks == 0
    &&& r.canvas_aspect_ratio_bits == o.canvas_aspect_ratio_bits
    &&& r.image_aspect_ratio_bits == o.image_aspect_ratio_bits
    &&& r.video.tracks@.len() == o.video.tracks@.len()
    &&& (forall|t: int|
        0 <= t < r.video.tracks@.len() ==> track29_of(
            o.video.tracks@[t],
            #[trigger] r.video.tracks@[t],
        ))
    &&& (exists|pid: UUIDv4| #[trigger] shots_share_parent(r.video.tracks@, pid))
}

/// Converts an output to legacy form.
#[verifier::loop_isolation(false)]
pub fn output_into_cmv29(o: cmv40::Output) -> (r: Output)
    ensures
        output29_of(o, r),
{
    let cmv40::Output {
        composition_name,
        unique_id,
        number_video_tracks,
        canvas_aspect_ratio_bits,
        image_aspect_ratio_bits,
        video,
    } = o;
    let parent_id = UUIDv4::new();
    let ghost tracks0 = video.tracks@;
    let mut rest = video.tracks;
    let mut tracks: Vec<Track> = Vec::new();
    while rest.len() > 0
        invariant
            tracks@.len() + rest@.len() == tracks0.len(),
            forall|j: int| 0 <= j < rest@.len() ==> #[trigger] rest@[j] == tracks0[tracks@.len() + j],
            forall|t: int|
                0 <= t < tracks@.len() ==> track29_of(tracks0[t], #[trigger] tracks@[t]),
            shots_share_parent(tracks@, parent_id),
        decreases rest@.len(),
    {
        let ghost t40 = rest@[0];
        let t = rest.remove(0);
        let converted = track_into_cmv29(t);
        let Track { name, unique_id: tid, rate, color_encoding, level6, plugin_node, shots } =
            converted;
        let ghost shots_before = shots;
        let new_shots = match shots {
            None => None,
            Some(sv) => {
                let ghost sv0 = sv@;
                let mut srest = sv;
                let mut sout: Vec<Shot> = Vec::new();
                while srest.len() > 0
                    invariant
                        sout@.len() + srest@.len() == sv0.len(),
                        forall|k: int|
                            0 <= k < srest@.len() ==> #[trigger] srest@[k] == sv0[sout@.len() + k],
                        forall|k: int|
                            0 <= k < sout@.len() ==> {
                                let s0 = sv0[k];
                                let s1 = #[trigger] sout@[k];
                                &&& s1.unique_id == s0.unique_id
                                &&& s1.record == s0.record
                                &&& s1.source.in_ == s0.source.in_
                                &&& s1.plugin_node == s0.plugin_node
                                &&& s1.frames == s0.frames
                                &&& s1.source.parent_id.0@ == parent_id.0@
                            },
                    decreases srest@.len(),
                {
                    let mut s = srest.remove(0);
                    s.source.parent_id = UUIDv4(parent_id.0.clone());
                    sout.push(s);
                }
                Some(sout)
            },
        };
        proof {
            // Re-stamping the parent identifier touches nothing the
            // per-shot mapping speaks of.
            if t40.shots is Some {
                let s40 = t40.shots->Some_0;
                let sv0 = shots_before->Some_0;
                let nv = new_shots->Some_0;
                assert forall|k: int| 0 <= k < nv@.len() implies shot29_of(
                    s40@[k],
                    #[trigger] nv@[k],
                ) by {
                    assert(shot29_of(s40@[k], sv0@[k]));
                }
            }
        }
        tracks.push(
            Track { name, unique_id: tid, rate, color_encoding, level6, plugin_node, shots: new_shots },
        );
    }
    let result = Output {
        name: composition_name,
        unique_id,
        number_video_tracks,
        number_audio_tracks: 0,
        canvas_aspect_ratio_bits,
        image_aspect_ratio_bits,
        video: Video { tracks },
    };
    proof {
        assert(shots_share_parent(result.video.tracks@, parent_id));
    }
    result
}

/// The last shot of a current-dialect output's last track, if any.
pub open spec fn last_shot40_of(o: cmv40::Output) -> Option<cmv40::Shot> {
    if o.video.tracks@.len() == 0 {
        None
    } else {
        match o.video.tracks@.last().shots {
            Some(shots) => if shots@.len() == 0 {
                None
            } else {
                Some(shots@.last())
            },
            None => None,
        }
    }
}

impl DolbyLabsMDF {
    /// Converts a whole document to the legacy dialect: schema version
    /// 2.0.5, the legacy namespaces, each output converted in place, and
    /// the source list derived from the converted outputs (one video
    /// source per output with shots, spanning up to the end of its last
    /// shot, linked by that output's parent identifier).  The index
    /// bound on the last shots is a machine limit: the source duration
    /// is their in-point plus length.
    #[verifier::loop_isolation(false)]
    pub fn from_cmv40(doc: cmv40::DolbyLabsMDF) -> (r: Self)
        requires
            doc.outputs.outputs@.len() < usize::MAX,
            forall|i: int|
                0 <= i < doc.outputs.outputs@.len() ==> (match last_shot40_of(
                    #[trigger] doc.outputs.outputs@[i],
                ) {
                    Some(s) => s.record.in_ + s.record.duration <= usize::MAX,
                    None => true,
                }),
        ensures
            r.version == version_of_spec(XMLVersion::V205),
            r.xmlns_xsd@ == "http://www.w3.org/2001/XMLSchema"@,
            r.xmlns_xsi@ == "http://www.w3.org/2001/XMLSchema-instance"@,
            r.outputs matches Some(os) && os.outputs matches Some(ov) && {
                &&& ov@.len() == doc.outputs.outputs@.len()
                &&& (forall|i: int|
                    0 <= i < ov@.len() ==> output29_of(
                        doc.outputs.outputs@[i],
                        #[trigger] ov@[i],
                    ))
                &&& (r.source_list matches Some(sl) && sl.sources matches Some(sources) && {
                    let ls = last_shots_spec(ov@);
                    &&& sources@.len() == ls.len()
                    &&& (forall|k: int|
                        0 <= k < ls.len() ==> {
                            &&& (#[trigger] sources@[k]).in_ == 0
                            &&& sources@[k].type_@ == "Video"@
                            &&& sources@[k].duration == ls[k].record.in_ + ls[k].record.duration
                            &&& sources@[k].unique_id.0@ == ls[k].source.parent_id.0@
                        })
                })
            },
            r.revision_history == doc.revision_history,
    {
        let cmv40::DolbyLabsMDF { xmlns: _, version: _, revision_history, outputs } = doc;
        let ghost outs0 = outputs.outputs@;
        let mut rest = outputs.outputs;
        let mut converted: Vec<Output> = Vec::new();
        while rest.len() > 0
            invariant
                converted@.len() + rest@.len() == outs0.len(),
                forall|j: int| 0 <= j < rest@.len() ==> #[trigger] rest@[j] == outs0[converted@.len()
                    + j],
                forall|i: int|
                    0 <= i < converted@.len() ==> output29_of(
                        outs0[i],
                        #[trigger] converted@[i],
                    ),
                forall|i: int|
                    0 <= i < converted@.len() ==> (match last_shot_of(#[trigger] converted@[i]) {
                        Some(sh) => sh.record.in_ + sh.record.duration <= usize::MAX,
                        None => true,
                    }),
            decreases rest@.len(),
        {
            let ghost o40 = rest@[0];
            let o = rest.remove(0);
            let c = output_into_cmv29(o);
            proof {
                lemma_last_shot_carries(o40, c);
            }
            converted.push(c);
        }
        let source_list = get_source_list(&converted);
        let mut xmlns_xsd = String::new();
        xmlns_xsd.append("http://www.w3.org/2001/XMLSchema");
        let mut xmlns_xsi = String::new();
        xmlns_xsi.append("http://www.w3.org/2001/XMLSchema-instance");
        proof {
            assert(xmlns_xsd@ =~= "http://www.w3.org/2001/XMLSchema"@);
            assert(xmlns_xsi@ =~= "http://www.w3.org/2001/XMLSchema-instance"@);
        }
        DolbyLabsMDF {
            version: Version::from_xml_version(XMLVersion::V205),
            xmlns_xsd,
            xmlns_xsi,
            source_list,
            revision_history,
            outputs: Some(Outputs { outputs: Some(converted) }),
        }
    }
}

/// A converted output has a last shot exactly when its original does,
/// with the same record, so the source-list range bound carries over.
proof fn lemma_last_shot_carries(o40: cmv40::Output, r: Output)
    requires
        output29_of(o40, r),
    ensures
        last_shot_of(r) is Some <==> last_shot40_of(o40) is Some,
        last_shot_of(r) matches Some(s) ==> (last_shot40_of(o40) matches Some(s40) && s.record
            == (Record { in_: s40.record.in_, duration: s40.record.duration })),
{
    if r.video.tracks@.len() > 0 {
        let t = r.video.tracks@.len() - 1;
        assert(track29_of(o40.video.tracks@[t], r.video.tracks@[t]));
        let t40 = o40.video.tracks@[t];
        let t29 = r.video.tracks@[t];
        assert(o40.video.tracks@.last() == t40);
        assert(r.video.tracks@.last() == t29);
        match t29.shots {
            Some(s29) => {
                let s40 = t40.shots->Some_0;
                if s29@.len() > 0 {
                    assert(shot29_of(s40@[s40@.len() - 1], s29@[s29@.len() - 1]));
                }
            },
            None => {},
        }
    }
}

} // verus!
