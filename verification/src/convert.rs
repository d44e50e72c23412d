//! The conversion pipeline: folds the decoded frame stream into shots,
//! aggregates track-level statistics, and assembles the document.
//!
//! The fold is specified by an abstract model ([`fold_model`]): a pure
//! recursive function over the frame stream that yields, for every
//! prefix, the counters and the abstract shot list (anchor instant,
//! record placement, override trace).  The executable fold is proved to
//! realize that model, and the stream-independent laws (the records
//! partition the consumed range, override offsets grow strictly) are
//! proved of the model itself.
use vstd::prelude::*;

use crate::ConvertError;
use crate::cmv40::DVDynamicData;
use crate::cmv40::DolbyLabsMDF;
use crate::cmv40::EditRate;
use crate::cmv40::edit_rate_from_spec;
use crate::metadata::version_of_spec;
use crate::cmv40::Frame;
use crate::cmv40::Output;
use crate::cmv40::Shot;
use crate::cmv40::ShotPluginNode;
use crate::cmv40::Track;
use crate::cmv40::effective_ar_spec;
use crate::cmv40::eq_spn;
use crate::cmv40::l9_index_spec;
use crate::cmv40::spn_matches_frame;
use crate::cmv40::spn_same;
use crate::display::Characteristics;
use crate::levels::AspectRatio;
use crate::levels::Level1;
use crate::levels::Level2;
use crate::levels::Level3;
use crate::levels::Level5;
use crate::levels::Level8;
use crate::levels::Level9;
use crate::levels::Level11;
use crate::levels::Level254;
use crate::levels::ar_same;
use crate::levels::level1_default_spec;
use crate::levels::level1_from_block_spec;
use crate::levels::level2_from_block_spec;
use crate::levels::level3_from_block_spec;
use crate::levels::level5_from_ar_spec;
use crate::levels::level8_from_block_spec;
use crate::levels::level9_from_primaries_spec;
use crate::levels::level11_from_block_spec;
use crate::levels::opt_level5_same;
use crate::rpu::FrameData;
use crate::rpu::FrameRecord;
use crate::rpu::frame_wf;
use crate::rpu::records_wf;

verus! {

/// The arguments of the conversion pipeline, as the boundary hands them
/// over: the canvas size (width, height), the frame rate (numerator and
/// optional denominator), the policy flags, the windowing parameters,
/// and the canvas aspect ratio decoded from the size.
pub struct ConvertArgs {
    pub size: Vec<u64>,
    pub rate: Vec<u64>,
    pub use_level6: bool,
    pub drop_per_frame: bool,
    pub skip: usize,
    pub count: Option<usize>,
    pub keep_offset: bool,
    pub offset: usize,
    pub canvas_ar: AspectRatio,
}

/// The fold's configuration, as the model sees it.
pub ghost struct FoldCfg {
    pub skip: int,
    pub offset: int,
    pub keep_offset: bool,
    pub drop_per_frame: bool,
    pub canvas_ar: AspectRatio,
    pub budget0: int,
}

/// One abstract shot: the input index of its anchoring instant, its
/// record placement, and its override trace (each override's offset and
/// the input index of the instant whose data it carries).
pub ghost struct ShotModel {
    pub anchor: int,
    pub in_: int,
    pub dur: int,
    pub overrides: Seq<OvModel>,
}

/// One abstract override entry.
pub ghost struct OvModel {
    pub offset: int,
    pub src: int,
}

/// The abstract fold state.
pub ghost struct FoldModel {
    pub frame_index: int,
    pub budget: int,
    pub preroll: int,
    pub mid_invalid: int,
    pub shots: Seq<ShotModel>,
}

/// The effective frame budget: an explicit count, clamped to the input
/// length when it reaches past the end together with the skip; the whole
/// input otherwise.
pub open spec fn effective_count_spec(count: Option<usize>, skip: int, total: int) -> int {
    match count {
        Some(c) => if c + skip > total {
            total
        } else {
            c as int
        },
        None => total,
    }
}

/// The level-1 value an instant induces.
pub open spec fn induced_l1(fd: FrameData) -> Level1 {
    match fd.level1 {
        Some(b) => level1_from_block_spec(b),
        None => level1_default_spec(),
    }
}

/// The level-2 list an instant induces.
pub open spec fn induced_l2(fd: FrameData) -> Seq<Level2> {
    fd.level2@.map(|i: int, b: crate::rpu::Level2In| level2_from_block_spec(b, l9_index_spec(fd)))
}

/// The level-3 value an instant induces.
pub open spec fn induced_l3(fd: FrameData) -> Option<Level3> {
    match fd.level3 {
        Some(b) => Some(level3_from_block_spec(b)),
        None => None,
    }
}

/// The level-8 list an instant induces.
pub open spec fn induced_l8(fd: FrameData) -> Seq<Level8> {
    fd.level8@.map(|i: int, b: crate::rpu::Level8In| level8_from_block_spec(b))
}

/// The level-9 value an instant induces.
pub open spec fn induced_l9(fd: FrameData) -> Option<Level9> {
    match fd.level9 {
        Some(l9) => Some(level9_from_primaries_spec(l9.primaries)),
        None => None,
    }
}

/// The level-11 value an instant induces.
pub open spec fn induced_l11(fd: FrameData) -> Option<Level11> {
    match fd.level11 {
        Some(b) => Some(level11_from_block_spec(b)),
        None => None,
    }
}

/// Whether two instants induce the same plugin node — the divergence
/// test that decides per-frame override retention.
pub open spec fn frames_spn_same(a: FrameData, b: FrameData, canvas_ar: AspectRatio) -> bool {
    &&& induced_l1(a) == induced_l1(b)
    &&& induced_l2(a) == induced_l2(b)
    &&& induced_l3(a) == induced_l3(b)
    &&& ar_same(effective_ar_spec(a, canvas_ar), effective_ar_spec(b, canvas_ar))
    &&& induced_l8(a) == induced_l8(b)
    &&& induced_l9(a) == induced_l9(b)
    &&& induced_l11(a) == induced_l11(b)
}

/// Two concrete plugin nodes decoded from two instants compare equal
/// exactly when the instants induce the same plugin node.
pub proof fn lemma_spn_same_iff(
    x: ShotPluginNode,
    y: ShotPluginNode,
    a: FrameData,
    b: FrameData,
    canvas_ar: AspectRatio,
)
    requires
        spn_matches_frame(x, a, canvas_ar),
        spn_matches_frame(y, b, canvas_ar),
    ensures
        spn_same(x, y) <==> frames_spn_same(a, b, canvas_ar),
{
    let v2x = x.dv_dynamic_data.level2->Some_0;
    let v2y = y.dv_dynamic_data.level2->Some_0;
    assert(v2x@ =~= induced_l2(a));
    assert(v2y@ =~= induced_l2(b));
    let v8x = x.dv_dynamic_data.level8->Some_0;
    let v8y = y.dv_dynamic_data.level8->Some_0;
    assert(v8x@ =~= induced_l8(a));
    assert(v8y@ =~= induced_l8(b));
}

/// The data of the record at `idx` (meaningful when it is valid).
pub open spec fn data_at(frames: Seq<FrameRecord>, idx: int) -> FrameData {
    frames[idx]->Valid_0
}

/// One step of the abstract fold.
pub open spec fn fold_step(
    frames: Seq<FrameRecord>,
    m: FoldModel,
    idx: int,
    cfg: FoldCfg,
) -> FoldModel {
    if m.budget <= 0 {
        m
    } else {
        match frames[idx] {
            FrameRecord::Valid(fd) => {
                if m.frame_index >= cfg.skip {
                    let pos = m.frame_index - cfg.skip + cfg.offset;
                    if m.shots.len() == 0 {
                        let dur0: int = if cfg.keep_offset {
                            cfg.skip + 1
                        } else {
                            1
                        };
                        let fi_adj: int = if cfg.keep_offset {
                            cfg.skip
                        } else {
                            0
                        };
                        FoldModel {
                            frame_index: m.frame_index + 1 + fi_adj,
                            budget: m.budget - 1,
                            shots: seq![
                                ShotModel { anchor: idx, in_: pos, dur: dur0, overrides: Seq::empty() },
                            ],
                            ..m
                        }
                    } else if fd.scene_refresh {
                        FoldModel {
                            frame_index: m.frame_index + 1,
                            budget: m.budget - 1,
                            shots: m.shots.push(
                                ShotModel { anchor: idx, in_: pos, dur: 1, overrides: Seq::empty() },
                            ),
                            ..m
                        }
                    } else {
                        let cur = m.shots.last();
                        let diverges = !cfg.drop_per_frame && !frames_spn_same(
                            fd,
                            data_at(frames, cur.anchor),
                            cfg.canvas_ar,
                        );
                        let new_ovs = if diverges {
                            cur.overrides.push(OvModel { offset: cur.dur, src: idx })
                        } else {
                            cur.overrides
                        };
                        FoldModel {
                            frame_index: m.frame_index + 1,
                            budget: m.budget - 1,
                            shots: m.shots.update(
                                m.shots.len() - 1,
                                ShotModel { dur: cur.dur + 1, overrides: new_ovs, ..cur },
                            ),
                            ..m
                        }
                    }
                } else {
                    FoldModel { frame_index: m.frame_index + 1, ..m }
                }
            },
            FrameRecord::Invalid => {
                if m.shots.len() > 0 {
                    let cur = m.shots.last();
                    let new_ovs = if cur.overrides.len() > 0 {
                        cur.overrides.push(
                            OvModel { offset: cur.dur, src: cur.overrides.last().src },
                        )
                    } else {
                        cur.overrides
                    };
                    FoldModel {
                        frame_index: m.frame_index + 1,
                        budget: m.budget - 1,
                        mid_invalid: m.mid_invalid + 1,
                        shots: m.shots.update(
                            m.shots.len() - 1,
                            ShotModel { dur: cur.dur + 1, overrides: new_ovs, ..cur },
                        ),
                        ..m
                    }
                } else {
                    FoldModel { preroll: m.preroll + 1, ..m }
                }
            },
        }
    }
}

/// The abstract fold state after consuming the first `n` records.
pub open spec fn fold_model(frames: Seq<FrameRecord>, n: int, cfg: FoldCfg) -> FoldModel
    decreases n,
{
    if n <= 0 {
        FoldModel { frame_index: 0, budget: cfg.budget0, preroll: 0, mid_invalid: 0, shots: Seq::empty() }
    } else {
        fold_step(frames, fold_model(frames, n - 1, cfg), n - 1, cfg)
    }
}

/// The sum of the durations of a list of abstract shots.
pub open spec fn sum_durs(shots: Seq<ShotModel>) -> int
    decreases shots.len(),
{
    if shots.len() == 0 {
        0
    } else {
        sum_durs(shots.drop_last()) + shots.last().dur
    }
}

/// Structural soundness of a fold state: every shot is at least one
/// frame long, consecutive records tile the index range without gap or
/// overlap, and every override trace is strictly ordered by offset,
/// each offset within the shot, each source a valid consumed instant.
pub open spec fn model_wf(frames: Seq<FrameRecord>, m: FoldModel, cfg: FoldCfg) -> bool {
    &&& forall|i: int| 0 <= i < m.shots.len() ==> (#[trigger] m.shots[i]).dur >= 1
    &&& forall|i: int|
        0 <= i < m.shots.len() - 1 ==> (#[trigger] m.shots[i]).in_ + m.shots[i].dur == m.shots[i
            + 1].in_
    &&& forall|i: int|
        0 <= i < m.shots.len() ==> 0 <= (#[trigger] m.shots[i]).anchor < frames.len()
            && frames[m.shots[i].anchor] is Valid
    &&& forall|i: int, j: int|
        0 <= i < m.shots.len() && 0 <= j < m.shots[i].overrides.len() ==> {
            &&& 1 <= (#[trigger] m.shots[i].overrides[j]).offset < m.shots[i].dur
            &&& (j > 0 ==> m.shots[i].overrides[j - 1].offset < m.shots[i].overrides[j].offset)
            &&& 0 <= m.shots[i].overrides[j].src < frames.len()
            &&& frames[m.shots[i].overrides[j].src] is Valid
        }
    &&& (m.shots.len() > 0 ==> sum_durs(m.shots) == (cfg.budget0 - m.budget) + (
    if cfg.keep_offset {
        cfg.skip
    } else {
        0
    }))
    &&& (m.shots.len() == 0 ==> m.budget == cfg.budget0 && m.mid_invalid == 0)
    &&& (m.shots.len() > 0 ==> m.frame_index >= cfg.skip)
    &&& (m.shots.len() > 0 ==> m.shots.last().in_ + m.shots.last().dur == m.frame_index - cfg.skip
        + cfg.offset)
    &&& forall|i: int| 0 <= i < m.shots.len() ==> (#[trigger] m.shots[i]).in_ >= 0
    &&& m.budget >= 0
    &&& m.frame_index >= 0
    &&& m.preroll >= 0
    &&& m.mid_invalid >= 0
}

/// The fold model is structurally sound at every prefix: shot records
/// form a contiguous partition whose total length is exactly the number
/// of consumed instants (plus the folded-in skip under the keep-offset
/// policy), and override traces are strictly ordered within their shot.
pub proof fn lemma_fold_model_wf(frames: Seq<FrameRecord>, n: int, cfg: FoldCfg)
    requires
        0 <= n <= frames.len(),
        cfg.budget0 >= 0,
        cfg.skip >= 0,
        cfg.offset >= 0,
    ensures
        model_wf(frames, fold_model(frames, n, cfg), cfg),
        fold_model(frames, n, cfg).frame_index <= n + (
        if cfg.keep_offset && fold_model(frames, n, cfg).shots.len() > 0 {
            cfg.skip
        } else {
            0
        }),
        fold_model(frames, n, cfg).preroll <= n,
        fold_model(frames, n, cfg).mid_invalid <= n,
        cfg.budget0 - fold_model(frames, n, cfg).budget <= n,
    decreases n,
{
    if n <= 0 {
    } else {
        lemma_fold_model_wf(frames, n - 1, cfg);
        let m = fold_model(frames, n - 1, cfg);
        let m2 = fold_model(frames, n, cfg);
        assert(m2 == fold_step(frames, m, n - 1, cfg));
        if m.budget <= 0 {
        } else {
            match frames[n - 1] {
                FrameRecord::Valid(fd) => {
                    if m.frame_index >= cfg.skip {
                        if m.shots.len() == 0 {
                            assert(m2.shots.len() == 1);
                            assert(m2.shots.drop_last() =~= Seq::<ShotModel>::empty());
                            assert(sum_durs(Seq::<ShotModel>::empty()) == 0);
                            assert(sum_durs(m2.shots) == sum_durs(m2.shots.drop_last())
                                + m2.shots.last().dur);
                        } else if fd.scene_refresh {
                            assert(m2.shots.drop_last() =~= m.shots);
                            assert(sum_durs(m2.shots) == sum_durs(m.shots) + 1);
                        } else {
                            let cur = m.shots.last();
                            assert(m2.shots.drop_last() =~= m.shots.drop_last());
                            assert(sum_durs(m2.shots) == sum_durs(m.shots) + 1);
                        }
                    }
                },
                FrameRecord::Invalid => {
                    if m.shots.len() > 0 {
                        let cur = m.shots.last();
                        assert(m2.shots.drop_last() =~= m.shots.drop_last());
                        assert(sum_durs(m2.shots) == sum_durs(m.shots) + 1);
                    }
                },
            }
        }
    }
}

/// Whether an override's plugin node records exactly the instant `fd`
/// (aspect ratio up to its quotient): the instant's dynamic data without
/// its level 9, and no content type.
pub open spec fn ov_matches_frame(pn: ShotPluginNode, fd: FrameData, canvas_ar: AspectRatio) -> bool {
    &&& pn.dv_dynamic_data.level1 == induced_l1(fd)
    &&& pn.dv_dynamic_data.level2 matches Some(v2) && v2@ == induced_l2(fd)
    &&& pn.dv_dynamic_data.level3 == induced_l3(fd)
    &&& pn.dv_dynamic_data.level5 matches Some(l5) && ar_same(
        crate::metadata::mdf_inner_spec(l5.aspect_ratio),
        effective_ar_spec(fd, canvas_ar),
    )
    &&& pn.dv_dynamic_data.level8 matches Some(v8) && v8@ == induced_l8(fd)
    &&& pn.dv_dynamic_data.level9 is None
    &&& pn.level11 is None
}

/// An override node built from a probe node that matches `fd` records
/// `fd`.
pub proof fn lemma_ov_from_probe(
    pn: ShotPluginNode,
    probe: ShotPluginNode,
    fd: FrameData,
    canvas_ar: AspectRatio,
)
    requires
        spn_matches_frame(probe, fd, canvas_ar),
        spn_same(pn, crate::cmv40::frame_node_of(probe)),
        pn.level11 is None,
        pn.dv_dynamic_data.level9 is None,
    ensures
        ov_matches_frame(pn, fd, canvas_ar),
{
    let v2p = probe.dv_dynamic_data.level2->Some_0;
    assert(v2p@ =~= induced_l2(fd));
    let v8p = probe.dv_dynamic_data.level8->Some_0;
    assert(v8p@ =~= induced_l8(fd));
}

/// An override node equal (at view level) to one that records `fd`
/// records `fd` too.
pub proof fn lemma_ov_same(
    pn: ShotPluginNode,
    prev: ShotPluginNode,
    fd: FrameData,
    canvas_ar: AspectRatio,
)
    requires
        spn_same(pn, prev),
        ov_matches_frame(prev, fd, canvas_ar),
        pn.level11 is None,
        pn.dv_dynamic_data.level9 is None,
    ensures
        ov_matches_frame(pn, fd, canvas_ar),
{
}

/// Whether a concrete shot realizes an abstract one.
pub open spec fn shot_matches_model(
    s: Shot,
    sm: ShotModel,
    frames: Seq<FrameRecord>,
    canvas_ar: AspectRatio,
) -> bool {
    &&& s.record.in_ == sm.in_
    &&& s.record.duration == sm.dur
    &&& spn_matches_frame(s.plugin_node, data_at(frames, sm.anchor), canvas_ar)
    &&& (sm.overrides.len() == 0 ==> s.frames is None)
    &&& (sm.overrides.len() > 0 ==> (s.frames matches Some(fv) && fv@.len() == sm.overrides.len()
        && (forall|j: int|
        0 <= j < fv@.len() ==> (#[trigger] fv@[j]).edit_offset == sm.overrides[j].offset
            && ov_matches_frame(
            fv@[j].plugin_node,
            data_at(frames, sm.overrides[j].src),
            canvas_ar,
        ))))
}

/// Whether a track was seeded from the given first valid frame under the
/// given flags: the edit rate is tagged with the dialect the frame's
/// version marker selects, and the level-6 block is replaced by an empty
/// one unless the passthrough flag keeps it.
pub open spec fn track_seeded(t: Track, fd: FrameData, use_level6: bool, rate: EditRate) -> bool {
    &&& t.track_name@ == "V1"@
    &&& t.edit_rate == (if fd.level254 is None {
        crate::metadata::MDFType::CMV29(rate)
    } else {
        crate::metadata::MDFType::CMV40(rate)
    })
    &&& crate::cmv40::color_encoding_default_spec(t.color_encoding)
    &&& t.level6 == (if !use_level6 {
        Some(crate::levels::Level6 { level: 6, max_cll: 0, max_fall: 0 })
    } else {
        match fd.level6 {
            Some(b) => Some(crate::levels::level6_from_block_spec(b)),
            None => None,
        }
    })
    &&& t.plugin_node.dv_global_data.level == 0
    &&& t.plugin_node.dv_global_data.mastering_display == crate::cmv40::ch40_from_display_spec(
        crate::display::source_or_default_spec(fd),
    )
    &&& t.plugin_node.dv_global_data.target_displays is None
    &&& t.plugin_node.level11 == induced_l11(fd)
    &&& (t.plugin_node.level254 is Some <==> fd.level254 is Some)
    &&& (t.plugin_node.level254 matches Some(l) ==> (fd.level254 matches Some(b) && l.level == 254
        && l.dm_mode == b.dm_mode && l.dm_version == b.dm_version_index && l.cm_version@ == "4 1"@))
    &&& t.shots is None
}

/// What the frame fold produces: the shot list, the seeded track (absent
/// when no frame anchored one), the target displays seen (one per
/// identifier, first occurrence kept), and the invalid-frame counts.
pub struct FoldOutcome {
    pub shots: Vec<Shot>,
    pub track: Option<Track>,
    pub targets: Vec<crate::cmv40::Characteristics>,
    pub preroll_invalid: usize,
    pub mid_invalid: usize,
    pub count_clamped: bool,
}

/// The fold configuration an argument set induces over an input of
/// `total` records.
pub open spec fn cfg_of(args: ConvertArgs, total: int) -> FoldCfg {
    FoldCfg {
        skip: args.skip as int,
        offset: args.offset as int,
        keep_offset: args.keep_offset,
        drop_per_frame: args.drop_per_frame,
        canvas_ar: args.canvas_ar,
        budget0: effective_count_spec(args.count, args.skip as int, total),
    }
}

/// Whether a fold outcome realizes the abstract fold of the whole input.
pub open spec fn fold_outcome_ok(
    r: FoldOutcome,
    args: ConvertArgs,
    rate: EditRate,
    frames: Seq<FrameRecord>,
) -> bool {
    let m = fold_model(frames, frames.len() as int, cfg_of(args, frames.len() as int));
    &&& r.shots@.len() == m.shots.len()
    &&& (forall|k: int|
        0 <= k < m.shots.len() ==> shot_matches_model(
            #[trigger] r.shots@[k],
            m.shots[k],
            frames,
            args.canvas_ar,
        ))
    &&& (r.track is Some <==> m.shots.len() > 0)
    &&& (r.track matches Some(t) ==> m.shots.len() > 0 && track_seeded(
        t,
        data_at(frames, m.shots[0].anchor),
        args.use_level6,
        rate,
    ))
    &&& r.preroll_invalid == m.preroll
    &&& r.mid_invalid == m.mid_invalid
    &&& (forall|a: int, b: int|
        0 <= a < b < r.targets@.len() ==> (#[trigger] r.targets@[a]).id
            != (#[trigger] r.targets@[b]).id)
    &&& r.count_clamped == (match args.count {
        Some(c) => c + args.skip > frames.len(),
        None => false,
    })
}


/// Extends the current shot over a valid, non-refresh instant: the
/// duration grows by one, and an override is recorded when the instant
/// diverges from the shot's baseline (unless retention is disabled).
#[verifier::loop_isolation(false)]
fn extend_shot_valid(
    shot: &mut Shot,
    fd: &FrameData,
    canvas_ar: AspectRatio,
    drop_per_frame: bool,
    Ghost(anchor_fd): Ghost<FrameData>,
)
    requires
        frame_wf(*fd),
        1 <= old(shot).record.duration < usize::MAX,
        spn_matches_frame(old(shot).plugin_node, anchor_fd, canvas_ar),
    ensures
        final(shot).record.in_ == old(shot).record.in_,
        final(shot).record.duration == old(shot).record.duration + 1,
        final(shot).plugin_node == old(shot).plugin_node,
        final(shot).unique_id == old(shot).unique_id,
        ({
            let diverges = !drop_per_frame && !frames_spn_same(*fd, anchor_fd, canvas_ar);
            &&& (!diverges ==> final(shot).frames == old(shot).frames)
            &&& (diverges ==> {
                &&& final(shot).frames matches Some(fv)
                &&& fv@.len() == (match old(shot).frames {
                    Some(old_fv) => old_fv@.len() + 1,
                    None => 0,
                }) + (if old(shot).frames is None {
                    1int
                } else {
                    0int
                })
                &&& (match old(shot).frames {
                    Some(old_fv) => fv@.subrange(0, old_fv@.len() as int) == old_fv@,
                    None => true,
                })
                &&& fv@.last().edit_offset == old(shot).record.duration
                &&& ov_matches_frame(fv@.last().plugin_node, *fd, canvas_ar)
            })
        }),
{
    shot.update_record(None, None);
    if !drop_per_frame {
        let probe = Shot::with_canvas(fd, canvas_ar);
        proof {
            lemma_spn_same_iff(shot.plugin_node, probe.plugin_node, anchor_fd, *fd, canvas_ar);
        }
        let ghost before = *shot;
        shot.append_metadata(&probe);
        proof {
            if !spn_same(before.plugin_node, probe.plugin_node) {
                lemma_ov_from_probe(
                    shot.frames->Some_0@.last().plugin_node,
                    probe.plugin_node,
                    *fd,
                    canvas_ar,
                );
            }
        }
    }
}


/// Merges the target displays one frame describes into the running
/// first-seen-wins list, keyed by display identifier.
#[verifier::loop_isolation(false)]
fn merge_targets(targets: &mut Vec<crate::cmv40::Characteristics>, fd: &FrameData)
    requires
        frame_wf(*fd),
        forall|a: int, b: int|
            0 <= a < b < old(targets)@.len() ==> (#[trigger] old(targets)@[a]).id
                != (#[trigger] old(targets)@[b]).id,
    ensures
        forall|a: int, b: int|
            0 <= a < b < final(targets)@.len() ==> (#[trigger] final(targets)@[a]).id
                != (#[trigger] final(targets)@[b]).id,
        final(targets)@.len() >= old(targets)@.len(),
        final(targets)@.subrange(0, old(targets)@.len() as int) == old(targets)@,
{
    let ghost base = targets@;
    match crate::display::Characteristics::get_targets(fd) {
        Some(ds) => {
            let mut di: usize = 0;
            while di < ds.len()
                invariant
                    di <= ds@.len(),
                    forall|a: int, b: int|
                        0 <= a < b < targets@.len() ==> (#[trigger] targets@[a]).id
                            != (#[trigger] targets@[b]).id,
                    targets@.len() >= base.len(),
                    targets@.subrange(0, base.len() as int) == base,
                decreases ds@.len() - di,
            {
                let cand = crate::cmv40::Characteristics::from_display(&ds[di]);
                let mut seen = false;
                let mut ti: usize = 0;
                while ti < targets.len()
                    invariant
                        ti <= targets@.len(),
                        seen <==> exists|w: int| 0 <= w < ti && targets@[w].id == cand.id,
                    decreases targets@.len() - ti,
                {
                    if targets[ti].id == cand.id {
                        seen = true;
                    }
                    ti = ti + 1;
                }
                if !seen {
                    let ghost tb = targets@;
                    targets.push(cand);
                    proof {
                        assert(targets@.subrange(0, base.len() as int) =~= base);
                        assert forall|a: int, b: int|
                            0 <= a < b < targets@.len() implies (#[trigger] targets@[a]).id != (
                        #[trigger] targets@[b]).id by {
                            if b == tb.len() {
                                assert(!(tb[a].id == cand.id));
                            }
                        }
                    }
                }
                di = di + 1;
            }
        },
        None => {
            proof {
                assert(targets@.subrange(0, base.len() as int) =~= base);
            }
        },
    }
}

/// The stateful converter: folds the frame stream into shots and
/// assembles the document.
pub struct Converter {
    pub frame_index: usize,
    pub invalid_frame_count: usize,
    pub shots: Option<Vec<Shot>>,
    pub level5: Option<Level5>,
    pub level11: Option<Level11>,
    pub level254: Option<Level254>,
}

impl Converter {
    /// Folds the decoded frame stream into shots, one forward pass: a
    /// valid instant at or after the skip point either starts a new shot
    /// (first instant, or scene refresh set) or extends the current one,
    /// recording a per-frame override when it diverges from the shot's
    /// baseline; an invalid instant before the first anchor is counted
    /// as pre-roll, and after it repeats the previous instant.
    #[verifier::loop_isolation(false)]
    #[verifier::rlimit(100)]
    pub fn fold_frames(args: &ConvertArgs, rate: EditRate, frames: &Vec<FrameRecord>) -> (r:
        FoldOutcome)
        requires
            records_wf(frames@),
            args.skip + args.offset + frames@.len() < usize::MAX,
            (args.count matches Some(c) ==> c + args.skip < usize::MAX),
        ensures
            fold_outcome_ok(r, *args, rate, frames@),
    {
        let ghost cfg = cfg_of(*args, frames@.len() as int);
        let total = frames.len();
        let count_clamped = match args.count {
            Some(c) => c + args.skip > total,
            None => false,
        };
        let mut budget: usize = match args.count {
            Some(c) => if c + args.skip > total {
                total
            } else {
                c
            },
            None => total,
        };
        let mut frame_index: usize = 0;
        let mut invalid_count: usize = 0;
        let mut preroll_done: usize = 0;
        let mut closed: Vec<Shot> = Vec::new();
        let mut last: Option<Shot> = None;
        let mut track: Option<Track> = None;
        let mut targets: Vec<crate::cmv40::Characteristics> = Vec::new();
        let mut i: usize = 0;
        proof {
            lemma_fold_model_wf(frames@, 0, cfg);
        }
        while i < total
            invariant
                i <= total,
                budget == fold_model(frames@, i as int, cfg).budget,
                frame_index == fold_model(frames@, i as int, cfg).frame_index,
                last is None ==> invalid_count == fold_model(frames@, i as int, cfg).preroll,
                last is Some ==> preroll_done == fold_model(frames@, i as int, cfg).preroll
                    && invalid_count == fold_model(frames@, i as int, cfg).mid_invalid,
                last is Some <==> fold_model(frames@, i as int, cfg).shots.len() > 0,
                track is Some <==> fold_model(frames@, i as int, cfg).shots.len() > 0,
                closed@.len() + (if last is Some {
                    1int
                } else {
                    0int
                }) == fold_model(frames@, i as int, cfg).shots.len(),
                forall|k: int|
                    0 <= k < closed@.len() ==> shot_matches_model(
                        #[trigger] closed@[k],
                        fold_model(frames@, i as int, cfg).shots[k],
                        frames@,
                        args.canvas_ar,
                    ),
                last matches Some(s) ==> shot_matches_model(
                    s,
                    fold_model(frames@, i as int, cfg).shots.last(),
                    frames@,
                    args.canvas_ar,
                ),
                track matches Some(t) ==> fold_model(frames@, i as int, cfg).shots.len() > 0
                    && track_seeded(
                    t,
                    data_at(frames@, fold_model(frames@, i as int, cfg).shots[0].anchor),
                    args.use_level6,
                    rate,
                ),
                forall|a: int, b: int|
                    0 <= a < b < targets@.len() ==> (#[trigger] targets@[a]).id
                        != (#[trigger] targets@[b]).id,
            decreases total - i,
        {
            let ghost m = fold_model(frames@, i as int, cfg);
            let ghost m2 = fold_model(frames@, i + 1 as int, cfg);
            proof {
                lemma_fold_model_wf(frames@, i as int, cfg);
                lemma_fold_model_wf(frames@, i + 1 as int, cfg);
                assert(m2 == fold_step(frames@, m, i as int, cfg));
                lemma_sum_durs_bounds(m.shots);
            }
            if budget > 0 {
                match &frames[i] {
                    FrameRecord::Valid(fd) => {
                        proof {
                            assert(record_wf_at(frames@, i as int));
                        }
                        if frame_index >= args.skip {
                            let pos = frame_index - args.skip + args.offset;
                            let starts_new = last.is_none() || fd.scene_refresh;
                            if starts_new {
                                let prev = last;
                                match prev {
                                    Some(shot) => {
                                        closed.push(shot);
                                    },
                                    None => {},
                                }
                                let mut shot = Shot::with_canvas(fd, args.canvas_ar);
                                shot.update_record(Some(pos), None);
                                if track.is_none() {
                                    preroll_done = invalid_count;
                                    invalid_count = 0;
                                    if args.keep_offset {
                                        shot.update_record(None, Some(args.skip));
                                        frame_index = frame_index + args.skip;
                                    }
                                    let mut t = Track::with_single_vdr(fd);
                                    if !args.use_level6 {
                                        t.level6 = Some(crate::levels::Level6::default_value());
                                    }
                                    t.edit_rate = if t.plugin_node.level254.is_none() {
                                        crate::metadata::MDFType::CMV29(rate)
                                    } else {
                                        crate::metadata::MDFType::CMV40(rate)
                                    };
                                    track = Some(t);
                                }
                                proof {
                                    assert(data_at(frames@, i as int) == *fd);
                                    assert(m2.shots.last().anchor == i as int);
                                    assert(shot.record.in_ == m2.shots.last().in_);
                                    assert(shot.record.duration == m2.shots.last().dur);
                                    assert(m2.shots.last().overrides.len() == 0);
                                    assert(shot_matches_model(
                                        shot,
                                        m2.shots.last(),
                                        frames@,
                                        args.canvas_ar,
                                    ));
                                    assert(forall|k: int|
                                        0 <= k < m.shots.len() ==> m2.shots[k] == m.shots[k]);
                                }
                                last = Some(shot);
                            } else {
                                match &mut last {
                                    Some(shot) => {
                                        let ghost sm = m.shots.last();
                                        let ghost shot0 = *shot;
                                        extend_shot_valid(
                                            shot,
                                            fd,
                                            args.canvas_ar,
                                            args.drop_per_frame,
                                            Ghost(data_at(frames@, sm.anchor)),
                                        );
                                        proof {
                                            let sm2 = m2.shots.last();
                                            assert(data_at(frames@, i as int) == *fd);
                                            assert(m2.shots.len() == m.shots.len());
                                            assert(forall|k: int|
                                                0 <= k < m.shots.len() - 1 ==> m2.shots[k]
                                                    == m.shots[k]);
                                            assert(sm2.anchor == sm.anchor && sm2.in_ == sm.in_
                                                && sm2.dur == sm.dur + 1);
                                            let diverges = !args.drop_per_frame
                                                && !frames_spn_same(
                                                *fd,
                                                data_at(frames@, sm.anchor),
                                                args.canvas_ar,
                                            );
                                            if diverges {
                                                assert(sm2.overrides == sm.overrides.push(
                                                    OvModel { offset: sm.dur, src: i as int },
                                                ));
                                                let fv = shot.frames->Some_0;
                                                assert(fv@.len() == sm2.overrides.len());
                                                assert forall|j: int|
                                                    0 <= j < fv@.len() implies (
                                                #[trigger] fv@[j]).edit_offset
                                                    == sm2.overrides[j].offset
                                                    && ov_matches_frame(
                                                    fv@[j].plugin_node,
                                                    data_at(frames@, sm2.overrides[j].src),
                                                    args.canvas_ar,
                                                ) by {
                                                    if j < fv@.len() - 1 {
                                                        assert(sm2.overrides[j]
                                                            == sm.overrides[j]);
                                                        let old_fv = shot0.frames->Some_0;
                                                        assert(fv@.subrange(
                                                            0,
                                                            old_fv@.len() as int,
                                                        )[j] == fv@[j]);
                                                        assert(fv@[j] == old_fv@[j]);
                                                    } else {
                                                        assert(sm2.overrides[j].offset == sm.dur);
                                                        assert(sm2.overrides[j].src == i as int);
                                                    }
                                                }
                                            } else {
                                                assert(sm2.overrides == sm.overrides);
                                            }
                                            assert(shot_matches_model(
                                                *shot,
                                                sm2,
                                                frames@,
                                                args.canvas_ar,
                                            ));
                                        }
                                    },
                                    None => {
                                        proof {
                                            assert(false);
                                        }
                                    },
                                }
                            }
                            merge_targets(&mut targets, fd);
                            budget = budget - 1;
                        }
                        frame_index = frame_index + 1;
                    },
                    FrameRecord::Invalid => {
                        if last.is_some() {
                            frame_index = frame_index + 1;
                            match &mut last {
                                Some(shot) => {
                                    let ghost sm = m.shots.last();
                                    let ghost before = *shot;
                                    shot.repeat_last_instant();
                                    proof {
                                        let sm2 = m2.shots.last();
                                        assert(m2.shots.len() == m.shots.len());
                                        assert(forall|k: int|
                                            0 <= k < m.shots.len() - 1 ==> m2.shots[k]
                                                == m.shots[k]);
                                        assert(sm2.anchor == sm.anchor && sm2.in_ == sm.in_
                                            && sm2.dur == sm.dur + 1);
                                        if sm.overrides.len() > 0 {
                                            lemma_ov_same(
                                                shot.frames->Some_0@.last().plugin_node,
                                                before.frames->Some_0@.last().plugin_node,
                                                data_at(frames@, sm.overrides.last().src),
                                                args.canvas_ar,
                                            );
                                            let fv = shot.frames->Some_0;
                                            let old_fv = before.frames->Some_0;
                                            assert(sm2.overrides == sm.overrides.push(
                                                OvModel {
                                                    offset: sm.dur,
                                                    src: sm.overrides.last().src,
                                                },
                                            ));
                                            assert(fv@.len() == sm2.overrides.len());
                                            assert forall|j: int|
                                                0 <= j < fv@.len() implies (
                                            #[trigger] fv@[j]).edit_offset
                                                == sm2.overrides[j].offset && ov_matches_frame(
                                                fv@[j].plugin_node,
                                                data_at(frames@, sm2.overrides[j].src),
                                                args.canvas_ar,
                                            ) by {
                                                if j < fv@.len() - 1 {
                                                    assert(sm2.overrides[j] == sm.overrides[j]);
                                                    assert(fv@.subrange(
                                                        0,
                                                        old_fv@.len() as int,
                                                    )[j] == fv@[j]);
                                                    assert(fv@[j] == old_fv@[j]);
                                                } else {
                                                    assert(sm2.overrides[j].offset == sm.dur);
                                                }
                                            }
                                        } else {
                                            assert(sm2.overrides == sm.overrides);
                                        }
                                        assert(shot_matches_model(
                                            *shot,
                                            sm2,
                                            frames@,
                                            args.canvas_ar,
                                        ));
                                    }
                                },
                                None => {
                                    proof {
                                        assert(false);
                                    }
                                },
                            }
                            budget = budget - 1;
                            invalid_count = invalid_count + 1;
                        } else {
                            invalid_count = invalid_count + 1;
                        }
                    },
                }
            }
            i = i + 1;
        }
        proof {
            lemma_fold_model_wf(frames@, total as int, cfg);
        }
        let prev = last;
        match prev {
            Some(shot) => {
                closed.push(shot);
            },
            None => {},
        }
        let anchored = track.is_some();
        FoldOutcome {
            shots: closed,
            track,
            targets,
            preroll_invalid: if anchored {
                preroll_done
            } else {
                invalid_count
            },
            mid_invalid: if anchored {
                invalid_count
            } else {
                0
            },
            count_clamped,
        }
    }
}

/// Well-formedness of the record at one index, as a trigger-friendly
/// restatement.
pub open spec fn record_wf_at(frames: Seq<FrameRecord>, i: int) -> bool {
    crate::rpu::record_wf(frames[i])
}

/// The number of per-frame overrides a shot carries.
pub open spec fn shot_frames_len(s: Shot) -> int {
    match s.frames {
        Some(fv) => fv@.len() as int,
        None => 0,
    }
}

/// The shot-level aspect-ratio value.
pub open spec fn shot_level5(s: Shot) -> Option<Level5> {
    s.plugin_node.dv_dynamic_data.level5
}

/// The aspect-ratio value of one override.
pub open spec fn frame_level5(f: Frame) -> Option<Level5> {
    f.plugin_node.dv_dynamic_data.level5
}

/// How many overrides of a list carry the aspect ratio `x`.
pub open spec fn w5_frames(fv: Seq<Frame>, x: Level5) -> int
    decreases fv.len(),
{
    if fv.len() == 0 {
        0
    } else {
        w5_frames(fv.drop_last(), x) + (if opt_level5_same(frame_level5(fv.last()), Some(x)) {
            1int
        } else {
            0int
        })
    }
}

/// The weighted count one shot contributes to the aspect ratio `x`: the
/// frames it covers without an explicit override when its own value is
/// `x`, plus one per override carrying `x`.
pub open spec fn w5_shot(s: Shot, x: Level5) -> int {
    (if opt_level5_same(shot_level5(s), Some(x)) {
        s.record.duration - shot_frames_len(s)
    } else {
        0int
    }) + (match s.frames {
        Some(fv) => w5_frames(fv@, x),
        None => 0,
    })
}

/// The weighted count of the aspect ratio `x` over a shot list.
pub open spec fn weight5(shots: Seq<Shot>, x: Level5) -> int
    decreases shots.len(),
{
    if shots.len() == 0 {
        0
    } else {
        weight5(shots.drop_last(), x) + w5_shot(shots.last(), x)
    }
}

/// Whether some override of a list carries the aspect ratio `x`.
pub open spec fn frames_have5(fv: Seq<Frame>, x: Level5) -> bool {
    exists|j: int| 0 <= j < fv.len() && opt_level5_same(frame_level5(fv[j]), Some(x))
}

/// Whether the aspect ratio `x` occurs anywhere in the shot list.
pub open spec fn is_candidate5(shots: Seq<Shot>, x: Level5) -> bool {
    exists|i: int|
        0 <= i < shots.len() && (opt_level5_same(shot_level5(#[trigger] shots[i]), Some(x)) || (
        match shots[i].frames {
            Some(fv) => frames_have5(fv@, x),
            None => false,
        }))
}

/// Whether `c` occurs and strictly outweighs every aspect ratio other
/// than its own.
pub open spec fn unique_max5(shots: Seq<Shot>, c: Level5) -> bool {
    &&& is_candidate5(shots, c)
    &&& forall|y: Level5|
        is_candidate5(shots, y) && !crate::levels::level5_same(y, c) ==> weight5(shots, y)
            < weight5(shots, c)
}

/// The content-type value of one shot.
pub open spec fn shot_level11(s: Shot) -> Option<Level11> {
    s.plugin_node.level11
}

/// The content-type value of one override.
pub open spec fn frame_level11(f: Frame) -> Option<Level11> {
    f.plugin_node.level11
}

/// How many overrides of a list carry the content type `x`.
pub open spec fn w11_frames(fv: Seq<Frame>, x: Level11) -> int
    decreases fv.len(),
{
    if fv.len() == 0 {
        0
    } else {
        w11_frames(fv.drop_last(), x) + (if frame_level11(fv.last()) == Some(x) {
            1int
        } else {
            0int
        })
    }
}

/// The weighted count one shot contributes to the content type `x`.
pub open spec fn w11_shot(s: Shot, x: Level11) -> int {
    (if shot_level11(s) == Some(x) {
        s.record.duration - shot_frames_len(s)
    } else {
        0int
    }) + (match s.frames {
        Some(fv) => w11_frames(fv@, x),
        None => 0,
    })
}

/// The weighted count of the content type `x` over a shot list.
pub open spec fn weight11(shots: Seq<Shot>, x: Level11) -> int
    decreases shots.len(),
{
    if shots.len() == 0 {
        0
    } else {
        weight11(shots.drop_last(), x) + w11_shot(shots.last(), x)
    }
}

/// Whether the content type `x` occurs anywhere in the shot list.
pub open spec fn is_candidate11(shots: Seq<Shot>, x: Level11) -> bool {
    exists|i: int|
        0 <= i < shots.len() && (shot_level11(#[trigger] shots[i]) == Some(x) || (
        match shots[i].frames {
            Some(fv) => exists|j: int| 0 <= j < fv@.len() && frame_level11(fv@[j]) == Some(x),
            None => false,
        }))
}

/// Whether `c` occurs and strictly outweighs every other content type.
pub open spec fn unique_max11(shots: Seq<Shot>, c: Level11) -> bool {
    &&& is_candidate11(shots, c)
    &&& forall|y: Level11|
        is_candidate11(shots, y) && y != c ==> weight11(shots, y) < weight11(shots, c)
}

/// The sum of the record durations of a shot list.
pub open spec fn sum_rec_durs(shots: Seq<Shot>) -> int
    decreases shots.len(),
{
    if shots.len() == 0 {
        0
    } else {
        sum_rec_durs(shots.drop_last()) + shots.last().record.duration
    }
}

/// Every override list fits within its shot's duration (so weighted
/// counts are nonnegative).
pub open spec fn shots_weights_wf(shots: Seq<Shot>) -> bool {
    forall|i: int| 0 <= i < shots.len() ==> shot_frames_len(#[trigger] shots[i]) <= shots[i].record.duration
}

/// Ratio-equal aspect ratios have equal weighted counts.
pub proof fn lemma_weight5_same(shots: Seq<Shot>, x: Level5, y: Level5)
    requires
        crate::levels::level5_same(x, y),
    ensures
        weight5(shots, x) == weight5(shots, y),
    decreases shots.len(),
{
    if shots.len() > 0 {
        lemma_weight5_same(shots.drop_last(), x, y);
        let s = shots.last();
        match s.frames {
            Some(fv) => {
                lemma_w5_frames_same(fv@, x, y);
            },
            None => {},
        }
    }
}

/// Ratio-equal aspect ratios have equal override counts.
pub proof fn lemma_w5_frames_same(fv: Seq<Frame>, x: Level5, y: Level5)
    requires
        crate::levels::level5_same(x, y),
    ensures
        w5_frames(fv, x) == w5_frames(fv, y),
    decreases fv.len(),
{
    if fv.len() > 0 {
        lemma_w5_frames_same(fv.drop_last(), x, y);
    }
}

/// The durations in a shot list are each at least one frame, so the
/// last is bounded by the sum.
pub proof fn lemma_sum_durs_bounds(shots: Seq<ShotModel>)
    requires
        forall|i: int| 0 <= i < shots.len() ==> (#[trigger] shots[i]).dur >= 1,
    ensures
        sum_durs(shots) >= shots.len(),
        shots.len() > 0 ==> shots.last().dur <= sum_durs(shots) - (shots.len() - 1),
    decreases shots.len(),
{
    if shots.len() > 0 {
        lemma_sum_durs_bounds(shots.drop_last());
    }
}


/// Weighted counts are nonnegative and bounded by the total duration.
pub proof fn lemma_weight5_bounds(shots: Seq<Shot>, x: Level5)
    requires
        shots_weights_wf(shots),
    ensures
        0 <= weight5(shots, x) <= sum_rec_durs(shots),
    decreases shots.len(),
{
    if shots.len() > 0 {
        assert(shots_weights_wf(shots.drop_last())) by {
            assert(forall|i: int|
                0 <= i < shots.len() - 1 ==> shots.drop_last()[i] == shots[i]);
        }
        lemma_weight5_bounds(shots.drop_last(), x);
        let sl = shots.last();
        match sl.frames {
            Some(fv) => {
                lemma_w5_frames_bounds(fv@, x);
            },
            None => {},
        }
    }
}

/// Override counts are nonnegative and bounded by the list length.
pub proof fn lemma_w5_frames_bounds(fv: Seq<Frame>, x: Level5)
    ensures
        0 <= w5_frames(fv, x) <= fv.len(),
    decreases fv.len(),
{
    if fv.len() > 0 {
        lemma_w5_frames_bounds(fv.drop_last(), x);
    }
}

/// Weighted counts are nonnegative and bounded by the total duration.
pub proof fn lemma_weight11_bounds(shots: Seq<Shot>, x: Level11)
    requires
        shots_weights_wf(shots),
    ensures
        0 <= weight11(shots, x) <= sum_rec_durs(shots),
    decreases shots.len(),
{
    if shots.len() > 0 {
        assert(shots_weights_wf(shots.drop_last())) by {
            assert(forall|i: int|
                0 <= i < shots.len() - 1 ==> shots.drop_last()[i] == shots[i]);
        }
        lemma_weight11_bounds(shots.drop_last(), x);
        let sl = shots.last();
        match sl.frames {
            Some(fv) => {
                lemma_w11_frames_bounds(fv@, x);
            },
            None => {},
        }
    }
}

/// Override counts are nonnegative and bounded by the list length.
pub proof fn lemma_w11_frames_bounds(fv: Seq<Frame>, x: Level11)
    ensures
        0 <= w11_frames(fv, x) <= fv.len(),
    decreases fv.len(),
{
    if fv.len() > 0 {
        lemma_w11_frames_bounds(fv.drop_last(), x);
    }
}

/// The duration sum of a prefix is bounded by the whole sum.
pub proof fn lemma_sum_rec_durs_prefix(shots: Seq<Shot>, n: int)
    requires
        0 <= n <= shots.len(),
        shots_weights_wf(shots),
    ensures
        sum_rec_durs(shots.subrange(0, n)) <= sum_rec_durs(shots),
    decreases shots.len() - n,
{
    if n == shots.len() {
        assert(shots.subrange(0, n) =~= shots);
    } else {
        lemma_sum_rec_durs_prefix(shots, n + 1);
        assert(shots.subrange(0, n + 1).drop_last() =~= shots.subrange(0, n));
        assert(shots.subrange(0, n + 1).last() == shots[n]);
        assert(sum_rec_durs(shots.subrange(0, n + 1)) == sum_rec_durs(shots.subrange(0, n))
            + shots[n].record.duration);
    }
}

/// Duration sums of prefixes are nonnegative.
proof fn lemma_sum_rec_durs_nonneg_prefix(shots: Seq<Shot>, n: int)
    requires
        0 <= n <= shots.len(),
    ensures
        sum_rec_durs(shots.subrange(0, n)) >= 0,
    decreases n,
{
    if n > 0 {
        lemma_sum_rec_durs_nonneg_prefix(shots, n - 1);
        assert(shots.subrange(0, n).drop_last() =~= shots.subrange(0, n - 1));
    }
}

/// A prefix weight plus the current shot's duration stays within the
/// total duration.
proof fn lemma_weight5_prefix_le(shots: Seq<Shot>, i: int, x: Level5)
    requires
        shots_weights_wf(shots),
        0 <= i < shots.len(),
    ensures
        weight5(shots.subrange(0, i), x) + shots[i].record.duration <= sum_rec_durs(shots),
{
    assert(shots_weights_wf(shots.subrange(0, i))) by {
        assert(forall|k: int| 0 <= k < i ==> shots.subrange(0, i)[k] == shots[k]);
    }
    lemma_weight5_bounds(shots.subrange(0, i), x);
    lemma_sum_rec_durs_prefix(shots, i + 1);
    assert(shots.subrange(0, i + 1).drop_last() =~= shots.subrange(0, i));
    assert(shots.subrange(0, i + 1).last() == shots[i]);
}

/// A prefix weight plus the current shot's duration stays within the
/// total duration.
proof fn lemma_weight11_prefix_le(shots: Seq<Shot>, i: int, x: Level11)
    requires
        shots_weights_wf(shots),
        0 <= i < shots.len(),
    ensures
        weight11(shots.subrange(0, i), x) + shots[i].record.duration <= sum_rec_durs(shots),
{
    assert(shots_weights_wf(shots.subrange(0, i))) by {
        assert(forall|k: int| 0 <= k < i ==> shots.subrange(0, i)[k] == shots[k]);
    }
    lemma_weight11_bounds(shots.subrange(0, i), x);
    lemma_sum_rec_durs_prefix(shots, i + 1);
    assert(shots.subrange(0, i + 1).drop_last() =~= shots.subrange(0, i));
    assert(shots.subrange(0, i + 1).last() == shots[i]);
}

/// Computes the weighted count of the aspect ratio `x`.
#[verifier::loop_isolation(false)]
fn weight5_exec(shots: &Vec<Shot>, x: &Level5) -> (w: usize)
    requires
        shots_weights_wf(shots@),
        sum_rec_durs(shots@) <= usize::MAX,
    ensures
        w == weight5(shots@, *x),
{
    let mut w: usize = 0;
    let mut i: usize = 0;
    while i < shots.len()
        invariant
            i <= shots@.len(),
            w == weight5(shots@.subrange(0, i as int), *x),
        decreases shots@.len() - i,
    {
        proof {
            lemma_weight5_bounds(shots@, *x);
            lemma_sum_rec_durs_prefix(shots@, i + 1 as int);
            lemma_weight5_prefix_le(shots@, i as int, *x);
            assert(shots@.subrange(0, i + 1 as int).drop_last() =~= shots@.subrange(0, i as int));
            assert(shots@.subrange(0, i + 1 as int).last() == shots@[i as int]);
        }
        let shot = &shots[i];
        if crate::levels::eq_opt_level5(&shot.plugin_node.dv_dynamic_data.level5, &Some(*x)) {
            let fl = match &shot.frames {
                Some(fv) => fv.len(),
                None => 0,
            };
            w = w + (shot.record.duration - fl);
        }
        match &shot.frames {
            Some(fv) => {
                let mut j: usize = 0;
                while j < fv.len()
                    invariant
                        j <= fv@.len(),
                        w == weight5(shots@.subrange(0, i as int), *x) + (
                        if opt_level5_same(shot_level5(shots@[i as int]), Some(*x)) {
                            shots@[i as int].record.duration - shot_frames_len(shots@[i as int])
                        } else {
                            0int
                        }) + w5_frames(fv@.subrange(0, j as int), *x),
                    decreases fv@.len() - j,
                {
                    proof {
                        lemma_w5_frames_bounds(fv@.subrange(0, j as int), *x);
                        lemma_weight5_prefix_le(shots@, i as int, *x);
                        assert(fv@.subrange(0, j + 1 as int).drop_last() =~= fv@.subrange(
                            0,
                            j as int,
                        ));
                        assert(fv@.subrange(0, j + 1 as int).last() == fv@[j as int]);
                    }
                    if crate::levels::eq_opt_level5(
                        &fv[j].plugin_node.dv_dynamic_data.level5,
                        &Some(*x),
                    ) {
                        w = w + 1;
                    }
                    j = j + 1;
                }
                proof {
                    assert(fv@.subrange(0, fv@.len() as int) =~= fv@);
                }
            },
            None => {},
        }
        proof {
            assert(weight5(shots@.subrange(0, i + 1 as int), *x) == weight5(
                shots@.subrange(0, i as int),
                *x,
            ) + w5_shot(shots@[i as int], *x));
        }
        i = i + 1;
    }
    proof {
        assert(shots@.subrange(0, shots@.len() as int) =~= shots@);
    }
    w
}

/// Computes the weighted count of the content type `x`.
#[verifier::loop_isolation(false)]
fn weight11_exec(shots: &Vec<Shot>, x: &Level11) -> (w: usize)
    requires
        shots_weights_wf(shots@),
        sum_rec_durs(shots@) <= usize::MAX,
    ensures
        w == weight11(shots@, *x),
{
    let mut w: usize = 0;
    let mut i: usize = 0;
    while i < shots.len()
        invariant
            i <= shots@.len(),
            w == weight11(shots@.subrange(0, i as int), *x),
        decreases shots@.len() - i,
    {
        proof {
            lemma_weight11_bounds(shots@, *x);
            lemma_sum_rec_durs_prefix(shots@, i + 1 as int);
            lemma_weight11_prefix_le(shots@, i as int, *x);
            assert(shots@.subrange(0, i + 1 as int).drop_last() =~= shots@.subrange(0, i as int));
            assert(shots@.subrange(0, i + 1 as int).last() == shots@[i as int]);
        }
        let shot = &shots[i];
        if crate::levels::eq_opt_level11(&shot.plugin_node.level11, &Some(*x)) {
            let fl = match &shot.frames {
                Some(fv) => fv.len(),
                None => 0,
            };
            w = w + (shot.record.duration - fl);
        }
        match &shot.frames {
            Some(fv) => {
                let mut j: usize = 0;
                while j < fv.len()
                    invariant
                        j <= fv@.len(),
                        w == weight11(shots@.subrange(0, i as int), *x) + (
                        if shot_level11(shots@[i as int]) == Some(*x) {
                            shots@[i as int].record.duration - shot_frames_len(shots@[i as int])
                        } else {
                            0int
                        }) + w11_frames(fv@.subrange(0, j as int), *x),
                    decreases fv@.len() - j,
                {
                    proof {
                        lemma_w11_frames_bounds(fv@.subrange(0, j as int), *x);
                        lemma_weight11_prefix_le(shots@, i as int, *x);
                        assert(fv@.subrange(0, j + 1 as int).drop_last() =~= fv@.subrange(
                            0,
                            j as int,
                        ));
                        assert(fv@.subrange(0, j + 1 as int).last() == fv@[j as int]);
                    }
                    if crate::levels::eq_opt_level11(&fv[j].plugin_node.level11, &Some(*x)) {
                        w = w + 1;
                    }
                    j = j + 1;
                }
                proof {
                    assert(fv@.subrange(0, fv@.len() as int) =~= fv@);
                }
            },
            None => {},
        }
        proof {
            assert(weight11(shots@.subrange(0, i + 1 as int), *x) == weight11(
                shots@.subrange(0, i as int),
                *x,
            ) + w11_shot(shots@[i as int], *x));
        }
        i = i + 1;
    }
    proof {
        assert(shots@.subrange(0, shots@.len() as int) =~= shots@);
    }
    w
}


/// The selection a run of the statistics reducer makes for the track
/// aspect ratio: the strictly most weighted value when there is one,
/// else the canvas-derived fallback.
pub open spec fn chosen5_ok(shots: Seq<Shot>, canvas_ar: AspectRatio, r: Option<Level5>) -> bool {
    &&& r is Some
    &&& ((exists|c: Level5| unique_max5(shots, c)) ==> unique_max5(shots, r->Some_0))
    &&& (!(exists|c: Level5| unique_max5(shots, c)) ==> r == Some(level5_from_ar_spec(canvas_ar)))
}

/// The selection for the track content type: the strictly most weighted
/// value when there is one, nothing otherwise.
pub open spec fn chosen11_ok(shots: Seq<Shot>, r: Option<Level11>) -> bool {
    &&& ((exists|c: Level11| unique_max11(shots, c)) ==> (r matches Some(c2) && unique_max11(
        shots,
        c2,
    )))
    &&& (!(exists|c: Level11| unique_max11(shots, c)) ==> r is None)
}

/// The bookkeeping facts the occurrence collection guarantees: every
/// entry is a candidate, and every explicit value of the shot list has
/// an entry.
pub open spec fn occ5_complete(shots: Seq<Shot>, occ: Seq<Level5>) -> bool {
    &&& (forall|k: int| 0 <= k < occ.len() ==> is_candidate5(shots, #[trigger] occ[k]))
    &&& (forall|ip: int|
        0 <= ip < shots.len() ==> (match shot_level5(#[trigger] shots[ip]) {
            Some(v) => occ.contains(v),
            None => true,
        }))
    &&& (forall|ip: int, jp: int|
        0 <= ip < shots.len() && 0 <= jp < shot_frames_len(shots[ip]) ==> (match frame_level5(
            #[trigger] shots[ip].frames->Some_0@[jp],
        ) {
            Some(v) => occ.contains(v),
            None => true,
        }))
}

/// Collects every explicit aspect-ratio value of the shot list, in scan
/// order (each shot's overrides, then its own value).
#[verifier::loop_isolation(false)]
fn collect_level5_occurrences(shots: &Vec<Shot>) -> (occ: Vec<Level5>)
    ensures
        occ5_complete(shots@, occ@),
{
    let mut occ: Vec<Level5> = Vec::new();
    let mut i: usize = 0;
    while i < shots.len()
        invariant
            i <= shots@.len(),
            forall|k: int| 0 <= k < occ@.len() ==> is_candidate5(shots@, #[trigger] occ@[k]),
            forall|ip: int|
                0 <= ip < i ==> (match shot_level5(#[trigger] shots@[ip]) {
                    Some(v) => occ@.contains(v),
                    None => true,
                }),
            forall|ip: int, j: int|
                0 <= ip < i && 0 <= j < shot_frames_len(shots@[ip]) ==> (match frame_level5(
                    #[trigger] shots@[ip].frames->Some_0@[j],
                ) {
                    Some(v) => occ@.contains(v),
                    None => true,
                }),
        decreases shots@.len() - i,
    {
        let shot = &shots[i];
        match &shot.frames {
            Some(fv) => {
                let mut j: usize = 0;
                while j < fv.len()
                    invariant
                        j <= fv@.len(),
                        forall|k: int|
                            0 <= k < occ@.len() ==> is_candidate5(shots@, #[trigger] occ@[k]),
                        forall|ip: int|
                            0 <= ip < i ==> (match shot_level5(#[trigger] shots@[ip]) {
                                Some(v) => occ@.contains(v),
                                None => true,
                            }),
                        forall|ip: int, jp: int|
                            0 <= ip < i && 0 <= jp < shot_frames_len(shots@[ip]) ==> (
                            match frame_level5(#[trigger] shots@[ip].frames->Some_0@[jp]) {
                                Some(v) => occ@.contains(v),
                                None => true,
                            }),
                        forall|jp: int|
                            0 <= jp < j ==> (match frame_level5(#[trigger] fv@[jp]) {
                                Some(v) => occ@.contains(v),
                                None => true,
                            }),
                    decreases fv@.len() - j,
                {
                    match &fv[j].plugin_node.dv_dynamic_data.level5 {
                        Some(v) => {
                            let ghost ob = occ@;
                            occ.push(*v);
                            proof {
                                assert(occ@[ob.len() as int] == *v);
                                assert(opt_level5_same(frame_level5(fv@[j as int]), Some(*v)));
                                assert(is_candidate5(shots@, *v));
                                assert(forall|z: Level5| ob.contains(z) ==> occ@.contains(z)) by {
                                    assert(forall|w: int| 0 <= w < ob.len() ==> occ@[w] == ob[w]);
                                }
                            }
                        },
                        None => {},
                    }
                    j = j + 1;
                }
            },
            None => {},
        }
        match &shot.plugin_node.dv_dynamic_data.level5 {
            Some(v) => {
                let ghost ob = occ@;
                occ.push(*v);
                proof {
                    assert(occ@[ob.len() as int] == *v);
                    assert(opt_level5_same(shot_level5(shots@[i as int]), Some(*v)));
                    assert(is_candidate5(shots@, *v));
                    assert(forall|z: Level5| ob.contains(z) ==> occ@.contains(z)) by {
                        assert(forall|w: int| 0 <= w < ob.len() ==> occ@[w] == ob[w]);
                    }
                }
            },
            None => {},
        }
        i = i + 1;
    }
    occ
}


/// Whether some representative stands for the aspect ratio `x`.
pub open spec fn covered5(reps: Seq<Level5>, x: Level5) -> bool {
    exists|b: int| 0 <= b < reps.len() && crate::levels::level5_same(reps[b], x)
}

/// One representative per distinct ratio of the collected occurrences.
#[verifier::loop_isolation(false)]
fn dedup_level5(occ: &Vec<Level5>, Ghost(shots): Ghost<Seq<Shot>>) -> (reps: Vec<Level5>)
    requires
        forall|k: int| 0 <= k < occ@.len() ==> is_candidate5(shots, #[trigger] occ@[k]),
    ensures
        forall|a: int, b: int|
            0 <= a < b < reps@.len() ==> !crate::levels::level5_same(
                #[trigger] reps@[a],
                #[trigger] reps@[b],
            ),
        forall|a: int| 0 <= a < reps@.len() ==> is_candidate5(shots, #[trigger] reps@[a]),
        forall|a: int| 0 <= a < occ@.len() ==> covered5(reps@, #[trigger] occ@[a]),
        occ@.len() > 0 ==> reps@.len() > 0,
{
    let mut reps: Vec<Level5> = Vec::new();
    let mut k: usize = 0;
    while k < occ.len()
        invariant
            k <= occ@.len(),
            forall|a: int, b: int|
                0 <= a < b < reps@.len() ==> !crate::levels::level5_same(
                    #[trigger] reps@[a],
                    #[trigger] reps@[b],
                ),
            forall|a: int| 0 <= a < reps@.len() ==> is_candidate5(shots, #[trigger] reps@[a]),
            forall|a: int| 0 <= a < k ==> covered5(reps@, #[trigger] occ@[a]),
            k > 0 ==> reps@.len() > 0,
        decreases occ@.len() - k,
    {
        let cand = occ[k];
        let mut found = false;
        let mut t: usize = 0;
        while t < reps.len()
            invariant
                t <= reps@.len(),
                found <==> exists|b: int| 0 <= b < t && crate::levels::level5_same(reps@[b], cand),
            decreases reps@.len() - t,
        {
            if reps[t].aspect_ratio.into_inner().ratio_bits
                == cand.aspect_ratio.into_inner().ratio_bits {
                found = true;
            }
            t = t + 1;
        }
        if !found {
            let ghost rb = reps@;
            reps.push(cand);
            proof {
                assert(reps@[rb.len() as int] == cand);
                assert(forall|w: int| 0 <= w < rb.len() ==> reps@[w] == rb[w]);
                assert forall|a: int| 0 <= a < k + 1 implies covered5(
                    reps@,
                    #[trigger] occ@[a],
                ) by {
                    if a == k {
                        assert(crate::levels::level5_same(reps@[rb.len() as int], occ@[a]));
                    } else {
                        assert(covered5(rb, occ@[a]));
                        let b0 = choose|b: int|
                            0 <= b < rb.len() && crate::levels::level5_same(rb[b], occ@[a]);
                        assert(crate::levels::level5_same(reps@[b0], occ@[a]));
                    }
                }
            }
        } else {
            proof {
                let b0 = choose|b: int|
                    0 <= b < reps@.len() && crate::levels::level5_same(reps@[b], cand);
                assert(crate::levels::level5_same(reps@[b0], occ@[k as int]));
                assert(covered5(reps@, occ@[k as int]));
            }
        }
        k = k + 1;
    }
    reps
}

impl Converter {
    /// Picks the track-level aspect ratio: the value with the strictly
    /// highest weighted count; on a tie, or when no shot or override
    /// carries an explicit value, the canvas-derived value.
    #[verifier::loop_isolation(false)]
    #[verifier::rlimit(100)]
    pub fn get_common_level5(shots: &Vec<Shot>, canvas_ar: AspectRatio) -> (r: Option<Level5>)
        requires
            shots_weights_wf(shots@),
            sum_rec_durs(shots@) <= usize::MAX,
        ensures
            chosen5_ok(shots@, canvas_ar, r),
    {
        let occ = collect_level5_occurrences(shots);
        // No explicit value anywhere: fall back to the canvas.
        if occ.len() == 0 {
            proof {
                assert forall|c: Level5| !unique_max5(shots@, c) by {
                    if is_candidate5(shots@, c) {
                        lemma_candidate5_in_occ(shots@, occ@, c);
                    }
                }
            }
            return Some(Level5::from_ar(canvas_ar));
        }
        // One representative per distinct ratio.
        let reps = dedup_level5(&occ, Ghost(shots@));
        // Weigh each representative; keep the strict maximum if unique.
        let mut weights: Vec<usize> = Vec::new();
        let mut k2: usize = 0;
        while k2 < reps.len()
            invariant
                k2 <= reps@.len(),
                weights@.len() == k2,
                forall|a: int| 0 <= a < k2 ==> weights@[a] == weight5(shots@, #[trigger] reps@[a]),
            decreases reps@.len() - k2,
        {
            let w = weight5_exec(shots, &reps[k2]);
            weights.push(w);
            k2 = k2 + 1;
        }
        let mut best: usize = 0;
        let mut tie = false;
        let mut k3: usize = 1;
        while k3 < reps.len()
            invariant
                1 <= k3 <= reps@.len() || (reps@.len() == 1 && k3 == 1),
                best < k3,
                weights@.len() == reps@.len(),
                forall|a: int| 0 <= a < k3 ==> weights@[a] <= weights@[best as int],
                !tie ==> forall|a: int|
                    0 <= a < k3 && a != best ==> weights@[a] < weights@[best as int],
                tie ==> exists|a: int|
                    0 <= a < k3 && a != best && weights@[a] == weights@[best as int],
            decreases reps@.len() - k3,
        {
            if weights[k3] > weights[best] {
                best = k3;
                tie = false;
            } else if weights[k3] == weights[best] {
                tie = true;
                proof {
                    assert(weights@[k3 as int] == weights@[best as int]);
                }
            }
            k3 = k3 + 1;
        }
        if !tie {
            proof {
                let c = reps@[best as int];
                assert forall|y: Level5|
                    is_candidate5(shots@, y) && !crate::levels::level5_same(y, c) implies weight5(
                    shots@,
                    y,
                ) < weight5(shots@, c) by {
                    lemma_candidate5_in_occ(shots@, occ@, y);
                    let a = choose|a: int|
                        0 <= a < occ@.len() && crate::levels::level5_same(occ@[a], y);
                    assert(covered5(reps@, occ@[a]));
                    let b = choose|b: int|
                        0 <= b < reps@.len() && crate::levels::level5_same(reps@[b], occ@[a]);
                    assert(crate::levels::level5_same(reps@[b], y));
                    assert(b != best);
                    lemma_weight5_same(shots@, y, reps@[b]);
                }
                assert(unique_max5(shots@, c));
            }
            Some(reps[best])
        } else {
            proof {
                assert forall|c: Level5| !unique_max5(shots@, c) by {
                    if unique_max5(shots@, c) {
                        let a0 = choose|a: int|
                            0 <= a < k3 && a != best && weights@[a] == weights@[best as int];
                        // Two distinct representatives share the top
                        // weight; at most one can stand for `c`.
                        let z: int = if crate::levels::level5_same(reps@[best as int], c) {
                            a0
                        } else {
                            best as int
                        };
                        assert(!crate::levels::level5_same(reps@[z], c));
                        assert(is_candidate5(shots@, reps@[z]));
                        assert(weight5(shots@, reps@[z]) < weight5(shots@, c));
                        lemma_candidate5_in_occ(shots@, occ@, c);
                        let a = choose|aa: int|
                            0 <= aa < occ@.len() && crate::levels::level5_same(occ@[aa], c);
                        assert(covered5(reps@, occ@[a]));
                        let b = choose|bb: int|
                            0 <= bb < reps@.len() && crate::levels::level5_same(reps@[bb], occ@[a]);
                        lemma_weight5_same(shots@, c, reps@[b]);
                        assert(weights@[b] <= weights@[best as int]);
                        assert(weight5(shots@, reps@[z]) == weights@[z]);
                        assert(false);
                    }
                }
            }
            Some(Level5::from_ar(canvas_ar))
        }
    }
}

/// Every aspect-ratio candidate has a ratio-equal entry in the list of
/// collected occurrences.
proof fn lemma_candidate5_in_occ(shots: Seq<Shot>, occ: Seq<Level5>, y: Level5)
    requires
        is_candidate5(shots, y),
        forall|ip: int|
            0 <= ip < shots.len() ==> (match shot_level5(#[trigger] shots[ip]) {
                Some(v) => occ.contains(v),
                None => true,
            }),
        forall|ip: int, jp: int|
            0 <= ip < shots.len() && 0 <= jp < shot_frames_len(shots[ip]) ==> (match frame_level5(
                #[trigger] shots[ip].frames->Some_0@[jp],
            ) {
                Some(v) => occ.contains(v),
                None => true,
            }),
    ensures
        exists|a: int| 0 <= a < occ.len() && crate::levels::level5_same(occ[a], y),
{
    let ip = choose|ip: int|
        0 <= ip < shots.len() && (opt_level5_same(shot_level5(shots[ip]), Some(y)) || (
        match shots[ip].frames {
            Some(fv) => frames_have5(fv@, y),
            None => false,
        }));
    if opt_level5_same(shot_level5(shots[ip]), Some(y)) {
        let v = shot_level5(shots[ip])->Some_0;
        let a = choose|a: int| 0 <= a < occ.len() && occ[a] == v;
        assert(crate::levels::level5_same(occ[a], y));
    } else {
        let fv = shots[ip].frames->Some_0;
        let jp = choose|jp: int|
            0 <= jp < fv@.len() && opt_level5_same(frame_level5(fv@[jp]), Some(y));
        let v = frame_level5(fv@[jp])->Some_0;
        let a = choose|a: int| 0 <= a < occ.len() && occ[a] == v;
        assert(crate::levels::level5_same(occ[a], y));
    }
}


/// Whether some representative equals the content type `x`.
pub open spec fn covered11(reps: Seq<Level11>, x: Level11) -> bool {
    exists|b: int| 0 <= b < reps.len() && reps[b] == x
}

/// The bookkeeping facts the content-type collection guarantees.
pub open spec fn occ11_complete(shots: Seq<Shot>, occ: Seq<Level11>) -> bool {
    &&& (forall|k: int| 0 <= k < occ.len() ==> is_candidate11(shots, #[trigger] occ[k]))
    &&& (forall|ip: int|
        0 <= ip < shots.len() ==> (match shot_level11(#[trigger] shots[ip]) {
            Some(v) => occ.contains(v),
            None => true,
        }))
    &&& (forall|ip: int, jp: int|
        0 <= ip < shots.len() && 0 <= jp < shot_frames_len(shots[ip]) ==> (match frame_level11(
            #[trigger] shots[ip].frames->Some_0@[jp],
        ) {
            Some(v) => occ.contains(v),
            None => true,
        }))
}

/// Collects every explicit content-type value of the shot list.
#[verifier::loop_isolation(false)]
fn collect_level11_occurrences(shots: &Vec<Shot>) -> (occ: Vec<Level11>)
    ensures
        occ11_complete(shots@, occ@),
{
    let mut occ: Vec<Level11> = Vec::new();
    let mut i: usize = 0;
    while i < shots.len()
        invariant
            i <= shots@.len(),
            forall|k: int| 0 <= k < occ@.len() ==> is_candidate11(shots@, #[trigger] occ@[k]),
            forall|ip: int|
                0 <= ip < i ==> (match shot_level11(#[trigger] shots@[ip]) {
                    Some(v) => occ@.contains(v),
                    None => true,
                }),
            forall|ip: int, j: int|
                0 <= ip < i && 0 <= j < shot_frames_len(shots@[ip]) ==> (match frame_level11(
                    #[trigger] shots@[ip].frames->Some_0@[j],
                ) {
                    Some(v) => occ@.contains(v),
                    None => true,
                }),
        decreases shots@.len() - i,
    {
        let shot = &shots[i];
        match &shot.frames {
            Some(fv) => {
                let mut j: usize = 0;
                while j < fv.len()
                    invariant
                        j <= fv@.len(),
                        forall|k: int|
                            0 <= k < occ@.len() ==> is_candidate11(shots@, #[trigger] occ@[k]),
                        forall|ip: int|
                            0 <= ip < i ==> (match shot_level11(#[trigger] shots@[ip]) {
                                Some(v) => occ@.contains(v),
                                None => true,
                            }),
                        forall|ip: int, jp: int|
                            0 <= ip < i && 0 <= jp < shot_frames_len(shots@[ip]) ==> (
                            match frame_level11(#[trigger] shots@[ip].frames->Some_0@[jp]) {
                                Some(v) => occ@.contains(v),
                                None => true,
                            }),
                        forall|jp: int|
                            0 <= jp < j ==> (match frame_level11(#[trigger] fv@[jp]) {
                                Some(v) => occ@.contains(v),
                                None => true,
                            }),
                    decreases fv@.len() - j,
                {
                    match &fv[j].plugin_node.level11 {
                        Some(v) => {
                            let ghost ob = occ@;
                            occ.push(*v);
                            proof {
                                assert(occ@[ob.len() as int] == *v);
                                assert(is_candidate11(shots@, *v));
                                assert(forall|z: Level11| ob.contains(z) ==> occ@.contains(z)) by {
                                    assert(forall|w: int| 0 <= w < ob.len() ==> occ@[w] == ob[w]);
                                }
                            }
                        },
                        None => {},
                    }
                    j = j + 1;
                }
            },
            None => {},
        }
        match &shot.plugin_node.level11 {
            Some(v) => {
                let ghost ob = occ@;
                occ.push(*v);
                proof {
                    assert(occ@[ob.len() as int] == *v);
                    assert(is_candidate11(shots@, *v));
                    assert(forall|z: Level11| ob.contains(z) ==> occ@.contains(z)) by {
                        assert(forall|w: int| 0 <= w < ob.len() ==> occ@[w] == ob[w]);
                    }
                }
            },
            None => {},
        }
        i = i + 1;
    }
    occ
}

/// Every content-type candidate appears among the collected occurrences.
proof fn lemma_candidate11_in_occ(shots: Seq<Shot>, occ: Seq<Level11>, y: Level11)
    requires
        is_candidate11(shots, y),
        occ11_complete(shots, occ),
    ensures
        occ.contains(y),
{
    let ip = choose|ip: int|
        0 <= ip < shots.len() && (shot_level11(shots[ip]) == Some(y) || (match shots[ip].frames {
            Some(fv) => exists|j: int| 0 <= j < fv@.len() && frame_level11(fv@[j]) == Some(y),
            None => false,
        }));
    if shot_level11(shots[ip]) == Some(y) {
    } else {
        let fv = shots[ip].frames->Some_0;
        let jp = choose|jp: int| 0 <= jp < fv@.len() && frame_level11(fv@[jp]) == Some(y);
        assert(occ.contains(y));
    }
}

impl Converter {
    /// Picks the track-level content type: the value with the strictly
    /// highest weighted count, or nothing on a tie or when no value
    /// occurs (this field has no canvas fallback).
    #[verifier::loop_isolation(false)]
    #[verifier::rlimit(100)]
    pub fn get_common_level11(shots: &Vec<Shot>) -> (r: Option<Level11>)
        requires
            shots_weights_wf(shots@),
            sum_rec_durs(shots@) <= usize::MAX,
        ensures
            chosen11_ok(shots@, r),
    {
        let occ = collect_level11_occurrences(shots);
        if occ.len() == 0 {
            proof {
                assert forall|c: Level11| !unique_max11(shots@, c) by {
                    if is_candidate11(shots@, c) {
                        lemma_candidate11_in_occ(shots@, occ@, c);
                    }
                }
            }
            return None;
        }
        // One representative per distinct value.
        let mut reps: Vec<Level11> = Vec::new();
        let mut k: usize = 0;
        while k < occ.len()
            invariant
                k <= occ@.len(),
                forall|a: int, b: int|
                    0 <= a < b < reps@.len() ==> #[trigger] reps@[a] != #[trigger] reps@[b],
                forall|a: int| 0 <= a < reps@.len() ==> is_candidate11(shots@, #[trigger] reps@[a]),
                forall|a: int| 0 <= a < k ==> covered11(reps@, #[trigger] occ@[a]),
                k > 0 ==> reps@.len() > 0,
            decreases occ@.len() - k,
        {
            let cand = occ[k];
            let mut found = false;
            let mut t: usize = 0;
            while t < reps.len()
                invariant
                    t <= reps@.len(),
                    found <==> exists|b: int| 0 <= b < t && reps@[b] == cand,
                decreases reps@.len() - t,
            {
                if reps[t] == cand {
                    found = true;
                }
                t = t + 1;
            }
            if !found {
                let ghost rb = reps@;
                reps.push(cand);
                proof {
                    assert(reps@[rb.len() as int] == cand);
                    assert(forall|w: int| 0 <= w < rb.len() ==> reps@[w] == rb[w]);
                    assert forall|a: int| 0 <= a < k + 1 implies covered11(
                        reps@,
                        #[trigger] occ@[a],
                    ) by {
                        if a == k {
                            assert(reps@[rb.len() as int] == occ@[a]);
                        } else {
                            assert(covered11(rb, occ@[a]));
                            let b0 = choose|b: int| 0 <= b < rb.len() && rb[b] == occ@[a];
                            assert(reps@[b0] == occ@[a]);
                        }
                    }
                }
            } else {
                proof {
                    let b0 = choose|b: int| 0 <= b < reps@.len() && reps@[b] == cand;
                    assert(covered11(reps@, occ@[k as int]));
                }
            }
            k = k + 1;
        }
        // Weigh each representative; keep the strict maximum if unique.
        let mut weights: Vec<usize> = Vec::new();
        let mut k2: usize = 0;
        while k2 < reps.len()
            invariant
                k2 <= reps@.len(),
                weights@.len() == k2,
                forall|a: int| 0 <= a < k2 ==> weights@[a] == weight11(shots@, #[trigger] reps@[a]),
            decreases reps@.len() - k2,
        {
            let w = weight11_exec(shots, &reps[k2]);
            weights.push(w);
            k2 = k2 + 1;
        }
        let mut best: usize = 0;
        let mut tie = false;
        let mut k3: usize = 1;
        while k3 < reps.len()
            invariant
                1 <= k3 <= reps@.len() || (reps@.len() == 1 && k3 == 1),
                best < k3,
                weights@.len() == reps@.len(),
                forall|a: int| 0 <= a < k3 ==> weights@[a] <= weights@[best as int],
                !tie ==> forall|a: int|
                    0 <= a < k3 && a != best ==> weights@[a] < weights@[best as int],
                tie ==> exists|a: int|
                    0 <= a < k3 && a != best && weights@[a] == weights@[best as int],
            decreases reps@.len() - k3,
        {
            if weights[k3] > weights[best] {
                best = k3;
                tie = false;
            } else if weights[k3] == weights[best] {
                tie = true;
                proof {
                    assert(weights@[k3 as int] == weights@[best as int]);
                }
            }
            k3 = k3 + 1;
        }
        if !tie {
            proof {
                let c = reps@[best as int];
                assert forall|y: Level11| is_candidate11(shots@, y) && y != c implies weight11(
                    shots@,
                    y,
                ) < weight11(shots@, c) by {
                    lemma_candidate11_in_occ(shots@, occ@, y);
                    let a = choose|a: int| 0 <= a < occ@.len() && occ@[a] == y;
                    assert(covered11(reps@, occ@[a]));
                    let b = choose|b: int| 0 <= b < reps@.len() && reps@[b] == occ@[a];
                    assert(b != best);
                }
                assert(unique_max11(shots@, c));
            }
            Some(reps[best])
        } else {
            proof {
                assert forall|c: Level11| !unique_max11(shots@, c) by {
                    if unique_max11(shots@, c) {
                        let a0 = choose|a: int|
                            0 <= a < k3 && a != best && weights@[a] == weights@[best as int];
                        let z: int = if reps@[best as int] == c {
                            a0
                        } else {
                            best as int
                        };
                        assert(reps@[z] != c);
                        assert(is_candidate11(shots@, reps@[z]));
                        assert(weight11(shots@, reps@[z]) < weight11(shots@, c));
                        lemma_candidate11_in_occ(shots@, occ@, c);
                        let a = choose|aa: int| 0 <= aa < occ@.len() && occ@[aa] == c;
                        assert(covered11(reps@, occ@[a]));
                        let b = choose|bb: int| 0 <= bb < reps@.len() && reps@[bb] == occ@[a];
                        assert(weights@[b] <= weights@[best as int]);
                        assert(weight11(shots@, reps@[z]) == weights@[z]);
                        assert(false);
                    }
                }
            }
            None
        }
    }
}


/// How one override looks after the reduction pass: its aspect ratio is
/// cleared when it matches the track choice or its own shot's old value,
/// its content type is cleared unconditionally, all else is kept.
pub open spec fn reduced_frame_rel(
    o: Frame,
    n: Frame,
    r5: Option<Level5>,
    shot5: Option<Level5>,
) -> bool {
    &&& n.edit_offset == o.edit_offset
    &&& n.plugin_node.dv_dynamic_data.level1 == o.plugin_node.dv_dynamic_data.level1
    &&& n.plugin_node.dv_dynamic_data.level2 == o.plugin_node.dv_dynamic_data.level2
    &&& n.plugin_node.dv_dynamic_data.level3 == o.plugin_node.dv_dynamic_data.level3
    &&& n.plugin_node.dv_dynamic_data.level5 == (if opt_level5_same(frame_level5(o), r5)
        || opt_level5_same(frame_level5(o), shot5) {
        None::<Level5>
    } else {
        frame_level5(o)
    })
    &&& n.plugin_node.dv_dynamic_data.level8 == o.plugin_node.dv_dynamic_data.level8
    &&& n.plugin_node.dv_dynamic_data.level9 == o.plugin_node.dv_dynamic_data.level9
    &&& n.plugin_node.level11 is None
}

/// How one shot looks after the reduction pass.
pub open spec fn reduced_shot_rel(o: Shot, n: Shot, r5: Option<Level5>) -> bool {
    &&& n.record == o.record
    &&& n.unique_id == o.unique_id
    &&& n.plugin_node.dv_dynamic_data.level1 == o.plugin_node.dv_dynamic_data.level1
    &&& n.plugin_node.dv_dynamic_data.level2 == o.plugin_node.dv_dynamic_data.level2
    &&& n.plugin_node.dv_dynamic_data.level3 == o.plugin_node.dv_dynamic_data.level3
    &&& n.plugin_node.dv_dynamic_data.level5 == (if opt_level5_same(shot_level5(o), r5) {
        None::<Level5>
    } else {
        shot_level5(o)
    })
    &&& n.plugin_node.dv_dynamic_data.level8 == o.plugin_node.dv_dynamic_data.level8
    &&& n.plugin_node.dv_dynamic_data.level9 == o.plugin_node.dv_dynamic_data.level9
    &&& n.plugin_node.level11 is None
    &&& (o.frames is None ==> n.frames is None)
    &&& (o.frames matches Some(ofv) ==> (n.frames matches Some(nfv) && nfv@.len() == ofv@.len()
        && (forall|j: int|
        0 <= j < ofv@.len() ==> reduced_frame_rel(
            #[trigger] ofv@[j],
            nfv@[j],
            r5,
            shot_level5(o),
        ))))
}

/// How the whole shot list looks after the reduction pass.
pub open spec fn reduce_rel(old: Seq<Shot>, new: Seq<Shot>, r5: Option<Level5>) -> bool {
    &&& old.len() == new.len()
    &&& forall|i: int| 0 <= i < old.len() ==> reduced_shot_rel(#[trigger] old[i], new[i], r5)
}

impl Converter {
    /// Strips the chosen track-level values back out of the shots: a
    /// shot aspect ratio equal to the track's is cleared to inherit; an
    /// override aspect ratio equal to the track's or to its shot's old
    /// value is cleared; content types are cleared everywhere.
    #[verifier::loop_isolation(false)]
    pub fn strip_common(shots: Vec<Shot>, level5: &Option<Level5>) -> (r: Vec<Shot>)
        ensures
            reduce_rel(shots@, r@, *level5),
    {
        let ghost shots0 = shots@;
        let mut rest = shots;
        let mut done: Vec<Shot> = Vec::new();
        while rest.len() > 0
            invariant
                done@.len() + rest@.len() == shots0.len(),
                forall|j: int|
                    0 <= j < rest@.len() ==> #[trigger] rest@[j] == shots0[done@.len() + j],
                forall|k: int|
                    0 <= k < done@.len() ==> reduced_shot_rel(
                        #[trigger] shots0[k],
                        done@[k],
                        *level5,
                    ),
            decreases rest@.len(),
        {
            let s = rest.remove(0);
            let Shot { unique_id, record, plugin_node, frames } = s;
            let ShotPluginNode { dv_dynamic_data, level11: _ } = plugin_node;
            let DVDynamicData { level1, level2, level3, level5: s5, level8, level9 } =
                dv_dynamic_data;
            let shot5_before = s5;
            let new_s5 = if crate::levels::eq_opt_level5(&s5, level5) {
                None
            } else {
                s5
            };
            let new_frames = match frames {
                None => None,
                Some(fv) => {
                    let ghost fv0 = fv@;
                    let mut frest = fv;
                    let mut fdone: Vec<Frame> = Vec::new();
                    while frest.len() > 0
                        invariant
                            fdone@.len() + frest@.len() == fv0.len(),
                            forall|j: int|
                                0 <= j < frest@.len() ==> #[trigger] frest@[j] == fv0[fdone@.len()
                                    + j],
                            forall|k: int|
                                0 <= k < fdone@.len() ==> reduced_frame_rel(
                                    #[trigger] fv0[k],
                                    fdone@[k],
                                    *level5,
                                    s5,
                                ),
                        decreases frest@.len(),
                    {
                        let f = frest.remove(0);
                        let Frame { edit_offset, plugin_node } = f;
                        let ShotPluginNode { dv_dynamic_data: fdd, level11: _ } = plugin_node;
                        let DVDynamicData {
                            level1: f1,
                            level2: f2,
                            level3: f3,
                            level5: f5,
                            level8: f8,
                            level9: f9,
                        } = fdd;
                        let nf5 = if crate::levels::eq_opt_level5(&f5, level5)
                            || crate::levels::eq_opt_level5(&f5, &shot5_before) {
                            None
                        } else {
                            f5
                        };
                        fdone.push(
                            Frame {
                                edit_offset,
                                plugin_node: ShotPluginNode {
                                    dv_dynamic_data: DVDynamicData {
                                        level1: f1,
                                        level2: f2,
                                        level3: f3,
                                        level5: nf5,
                                        level8: f8,
                                        level9: f9,
                                    },
                                    level11: None,
                                },
                            },
                        );
                    }
                    Some(fdone)
                },
            };
            done.push(
                Shot {
                    unique_id,
                    record,
                    plugin_node: ShotPluginNode {
                        dv_dynamic_data: DVDynamicData {
                            level1,
                            level2,
                            level3,
                            level5: new_s5,
                            level8,
                            level9,
                        },
                        level11: None,
                    },
                    frames: new_frames,
                },
            );
        }
        done
    }
}

/// Whether every aspect-ratio and content-type value of the list is
/// already cleared (shots and overrides alike).
pub open spec fn shots_all_cleared(shots: Seq<Shot>) -> bool {
    forall|i: int|
        0 <= i < shots.len() ==> {
            &&& shot_level5(#[trigger] shots[i]) is None
            &&& shot_level11(shots[i]) is None
            &&& (shots[i].frames matches Some(fv) ==> forall|j: int|
                0 <= j < fv@.len() ==> frame_level5(#[trigger] fv@[j]) is None && frame_level11(
                    fv@[j],
                ) is None)
        }
}

/// Full equality of two shots up to list views.
pub open spec fn shots_equiv(a: Shot, b: Shot) -> bool {
    &&& a.record == b.record
    &&& a.unique_id == b.unique_id
    &&& a.plugin_node.dv_dynamic_data == b.plugin_node.dv_dynamic_data
    &&& a.plugin_node.level11 == b.plugin_node.level11
    &&& (a.frames is None <==> b.frames is None)
    &&& (a.frames matches Some(afv) ==> (b.frames matches Some(bfv) && afv@.len() == bfv@.len()
        && (forall|j: int| 0 <= j < afv@.len() ==> #[trigger] afv@[j] == bfv@[j])))
}

/// Law: re-selection is idempotent.  Running the statistics reducer on
/// an already-reduced shot list — every shot and override value already
/// cleared to inherit from the track — selects no content type, falls
/// back to the canvas-derived aspect ratio, and leaves every shot
/// unchanged.
pub proof fn lemma_reduction_idempotent(
    old: Seq<Shot>,
    new: Seq<Shot>,
    r5: Option<Level5>,
    r11: Option<Level11>,
    canvas_ar: AspectRatio,
)
    requires
        shots_all_cleared(old),
        chosen5_ok(old, canvas_ar, r5),
        chosen11_ok(old, r11),
        reduce_rel(old, new, r5),
    ensures
        r5 == Some(level5_from_ar_spec(canvas_ar)),
        r11 is None,
        forall|i: int| 0 <= i < new.len() ==> shots_equiv(#[trigger] old[i], new[i]),
{
    assert forall|c: Level5| !unique_max5(old, c) by {
        if is_candidate5(old, c) {
            let ip = choose|ip: int|
                0 <= ip < old.len() && (opt_level5_same(shot_level5(old[ip]), Some(c)) || (
                match old[ip].frames {
                    Some(fv) => frames_have5(fv@, c),
                    None => false,
                }));
            if opt_level5_same(shot_level5(old[ip]), Some(c)) {
                assert(false);
            } else {
                let fv = old[ip].frames->Some_0;
                let jp = choose|jp: int|
                    0 <= jp < fv@.len() && opt_level5_same(frame_level5(fv@[jp]), Some(c));
                assert(false);
            }
        }
    }
    assert forall|c: Level11| !unique_max11(old, c) by {
        if is_candidate11(old, c) {
            let ip = choose|ip: int|
                0 <= ip < old.len() && (shot_level11(old[ip]) == Some(c) || (
                match old[ip].frames {
                    Some(fv) => exists|j: int|
                        0 <= j < fv@.len() && frame_level11(fv@[j]) == Some(c),
                    None => false,
                }));
            if shot_level11(old[ip]) == Some(c) {
                assert(false);
            } else {
                let fv = old[ip].frames->Some_0;
                let jp = choose|jp: int| 0 <= jp < fv@.len() && frame_level11(fv@[jp]) == Some(c);
                assert(false);
            }
        }
    }
    assert forall|i: int| 0 <= i < new.len() implies shots_equiv(#[trigger] old[i], new[i]) by {
        assert(reduced_shot_rel(old[i], new[i], r5));
        match old[i].frames {
            Some(ofv) => {
                let nfv = new[i].frames->Some_0;
                assert forall|j: int| 0 <= j < ofv@.len() implies #[trigger] ofv@[j]
                    == nfv@[j] by {
                    assert(reduced_frame_rel(ofv@[j], nfv@[j], r5, shot_level5(old[i])));
                    assert(frame_level5(ofv@[j]) is None);
                    assert(frame_level11(ofv@[j]) is None);
                }
            },
            None => {},
        }
    }
}

/// Law: the shot records tile the consumed range.  Over any input, the
/// records of consecutive shots abut exactly (no gap, no overlap), every
/// shot is at least one frame long, and the durations sum to the number
/// of consumed instants — valid and repaired invalid frames alike — plus
/// the folded-in skip when the keep-offset policy is on.
pub proof fn lemma_records_partition_consumed(frames: Seq<FrameRecord>, cfg: FoldCfg)
    requires
        cfg.budget0 >= 0,
        cfg.skip >= 0,
        cfg.offset >= 0,
    ensures
        ({
            let m = fold_model(frames, frames.len() as int, cfg);
            &&& (forall|i: int| 0 <= i < m.shots.len() ==> (#[trigger] m.shots[i]).dur >= 1)
            &&& (forall|i: int|
                0 <= i < m.shots.len() - 1 ==> (#[trigger] m.shots[i]).in_ + m.shots[i].dur
                    == m.shots[i + 1].in_)
            &&& (m.shots.len() > 0 ==> sum_durs(m.shots) == (cfg.budget0 - m.budget) + (
            if cfg.keep_offset {
                cfg.skip
            } else {
                0int
            }))
            &&& (!cfg.keep_offset && m.shots.len() > 0 ==> sum_durs(m.shots) == cfg.budget0
                - m.budget)
        }),
{
    lemma_fold_model_wf(frames, frames.len() as int, cfg);
}

/// Law: override traces are strictly ordered.  In every shot of the
/// fold, the per-frame override offsets grow strictly and each lies
/// within the shot's duration.
pub proof fn lemma_overrides_strictly_ordered(frames: Seq<FrameRecord>, cfg: FoldCfg)
    requires
        cfg.budget0 >= 0,
        cfg.skip >= 0,
        cfg.offset >= 0,
    ensures
        ({
            let m = fold_model(frames, frames.len() as int, cfg);
            forall|i: int, j: int|
                0 <= i < m.shots.len() && 0 <= j < m.shots[i].overrides.len() ==> {
                    &&& 0 <= (#[trigger] m.shots[i].overrides[j]).offset < m.shots[i].dur
                    &&& (j > 0 ==> m.shots[i].overrides[j - 1].offset
                        < m.shots[i].overrides[j].offset)
                }
        }),
{
    lemma_fold_model_wf(frames, frames.len() as int, cfg);
}

/// Strictly increasing offsets starting at one force the list to fit
/// inside the duration.
pub proof fn lemma_override_count_within(sm: ShotModel)
    requires
        sm.dur >= 0,
        forall|j: int|
            0 <= j < sm.overrides.len() ==> {
                &&& 1 <= (#[trigger] sm.overrides[j]).offset < sm.dur
                &&& (j > 0 ==> sm.overrides[j - 1].offset < sm.overrides[j].offset)
            },
    ensures
        sm.overrides.len() <= sm.dur,
{
    if sm.overrides.len() > 0 {
        lemma_offsets_grow(sm, sm.overrides.len() - 1);
        assert(sm.overrides[sm.overrides.len() - 1].offset < sm.dur);
    }
}

/// Each offset of a strictly increasing trace is at least its position
/// plus one.
proof fn lemma_offsets_grow(sm: ShotModel, j: int)
    requires
        0 <= j < sm.overrides.len(),
        forall|k: int|
            0 <= k < sm.overrides.len() ==> {
                &&& 1 <= (#[trigger] sm.overrides[k]).offset < sm.dur
                &&& (k > 0 ==> sm.overrides[k - 1].offset < sm.overrides[k].offset)
            },
    ensures
        sm.overrides[j].offset >= j + 1,
    decreases j,
{
    if j > 0 {
        lemma_offsets_grow(sm, j - 1);
    }
}

/// Concrete shots that realize abstract ones have the same duration sum.
pub proof fn lemma_sum_rec_matches(
    shots: Seq<Shot>,
    models: Seq<ShotModel>,
    frames: Seq<FrameRecord>,
    canvas_ar: AspectRatio,
)
    requires
        shots.len() == models.len(),
        forall|k: int|
            0 <= k < models.len() ==> shot_matches_model(
                #[trigger] shots[k],
                models[k],
                frames,
                canvas_ar,
            ),
    ensures
        sum_rec_durs(shots) == sum_durs(models),
    decreases shots.len(),
{
    if shots.len() > 0 {
        lemma_sum_rec_matches(shots.drop_last(), models.drop_last(), frames, canvas_ar);
    }
}


/// Everything one conversion produces: the document, the dialect it
/// should be written in, the chosen track-level values, and the
/// operator notices.
pub struct ConvertOutcome {
    pub mdf: DolbyLabsMDF,
    pub uses_legacy_dialect: bool,
    pub level5: Option<Level5>,
    pub level11: Option<Level11>,
    pub preroll_invalid: usize,
    pub mid_invalid: usize,
    pub count_clamped: bool,
    pub unreduced: Ghost<Seq<Shot>>,
}

/// Whether a conversion outcome is correct for the given input: the
/// document wraps one output and one track; the track's shots realize
/// the abstract fold of the frame stream and were then reduced against
/// the selected track-level aspect ratio; the selections obey the
/// majority rules; and the notices carry the fold's counters.
pub open spec fn convert_outcome_ok(
    out: ConvertOutcome,
    args: ConvertArgs,
    frames: Seq<FrameRecord>,
) -> bool {
    let cfg = cfg_of(args, frames.len() as int);
    let m = fold_model(frames, frames.len() as int, cfg);
    &&& out.preroll_invalid == m.preroll
    &&& out.mid_invalid == m.mid_invalid
    &&& out.count_clamped == (match args.count {
        Some(c) => c + args.skip > frames.len(),
        None => false,
    })
    &&& out.mdf.outputs.outputs@.len() == 1
    &&& out.mdf.outputs.outputs@[0].video.tracks@.len() == 1
    &&& ({
        let t = out.mdf.outputs.outputs@[0].video.tracks@[0];
        &&& t.shots matches Some(sv) && {
            &&& sv@.len() == m.shots.len()
            &&& out.unreduced@.len() == m.shots.len()
            &&& (forall|k: int|
                0 <= k < m.shots.len() ==> shot_matches_model(
                    #[trigger] out.unreduced@[k],
                    m.shots[k],
                    frames,
                    args.canvas_ar,
                ))
            &&& chosen5_ok(out.unreduced@, args.canvas_ar, out.level5)
            &&& chosen11_ok(out.unreduced@, out.level11)
            &&& reduce_rel(out.unreduced@, sv@, out.level5)
        }
        &&& t.plugin_node.level11 == out.level11
        &&& (m.shots.len() > 0 ==> out.uses_legacy_dialect == (data_at(
            frames,
            m.shots[0].anchor,
        ).level254 is None))
        &&& (m.shots.len() == 0 ==> out.uses_legacy_dialect)
        &&& (m.shots.len() > 0 ==> t.edit_rate == (if data_at(
            frames,
            m.shots[0].anchor,
        ).level254 is None {
            crate::metadata::MDFType::CMV29(edit_rate_from_spec(args.rate@))
        } else {
            crate::metadata::MDFType::CMV40(edit_rate_from_spec(args.rate@))
        }))
        &&& (match t.plugin_node.dv_global_data.target_displays {
            Some(ds) => ds@.len() > 0 && (forall|a: int, b: int|
                0 <= a <= b < ds@.len() ==> (#[trigger] ds@[a]).id <= (#[trigger] ds@[b]).id) && (
            forall|a: int, b: int|
                0 <= a < b < ds@.len() ==> (#[trigger] ds@[a]).id != (#[trigger] ds@[b]).id),
            None => true,
        })
    })
    &&& ({
        let has11 = out.level11 is Some;
        let version = version_of_spec(
            if has11 {
                crate::metadata::XMLVersion::V510
            } else {
                crate::metadata::XMLVersion::V402
            },
        );
        out.mdf.version == version && out.mdf.xmlns@ == crate::metadata::dolby_xmlns_spec(version)
    })
    &&& ({
        let o = out.mdf.outputs.outputs@[0];
        match out.level5 {
            Some(l5) => o.canvas_aspect_ratio_bits == crate::metadata::mdf_inner_spec(
                l5.aspect_ratio,
            ).canvas_ar_bits && o.image_aspect_ratio_bits == crate::metadata::mdf_inner_spec(
                l5.aspect_ratio,
            ).image_ar_bits,
            None => true,
        }
    })
}

impl Converter {
    /// Runs the whole conversion: validates the configuration, folds the
    /// frame stream into shots, aggregates the track-level statistics,
    /// strips the duplicated values, and assembles the document.
    ///
    /// Succeeds exactly when the configuration is acceptable: a nonzero
    /// frame count, a skip below it, a two-part nonzero canvas size, and
    /// a frame rate of at most two nonzero parts.
    #[verifier::loop_isolation(false)]
    #[verifier::rlimit(100)]
    pub fn convert(args: &ConvertArgs, frames: &Vec<FrameRecord>) -> (r: Result<
        ConvertOutcome,
        ConvertError,
    >)
        requires
            records_wf(frames@),
            args.skip + args.offset + frames@.len() < usize::MAX,
            (args.count matches Some(c) ==> c + args.skip < usize::MAX),
        ensures
            r is Ok <==> {
                &&& args.count != Some(0usize)
                &&& (args.count matches Some(c) ==> args.skip < c)
                &&& args.size@.len() == 2
                &&& (args.size@.len() == 2 ==> args.size@[0] != 0 && args.size@[1] != 0)
                &&& args.rate@.len() <= 2
                &&& edit_rate_from_spec(args.rate@).n != 0
                &&& edit_rate_from_spec(args.rate@).d != 0
            },
            r matches Ok(out) ==> convert_outcome_ok(out, *args, frames@),
    {
        if args.count.is_some() && args.count.unwrap() == 0 {
            return Err(ConvertError::InvalidFrameCount);
        }
        match args.count {
            Some(c) => if !(args.skip < c) {
                return Err(ConvertError::InvalidSkip);
            },
            None => {},
        }
        if args.size.len() != 2 {
            return Err(ConvertError::InvalidCanvas);
        }
        if args.size[0] == 0 || args.size[1] == 0 {
            return Err(ConvertError::InvalidCanvas);
        }
        if args.rate.len() > 2 {
            return Err(ConvertError::InvalidRate);
        }
        let rate = EditRate::from_vec(&args.rate);
        match rate.validate() {
            Ok(()) => {},
            Err(e) => {
                return Err(e);
            },
        }
        let ghost cfg = cfg_of(*args, frames@.len() as int);
        let ghost m = fold_model(frames@, frames@.len() as int, cfg);
        proof {
            lemma_fold_model_wf(frames@, frames@.len() as int, cfg);
        }
        let outcome = Converter::fold_frames(args, rate, frames);
        let FoldOutcome { shots, track, targets, preroll_invalid, mid_invalid, count_clamped } =
            outcome;
        let ghost unreduced = shots@;
        proof {
            assert forall|i: int| 0 <= i < shots@.len() implies shot_frames_len(
                #[trigger] shots@[i],
            ) <= shots@[i].record.duration by {
                assert(shot_matches_model(shots@[i], m.shots[i], frames@, args.canvas_ar));
                lemma_override_count_within(m.shots[i]);
                if m.shots[i].overrides.len() > 0 {
                    assert(shot_frames_len(shots@[i]) == m.shots[i].overrides.len());
                }
            }
            lemma_sum_rec_matches(shots@, m.shots, frames@, args.canvas_ar);
            if m.shots.len() > 0 {
                lemma_sum_durs_bounds(m.shots);
            }
        }
        let level5 = Converter::get_common_level5(&shots, args.canvas_ar);
        let level11 = Converter::get_common_level11(&shots);
        let reduced = Converter::strip_common(shots, &level5);
        let mut track = match track {
            Some(t) => t,
            None => Track::default_value(),
        };
        let uses_legacy_dialect = track.plugin_node.level254.is_none();
        if targets.len() > 0 {
            let sorted = crate::cmv40::sort_characteristics_by_id(targets);
            track.plugin_node.dv_global_data.target_displays = Some(sorted);
        }
        track.shots = Some(reduced);
        track.plugin_node.level11 = level11;
        let output = Output::with_level5(track, &level5);
        let ghost out_pre = output;
        let mdf = match DolbyLabsMDF::with_single_output(output) {
            Ok(mdf) => mdf,
            Err(e) => {
                return Err(e);
            },
        };
        proof {
            let t_old = out_pre.video.tracks@[0];
            let t_new = mdf.outputs.outputs@[0].video.tracks@[0];
            match (t_old.plugin_node.dv_global_data.target_displays,
                t_new.plugin_node.dv_global_data.target_displays) {
                (Option::Some(ds_old), Option::Some(ds_new)) => {
                    assert(forall|i: int|
                        0 <= i < ds_new@.len() ==> (#[trigger] ds_new@[i]).id == ds_old@[i].id);
                },
                _ => {},
            }
        }
        Ok(
            ConvertOutcome {
                mdf,
                uses_legacy_dialect,
                level5,
                level11,
                preroll_invalid,
                mid_invalid,
                count_clamped,
                unreduced: Ghost(unreduced),
            },
        )
    }
}

} // verus!
