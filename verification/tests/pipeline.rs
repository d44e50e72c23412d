use dovi_meta::cmv40::EditRate;
use dovi_meta::convert::{ConvertArgs, Converter};
use dovi_meta::levels::AspectRatio;
use dovi_meta::rpu::{FrameData, FrameRecord};
use dovi_meta::ConvertError;

fn canvas_ar() -> AspectRatio {
    let c = (3840.0f32 / 2160.0f32).to_bits();
    AspectRatio {
        canvas_ar_bits: c,
        image_ar_bits: c,
        ratio_bits: 1.0f32.to_bits(),
    }
}

fn plain_frame(scene_refresh: bool) -> FrameData {
    FrameData {
        scene_refresh,
        source_max_pq: 3696,
        source_max_pq_nits: 4000,
        level1: None,
        level2: Vec::new(),
        level3: None,
        level5: None,
        level6: None,
        level8: Vec::new(),
        level9: None,
        level10: Vec::new(),
        level11: None,
        level254: None,
        source_primaries: dovi_meta::display::default_primaries(),
        source_primary_matched: Some(0),
    }
}

fn plain_args() -> ConvertArgs {
    ConvertArgs {
        size: vec![3840, 2160],
        rate: vec![24000, 1001],
        use_level6: false,
        drop_per_frame: false,
        skip: 0,
        count: None,
        keep_offset: false,
        offset: 0,
        canvas_ar: canvas_ar(),
    }
}

#[test]
fn end_to_end_two_shots_with_invalid_frame() {
    // Ten frames, scene refreshes at 0 and 4, frame 7 invalid.
    let mut frames = Vec::new();
    for i in 0..10usize {
        if i == 7 {
            frames.push(FrameRecord::Invalid);
        } else {
            frames.push(FrameRecord::Valid(plain_frame(i == 0 || i == 4)));
        }
    }
    let out = Converter::convert(&plain_args(), &frames).unwrap();
    assert_eq!(out.preroll_invalid, 0);
    assert_eq!(out.mid_invalid, 1);
    let track = &out.mdf.outputs.outputs[0].video.tracks[0];
    let shots = track.shots.as_ref().unwrap();
    assert_eq!(shots.len(), 2);
    assert_eq!(shots[0].record.in_, 0);
    assert_eq!(shots[0].record.duration, 4);
    assert_eq!(shots[1].record.in_, 4);
    assert_eq!(shots[1].record.duration, 6);
    // Identical instants diverge nowhere: no override lists.
    assert!(shots[0].frames.is_none());
    assert!(shots[1].frames.is_none());
}

#[test]
fn durations_sum_to_consumed_instants() {
    let mut frames = Vec::new();
    for i in 0..25usize {
        if i % 9 == 3 {
            frames.push(FrameRecord::Invalid);
        } else {
            frames.push(FrameRecord::Valid(plain_frame(i % 7 == 0)));
        }
    }
    let out = Converter::convert(&plain_args(), &frames).unwrap();
    let track = &out.mdf.outputs.outputs[0].video.tracks[0];
    let shots = track.shots.as_ref().unwrap();
    let total: usize = shots.iter().map(|s| s.record.duration).sum();
    // Every record is consumed here: valid ones and repaired invalid ones.
    assert_eq!(total, 25);
    // Records abut without gap or overlap.
    for w in shots.windows(2) {
        assert_eq!(w[0].record.in_ + w[0].record.duration, w[1].record.in_);
    }
}

#[test]
fn preroll_invalid_frames_are_reported_not_consumed() {
    let mut frames = Vec::new();
    frames.push(FrameRecord::Invalid);
    frames.push(FrameRecord::Invalid);
    frames.push(FrameRecord::Valid(plain_frame(true)));
    frames.push(FrameRecord::Valid(plain_frame(false)));
    let out = Converter::convert(&plain_args(), &frames).unwrap();
    assert_eq!(out.preroll_invalid, 2);
    assert_eq!(out.mid_invalid, 0);
    let track = &out.mdf.outputs.outputs[0].video.tracks[0];
    let shots = track.shots.as_ref().unwrap();
    assert_eq!(shots.len(), 1);
    assert_eq!(shots[0].record.duration, 2);
}

#[test]
fn zero_frame_count_is_rejected() {
    let mut args = plain_args();
    args.count = Some(0);
    match Converter::convert(&args, &Vec::new()) {
        Err(e) => assert_eq!(e, ConvertError::InvalidFrameCount),
        Ok(_) => panic!("a zero frame count must be rejected"),
    }
}

#[test]
fn skip_at_or_past_count_is_rejected() {
    let mut args = plain_args();
    args.count = Some(5);
    args.skip = 5;
    match Converter::convert(&args, &Vec::new()) {
        Err(e) => assert_eq!(e, ConvertError::InvalidSkip),
        Ok(_) => panic!("a skip at the frame count must be rejected"),
    }
}

#[test]
fn bad_canvas_is_rejected() {
    let mut args = plain_args();
    args.size = vec![3840];
    match Converter::convert(&args, &Vec::new()) {
        Err(e) => assert_eq!(e, ConvertError::InvalidCanvas),
        Ok(_) => panic!("a one-part canvas size must be rejected"),
    }
    let mut args = plain_args();
    args.size = vec![3840, 0];
    match Converter::convert(&args, &Vec::new()) {
        Err(e) => assert_eq!(e, ConvertError::InvalidCanvas),
        Ok(_) => panic!("a zero canvas dimension must be rejected"),
    }
}

#[test]
fn zero_rate_is_rejected() {
    let mut args = plain_args();
    args.rate = vec![0, 1001];
    match Converter::convert(&args, &Vec::new()) {
        Err(e) => assert_eq!(e, ConvertError::InvalidRate),
        Ok(_) => panic!("a zero-part rate must be rejected"),
    }
}

#[test]
fn empty_input_yields_empty_shot_list() {
    let out = Converter::convert(&plain_args(), &Vec::new()).unwrap();
    let track = &out.mdf.outputs.outputs[0].video.tracks[0];
    assert_eq!(track.shots.as_ref().unwrap().len(), 0);
    assert!(out.uses_legacy_dialect);
}

#[test]
fn skip_drops_leading_valid_frames() {
    let mut frames = Vec::new();
    for i in 0..8usize {
        frames.push(FrameRecord::Valid(plain_frame(i == 2)));
    }
    let mut args = plain_args();
    args.skip = 2;
    let out = Converter::convert(&args, &frames).unwrap();
    let track = &out.mdf.outputs.outputs[0].video.tracks[0];
    let shots = track.shots.as_ref().unwrap();
    assert_eq!(shots.len(), 1);
    assert_eq!(shots[0].record.in_, 0);
    assert_eq!(shots[0].record.duration, 6);
}

#[test]
fn reduction_is_idempotent_on_reduced_shots() {
    let mut frames = Vec::new();
    for i in 0..6usize {
        frames.push(FrameRecord::Valid(plain_frame(i == 0 || i == 3)));
    }
    let out = Converter::convert(&plain_args(), &frames).unwrap();
    let mut outputs = out.mdf.outputs.outputs;
    let track = outputs.remove(0).video.tracks.remove(0);
    let shots = track.shots.unwrap();
    // Already reduced: every aspect-ratio and content-type value inherits.
    for s in shots.iter() {
        assert!(s.plugin_node.dv_dynamic_data.level5.is_none());
        assert!(s.plugin_node.level11.is_none());
    }
    let records: Vec<_> = shots.iter().map(|s| s.record).collect();
    let again5 = Converter::get_common_level5(&shots, canvas_ar());
    let again11 = Converter::get_common_level11(&shots);
    // No explicit value is left, so the canvas fallback is re-selected
    // and no content type is chosen.
    assert_eq!(
        again5,
        Some(dovi_meta::levels::Level5 {
            level: 5,
            aspect_ratio: dovi_meta::metadata::MDFType::CMV40(canvas_ar()),
        })
    );
    assert!(again11.is_none());
    let reduced = Converter::strip_common(shots, &again5);
    assert_eq!(reduced.len(), records.len());
    for (s, r) in reduced.iter().zip(records.iter()) {
        assert_eq!(&s.record, r);
        assert!(s.plugin_node.dv_dynamic_data.level5.is_none());
        assert!(s.plugin_node.level11.is_none());
    }
}

#[test]
fn legacy_conversion_links_shots_to_one_source() {
    let mut frames = Vec::new();
    for i in 0..6usize {
        frames.push(FrameRecord::Valid(plain_frame(i % 2 == 0)));
    }
    let out = Converter::convert(&plain_args(), &frames).unwrap();
    assert!(out.uses_legacy_dialect);
    let legacy = dovi_meta::cmv29::DolbyLabsMDF::from_cmv40(out.mdf);
    assert_eq!(
        legacy.version,
        dovi_meta::metadata::Version {
            major: 2,
            minor: 0,
            revision: 5
        }
    );
    let outputs = legacy.outputs.unwrap().outputs.unwrap();
    let sources = legacy.source_list.unwrap().sources.unwrap();
    assert_eq!(sources.len(), 1);
    assert_eq!(sources[0].in_, 0);
    // The last shot ends at frame 6, so the source spans six frames.
    assert_eq!(sources[0].duration, 6);
    let track = &outputs[0].video.tracks[0];
    let shots = track.shots.as_ref().unwrap();
    assert_eq!(shots.len(), 3);
    for s in shots.iter() {
        assert_eq!(s.source.parent_id.0, sources[0].unique_id.0);
        assert_eq!(s.source.in_, 0);
    }
    // The legacy color encoding gains the fixed fills.
    assert_eq!(track.color_encoding.bit_depth, 16);
    assert_eq!(track.color_encoding.chroma_format, "444");
}

#[test]
fn edit_rate_validation() {
    let rate = EditRate::from_vec(&vec![24000, 1001]);
    assert!(rate.validate().is_ok());
    let zero = EditRate::from_vec(&vec![0]);
    assert!(zero.validate().is_err());
    let single = EditRate::from_vec(&vec![25]);
    assert_eq!(single.d, 1);
}

#[test]
fn version_marker_selects_current_dialect() {
    let mut fd = plain_frame(true);
    fd.level254 = Some(dovi_meta::rpu::Level254In {
        dm_mode: 0,
        dm_version_index: 1,
    });
    let frames = vec![
        FrameRecord::Valid(fd),
        FrameRecord::Valid(plain_frame(false)),
    ];
    let out = Converter::convert(&plain_args(), &frames).unwrap();
    assert!(!out.uses_legacy_dialect);
    let track = &out.mdf.outputs.outputs[0].video.tracks[0];
    let l254 = track.plugin_node.level254.as_ref().unwrap();
    assert_eq!(l254.dm_version, 1);
    assert_eq!(l254.cm_version, "4 1");
}
