use dovi_meta::cmv40::EditRate;
use dovi_meta::edl::{
    build_edl_chunks, chunk_file_name, parse_start_timecode, timebase_of, EdlConverter,
};
use dovi_meta::rpu::{FrameData, FrameRecord};

fn bare_frame(scene_refresh: bool) -> FrameData {
    FrameData {
        scene_refresh,
        source_max_pq: 0,
        source_max_pq_nits: 0,
        level1: None,
        level2: Vec::new(),
        level3: None,
        level5: None,
        level6: None,
        level8: Vec::new(),
        level9: None,
        level10: Vec::new(),
        level11: None,
        level254: None,
        source_primaries: dovi_meta::display::default_primaries(),
        source_primary_matched: Some(0),
    }
}

#[test]
fn scan_collects_scene_cuts() {
    let frames = vec![
        FrameRecord::Valid(bare_frame(true)),
        FrameRecord::Valid(bare_frame(false)),
        FrameRecord::Invalid,
        FrameRecord::Valid(bare_frame(true)),
        FrameRecord::Valid(bare_frame(false)),
    ];
    let scan = EdlConverter::scan(&frames, 0, None);
    assert_eq!(scan.frame_index, 5);
    assert_eq!(scan.shots, vec![0, 3]);
}

#[test]
fn confirmation_gate_blocks_per_frame_cuts() {
    let frames: Vec<FrameRecord> = (0..4).map(|_| FrameRecord::Valid(bare_frame(true))).collect();
    let scan = EdlConverter::scan(&frames, 0, None);
    assert_eq!(scan.shots.len(), scan.frame_index);
    assert!(scan.needs_confirmation(false));
    assert!(!scan.needs_confirmation(true));
    // A single frame never triggers it.
    let one = EdlConverter::scan(&frames[..1].to_vec(), 0, None);
    assert!(!one.needs_confirmation(false));
}

#[test]
fn timebase_rules() {
    assert_eq!(timebase_of(&EditRate { n: 24000, d: 1001 }).unwrap(), 24);
    assert_eq!(timebase_of(&EditRate { n: 30000, d: 1001 }).unwrap(), 30);
    assert_eq!(timebase_of(&EditRate { n: 24, d: 1 }).unwrap(), 24);
    assert!(timebase_of(&EditRate { n: 48, d: 2 }).is_err());
}

#[test]
fn single_chunk_text_is_exact() {
    let cuts: Vec<u64> = vec![5];
    let chunks = build_edl_chunks(&cuts, 10, 86400, 24, "clip", "movie");
    assert_eq!(chunks.len(), 1);
    let mut expected = String::new();
    expected.push_str("TITLE: Timeline movie 0\r\nFCM: NON-DROP FRAME\r\n\r\n");
    expected.push_str("0000  AX       V     C        ");
    expected.push_str("00:00:00:00 00:00:00:05 01:00:00:00 01:00:00:05  \r\n");
    expected.push_str("* FROM CLIP NAME: clip\r\n\r\n");
    expected.push_str("0001  AX       V     C        ");
    expected.push_str("00:00:00:05 00:00:00:05 01:00:00:05 01:00:00:10  \r\n");
    expected.push_str("* FROM CLIP NAME: clip\r\n\r\n");
    assert_eq!(chunks[0], expected);
}

#[test]
fn chunking_25000_cuts_into_three_files() {
    // 24999 cut positions starting at frame 0, closed by the total of
    // 25000 frames: a 25000-entry cut list.
    let cuts: Vec<u64> = (0..24999).collect();
    let chunks = build_edl_chunks(&cuts, 25000, 0, 24, "c", "s");
    assert_eq!(chunks.len(), 3);
    let events = |s: &str| s.matches("* FROM CLIP NAME").count();
    // The cut at frame 0 starts no event.
    assert_eq!(events(&chunks[0]), 9998);
    assert_eq!(events(&chunks[1]), 9999);
    // The last file holds exactly 25000 - 2 * 9999 entries.
    assert_eq!(events(&chunks[2]), 5002);
}

#[test]
fn start_timecode_parsing() {
    assert_eq!(parse_start_timecode("01:00:00:00", 24), Some(86400));
    assert_eq!(parse_start_timecode("00:00:01:10", 24), Some(34));
    assert_eq!(parse_start_timecode("86400", 24), Some(86400));
    assert_eq!(parse_start_timecode("0", 24), Some(0));
    assert_eq!(parse_start_timecode("bogus", 24), None);
    assert_eq!(parse_start_timecode("", 24), None);
    assert_eq!(parse_start_timecode("1:0:0:0", 24), None);
}

#[test]
fn chunk_file_names_carry_suffix_before_extension() {
    assert_eq!(chunk_file_name("out", "edl", 0), "out_0.edl");
    assert_eq!(chunk_file_name("metadata", "edl", 12), "metadata_12.edl");
}

#[test]
fn skip_and_count_window_the_scan() {
    let mut frames = Vec::new();
    for i in 0..10usize {
        frames.push(FrameRecord::Valid(bare_frame(i % 2 == 0)));
    }
    let scan = EdlConverter::scan(&frames, 2, Some(4));
    assert_eq!(scan.frame_index, 4);
    // Positions are relative to the skip point: frames 2..6, cuts at 2, 4.
    assert_eq!(scan.shots, vec![0, 2]);
}
