use dovi_meta::display::{
    find_target_id, get_display_id, get_index_primary, max_u16_from_rpu_pq_u12, Characteristics,
};
use dovi_meta::levels::{Level2, Level8, TrimSixField};
use dovi_meta::metadata::{
    update_levels, MDFType, Version, WithTid, XMLVersion, UUIDv4,
};
use dovi_meta::rpu::Level2In;

#[test]
fn pq_table_codes_decode_exactly() {
    // The well-known codes bypass the transfer function entirely.
    assert_eq!(max_u16_from_rpu_pq_u12(2081, 12345), 100);
    assert_eq!(max_u16_from_rpu_pq_u12(2851, 0), 600);
    assert_eq!(max_u16_from_rpu_pq_u12(3079, 7), 1000);
    assert_eq!(max_u16_from_rpu_pq_u12(3696, 99999), 4000);
}

#[test]
fn luminance_above_500_snaps_to_50_nit_steps() {
    // 623 nits rounds up to the next 50-nit step.
    assert_eq!(max_u16_from_rpu_pq_u12(3000, 623), 650);
    // Exact multiples still move up one step.
    assert_eq!(max_u16_from_rpu_pq_u12(3000, 650), 700);
    // At or below 500 nits the value passes through.
    assert_eq!(max_u16_from_rpu_pq_u12(3000, 400), 400);
    let v = max_u16_from_rpu_pq_u12(3000, 777);
    assert!(v > 500 && v % 50 == 0);
}

#[test]
fn predefined_display_lookups() {
    assert_eq!(find_target_id(600, 0), Some(27));
    assert_eq!(find_target_id(100, 1), Some(1));
    assert_eq!(find_target_id(123, 5), None);
    assert_eq!(get_display_id(false, 4000, 0), Some(7));
    assert_eq!(get_display_id(false, 4000, 5), None);
}

#[test]
fn display_names_are_derived_from_fields() {
    let row = dovi_meta::display::target_display_row(0);
    let ch = Characteristics::from_row(&row);
    assert_eq!(ch.display_name(), "100-nits, BT.709, BT.1886, Full");
    let source = Characteristics::default_source();
    assert_eq!(source.display_name(), "4000-nits, P3, D65, ST.2084, Full");
}

#[test]
fn primaries_index_bounds() {
    assert!(get_index_primary(0, false).is_some());
    assert!(get_index_primary(18, false).is_some());
    assert!(get_index_primary(19, false).is_none());
    // Target lookups stop after the first nine rows.
    assert!(get_index_primary(9, true).is_none());
    assert!(get_index_primary(8, true).is_some());
}

#[test]
fn xml_versions_and_namespaces() {
    let v = Version::from_xml_version(XMLVersion::V510);
    assert_eq!(v.get_dolby_xmlns(), "http://www.dolby.com/schemas/dvmd/5_1_0");
    assert_eq!(v.to_text(), "5.1.0");
    let v4 = Version::from_xml_version(XMLVersion::V402);
    assert_eq!(v4.get_dolby_xmlns(), "http://www.dolby.com/schemas/dvmd/4_0_2");
    assert!(!v4.above_min_cmv40());
    assert!(v.above_min_cmv40());
}

#[test]
fn level2_target_id_synthesis() {
    let trim = TrimSixField {
        t0: 0,
        t1: 0,
        t2: 0,
        t3: 0,
        t4: 0,
        t5: 0,
    };
    // 600 nits with P3 primaries names predefined target 27.
    let block = Level2In {
        target_max_pq: 2851,
        target_max_pq_nits: 0,
        trim,
    };
    let l2 = Level2::with_primary_index(&block, Some(0));
    assert_eq!(l2.tid, 27);
    // 100 nits forces the BT.709 target whatever the source primaries say.
    let block100 = Level2In {
        target_max_pq: 2081,
        target_max_pq_nits: 0,
        trim,
    };
    assert_eq!(Level2::with_primary_index(&block100, Some(2)).tid, 1);
    // No table row: the raw peak-PQ code becomes the identifier.
    let custom = Level2In {
        target_max_pq: 3000,
        target_max_pq_nits: 333,
        trim,
    };
    assert_eq!(Level2::with_primary_index(&custom, Some(0)).tid, 3000);
}

#[test]
fn update_levels_merges_missing_targets() {
    let mk = |tid: u64| -> Level8 { Level8::with_tid(tid) };
    let mut a = Some(vec![mk(1)]);
    let b = Some(vec![mk(1), mk(27)]);
    update_levels(&mut a, &b);
    let av = a.unwrap();
    assert_eq!(av.len(), 2);
    assert_eq!(av[0].tid(), 1);
    assert_eq!(av[1].tid(), 27);

    let mut none: Option<Vec<Level8>> = None;
    update_levels(&mut none, &b);
    assert_eq!(none.unwrap().len(), 2);

    let mut untouched = Some(vec![mk(5)]);
    update_levels(&mut untouched, &None);
    assert_eq!(untouched.unwrap().len(), 1);
}

#[test]
fn mdf_type_wrapping() {
    let v = MDFType::CMV40(7u64);
    assert_eq!(v.into_inner(), 7);
    let retagged = v.with_new_inner(9u64);
    assert_eq!(retagged.into_inner(), 9);
    assert_eq!(retagged, MDFType::CMV40(9u64));
}

#[test]
fn fresh_identifiers_are_hyphenated_uuids() {
    let id = UUIDv4::new();
    assert_eq!(id.0.len(), 36);
    let nil = UUIDv4::default();
    assert_eq!(nil.0, "00000000-0000-0000-0000-000000000000");
}

#[test]
fn error_messages() {
    assert_eq!(
        dovi_meta::ConvertError::InvalidFrameCount.message(),
        "Invalid specified frame count."
    );
    assert_eq!(
        dovi_meta::ConvertError::UnsupportedRateDenominator.message(),
        "Only /1 or /1001 denom is supported."
    );
}
