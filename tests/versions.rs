use material_updater::archive::{
    classify_entry, input_kind, ArchiveTally, EncodeResult, EntryKind, EntryVerdict, InputKind,
};
use material_updater::pipeline::read_material;
use material_updater::version::{format_in_priority, BinaryFormat, LightmapFix, MVersion};

#[test]
fn versions_map_to_binary_formats() {
    assert_eq!(MVersion::V26_10_20.as_version(), BinaryFormat::V1_21_110);
    assert_eq!(MVersion::V1_21_110.as_version(), BinaryFormat::V1_21_110);
    assert_eq!(MVersion::V1_21_20.as_version(), BinaryFormat::V1_20_80);
    assert_eq!(MVersion::V1_20_80.as_version(), BinaryFormat::V1_21_20);
    assert_eq!(MVersion::V1_19_60.as_version(), BinaryFormat::V1_19_60);
    assert_eq!(MVersion::V1_18_30.as_version(), BinaryFormat::V1_18_30);
    assert_eq!(MVersion::latest_preview(), MVersion::V26_10_20);
    assert_eq!(BinaryFormat::V1_21_110.label(), "1.21.110");
}

#[test]
fn only_two_releases_need_a_fix() {
    assert_eq!(MVersion::V26_10_20.lightmap_fix(), Some(LightmapFix::PackedY));
    assert_eq!(MVersion::V1_21_110.lightmap_fix(), Some(LightmapFix::PackedX));
    assert_eq!(MVersion::V1_21_20.lightmap_fix(), None);
    assert_eq!(MVersion::V1_18_30.lightmap_fix(), None);
}

#[test]
fn decoder_takes_first_layout_that_parses() {
    let accepts = [BinaryFormat::V1_20_80, BinaryFormat::V1_19_60];
    let parse = |f: BinaryFormat| if accepts.contains(&f) { Some(f) } else { None };
    for _ in 0..3 {
        assert_eq!(read_material(parse), Some((BinaryFormat::V1_20_80, BinaryFormat::V1_20_80)));
    }
    assert_eq!(read_material(|_f: BinaryFormat| None::<u8>), None);
    assert_eq!(format_in_priority(0), BinaryFormat::V1_21_110);
    assert_eq!(format_in_priority(4), BinaryFormat::V1_18_30);
}

#[test]
fn non_material_entries_pass_through() {
    assert_eq!(classify_entry("textures/texture.png"), EntryKind::PassThrough);
    assert_eq!(classify_entry("renderer/materials/RenderChunk.material.bin"), EntryKind::Material);
    assert_eq!(classify_entry("material.bin"), EntryKind::PassThrough);
    assert_eq!(classify_entry(""), EntryKind::PassThrough);
}

#[test]
fn input_kind_by_suffix() {
    assert_eq!(input_kind("a.material.bin"), Some(InputKind::Asset));
    assert_eq!(input_kind("pack.zip"), Some(InputKind::Archive));
    assert_eq!(input_kind("pack.mcpack"), Some(InputKind::Archive));
    assert_eq!(input_kind("pack.rar"), None);
}

#[test]
fn compatibility_failures_are_counted_and_dropped() {
    let results = [
        EncodeResult::Written,
        EncodeResult::Incompatible,
        EncodeResult::Written,
        EncodeResult::Incompatible,
        EncodeResult::Written,
    ];
    let mut tally = ArchiveTally::new();
    let mut kept: u32 = 0;
    for r in results {
        assert!(tally.has_room());
        match tally.record(r) {
            EntryVerdict::Keep => kept += 1,
            EntryVerdict::Discard => {}
            EntryVerdict::Abort => panic!("unexpected abort"),
        }
    }
    assert_eq!(tally.translated, 3);
    assert_eq!(tally.warnings, 2);
    assert_eq!(kept, 3);
}

#[test]
fn other_encode_failure_aborts() {
    let mut tally = ArchiveTally::new();
    assert_eq!(tally.record(EncodeResult::Failed), EntryVerdict::Abort);
    assert_eq!(tally.translated, 0);
    assert_eq!(tally.warnings, 0);
}

#[test]
fn tally_room_runs_out_at_the_limit() {
    let t = ArchiveTally { translated: u64::MAX - 1, warnings: 1 };
    assert!(!t.has_room());
}
