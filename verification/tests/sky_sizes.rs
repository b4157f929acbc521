use ferrum::sky::{
    cube_face_size_for_source, face_size_or_default, source_bytes_per_row, workgroups_per_side,
    SkyFormat, TEXEL_BYTES, WORKGROUP_EDGE,
};

fn reference(width: u32) -> u32 {
    let target: u32 = width.max(64) / 6;
    1u32 << (31 - target.leading_zeros())
}

#[test]
fn face_sizes_of_common_sources() {
    assert_eq!(cube_face_size_for_source(16384), 2048);
    assert_eq!(cube_face_size_for_source(4096), 512);
    assert_eq!(cube_face_size_for_source(2048), 256);
    assert_eq!(cube_face_size_for_source(0), 8);
    assert_eq!(cube_face_size_for_source(64), 8);
    assert_eq!(cube_face_size_for_source(96), 16);
    assert_eq!(cube_face_size_for_source(u32::MAX), 1 << 29);
}

#[test]
fn face_size_matches_the_bit_formula() {
    let mut w: u32 = 0;
    while w < 200_000 {
        assert_eq!(cube_face_size_for_source(w), reference(w));
        w += 7;
    }
    for w in [u32::MAX - 1, 1 << 31, (1 << 31) - 1, 3 << 20] {
        assert_eq!(cube_face_size_for_source(w), reference(w));
    }
}

#[test]
fn face_size_is_monotone() {
    let mut prev = 0;
    let mut w: u32 = 0;
    while w < 100_000 {
        let s = cube_face_size_for_source(w);
        assert!(s >= prev);
        assert!(s.is_power_of_two());
        prev = s;
        w += 13;
    }
}

#[test]
fn requested_face_size_wins() {
    assert_eq!(face_size_or_default(Some(100), 16384), 100);
    assert_eq!(face_size_or_default(None, 16384), 2048);
}

#[test]
fn workgroups_round_up() {
    assert_eq!(WORKGROUP_EDGE, 16);
    assert_eq!(workgroups_per_side(512), 32);
    assert_eq!(workgroups_per_side(513), 33);
    assert_eq!(workgroups_per_side(1), 1);
    assert_eq!(workgroups_per_side(0), 0);
    assert_eq!(workgroups_per_side(u32::MAX), u32::MAX.div_ceil(16));
}

#[test]
fn row_pitch_of_rgba32f() {
    assert_eq!(TEXEL_BYTES, 16);
    assert_eq!(source_bytes_per_row(16384), 262144);
}

#[test]
fn sky_formats_differ() {
    assert_ne!(SkyFormat::Hdr, SkyFormat::Exr);
}
