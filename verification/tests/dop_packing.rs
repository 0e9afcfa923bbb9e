use sermon::dop::rates;
use sermon::dop::{
    dop_sample_rate, marker_for_frame, pack_dop_sample, DopPacker, DOP_MARKER_A, DOP_MARKER_B,
};

#[test]
fn test_pack_dop_sample() {
    let sample = pack_dop_sample(0x11, 0x22, 0x05);
    assert_eq!(sample, 0x00_05_22_11);

    let sample = pack_dop_sample(0xAB, 0xCD, 0xFA);
    assert_eq!(sample, 0x00_FA_CD_AB);
}

#[test]
fn test_marker_alternation() {
    assert_eq!(marker_for_frame(0), DOP_MARKER_A);
    assert_eq!(marker_for_frame(1), DOP_MARKER_B);
    assert_eq!(marker_for_frame(2), DOP_MARKER_A);
    assert_eq!(marker_for_frame(3), DOP_MARKER_B);
    assert_eq!(marker_for_frame(100), DOP_MARKER_A);
    assert_eq!(marker_for_frame(101), DOP_MARKER_B);
}

#[test]
fn test_required_vector() {
    let input = [0x11u8, 0x22, 0x33, 0x44, 0x55, 0x66, 0x77, 0x88];
    let mut packer = DopPacker::new(2);
    let output = packer.pack(&input);

    assert_eq!(output.len(), 4);
    assert_eq!(output[0], 0x051133, "Left frame 0");
    assert_eq!(output[1], 0x052244, "Right frame 0");
    assert_eq!(output[2], 0xFA5577, "Left frame 1");
    assert_eq!(output[3], 0xFA6688, "Right frame 1");
}

#[test]
fn test_dop_sample_rates() {
    assert_eq!(dop_sample_rate(rates::DSD64), 176_400);
    assert_eq!(dop_sample_rate(rates::DSD128), 352_800);
    assert_eq!(dop_sample_rate(rates::DSD256), 705_600);
}

#[test]
fn test_packer_reset() {
    let mut packer = DopPacker::new(2);
    let input = [0x11u8, 0x22, 0x33, 0x44];

    let _ = packer.pack(&input);
    assert_eq!(packer.frame_index(), 1);

    packer.reset();
    assert_eq!(packer.frame_index(), 0);
}

#[test]
fn test_pack_ignores_incomplete_trailing_frame() {
    let mut packer = DopPacker::new(2);
    let input = [0x10u8, 0x20, 0x30, 0x40, 0x50, 0x60];

    let output = packer.pack(&input);

    assert_eq!(output.len(), 2);
    assert_eq!(output[0], 0x051030);
    assert_eq!(output[1], 0x052040);
    assert_eq!(packer.frame_index(), 1);
}

#[test]
fn test_pack_marker_continues_across_multiple_calls() {
    let mut packer = DopPacker::new(2);

    let first = packer.pack(&[0x11u8, 0x22, 0x33, 0x44]);
    let second = packer.pack(&[0x55u8, 0x66, 0x77, 0x88]);

    assert_eq!(first, vec![0x051133, 0x052244]);
    assert_eq!(second, vec![0xFA5577, 0xFA6688]);
    assert_eq!(packer.frame_index(), 2);
}

#[test]
fn test_dop_sample_rate_non_multiple_of_16_truncates() {
    assert_eq!(dop_sample_rate(2_822_401), 176_400);
}

#[test]
fn split_packing_equals_packing_at_once() {
    let bytes: Vec<u8> = (0u8..24).collect();
    let mut whole = DopPacker::new(2);
    let all = whole.pack(&bytes);

    let mut parts = DopPacker::new(2);
    let mut joined = parts.pack(&bytes[..8]);
    joined.extend(parts.pack(&bytes[8..]));

    assert_eq!(all, joined);
    assert_eq!(whole.frame_index(), parts.frame_index());
}

#[test]
fn mono_packing_uses_consecutive_bytes() {
    let mut packer = DopPacker::new(1);
    let out = packer.pack(&[0x01, 0x02, 0x03, 0x04, 0x05]);
    assert_eq!(out, vec![0x050102, 0xFA0304]);
    assert_eq!(packer.frame_index(), 2);
}

#[test]
fn dop_rates_are_a_sixteenth() {
    assert_eq!(dop_sample_rate(rates::DSD64), rates::DOP_DSD64);
    assert_eq!(dop_sample_rate(rates::DSD128), rates::DOP_DSD128);
    assert_eq!(dop_sample_rate(rates::DSD256), rates::DOP_DSD256);
    assert_eq!(dop_sample_rate(rates::DSD512), 1_411_200);
}
