use sermon::devices::AsioDriverInfo;
use sermon::dop::{DopPacker, DOP_MARKER_A, DOP_MARKER_B};
use sermon::sample_ring::DopRingBuffer;

#[test]
fn test_dop_through_asio_preserves_markers() {
    let dop_samples: Vec<u32> = vec![0x00_05_11_22, 0x00_05_33_44, 0x00_FA_55_66, 0x00_FA_77_88];

    for &dop_sample in &dop_samples {
        let marker = ((dop_sample >> 16) & 0xFF) as u8;
        assert!(
            marker == DOP_MARKER_A || marker == DOP_MARKER_B,
            "Input marker {:#04x} should be 0x05 or 0xFA",
            marker
        );

        let i32_sample = (dop_sample << 8) as i32;
        let f32_sample = (i32_sample as f32) / 2147483648.0;

        let recovered_i32 = (f32_sample * 2147483648.0) as i32;
        let recovered_u32 = (recovered_i32 as u32) >> 8;

        let recovered_marker = ((recovered_u32 >> 16) & 0xFF) as u8;
        assert_eq!(
            recovered_marker, marker,
            "Marker mismatch: expected {:#04x}, got {:#04x}",
            marker, recovered_marker
        );

        let original_dsd = dop_sample & 0xFFFF;
        let recovered_dsd = recovered_u32 & 0xFFFF;
        assert_eq!(
            recovered_dsd, original_dsd,
            "DSD bytes mismatch: expected {:#06x}, got {:#06x}",
            original_dsd, recovered_dsd
        );
    }
}

#[test]
fn dop_ring_buffer_keeps_packed_words() {
    let dsd: Vec<u8> = (0..16u8).map(|i| i.wrapping_mul(17)).collect();
    let mut packer = DopPacker::new(2);
    let packed = packer.pack(&dsd);

    let mut ring = DopRingBuffer::new(176_400, 2, 100);
    ring.push(&packed);
    assert_eq!(ring.available_frames(), packed.len() / 2);
    let out = ring.pop(packed.len());
    assert_eq!(out, packed);
    assert_eq!(ring.available_frames(), 0);
}

#[test]
fn test_asio_driver_info_debug() {
    let info = AsioDriverInfo { name: "Test Driver".to_string() };
    let debug = format!("{:?}", info);
    assert!(debug.contains("Test Driver"));
}

#[test]
fn test_asio_driver_info_clone() {
    let info = AsioDriverInfo { name: "Test Driver".to_string() };
    let cloned = info.clone();
    assert_eq!(info.name, cloned.name);
}
