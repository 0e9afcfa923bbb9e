use sermon::encoder_delay::{parse_aac_itunes_smpb, parse_mp3_lame_header, EncoderDelay};

#[test]
fn test_encoder_delay_default() {
    let delay = EncoderDelay::default();
    assert_eq!(delay.start_samples, 0);
    assert_eq!(delay.end_samples, 0);
    assert!(!delay.has_trimming());
}

#[test]
fn test_encoder_delay_new() {
    let delay = EncoderDelay::new(576, 1000);
    assert_eq!(delay.start_samples, 576);
    assert_eq!(delay.end_samples, 1000);
    assert!(delay.has_trimming());
}

#[test]
fn test_encoder_delay_has_trimming() {
    assert!(EncoderDelay::new(1, 0).has_trimming());
    assert!(EncoderDelay::new(0, 1).has_trimming());
    assert!(EncoderDelay::new(100, 200).has_trimming());
    assert!(!EncoderDelay::new(0, 0).has_trimming());
}

#[test]
fn test_parse_mp3_lame_header_basic() {
    let mut data = vec![0u8; 100];
    data[0..4].copy_from_slice(b"LAME");
    data[21] = 0x24;
    data[22] = 0x03;
    data[23] = 0xE8;

    let delay = parse_mp3_lame_header(&data).unwrap();
    assert_eq!(delay.start_samples, 576);
    assert_eq!(delay.end_samples, 1000);
}

#[test]
fn test_parse_mp3_lame_header_offset() {
    let mut data = vec![0u8; 200];
    data[36..40].copy_from_slice(b"LAME");
    data[36 + 21] = 0x21;
    data[36 + 22] = 0x12;
    data[36 + 23] = 0xE6;

    let delay = parse_mp3_lame_header(&data).unwrap();
    assert_eq!(delay.start_samples, 529);
    assert_eq!(delay.end_samples, 742);
}

#[test]
fn test_parse_mp3_lame_header_typical_lame_values() {
    let mut data = vec![0u8; 100];
    data[0..4].copy_from_slice(b"LAME");
    data[21] = 0x24;
    data[22] = 0x00;
    data[23] = 0x00;

    let delay = parse_mp3_lame_header(&data).unwrap();
    assert_eq!(delay.start_samples, 576);
    assert_eq!(delay.end_samples, 0);
}

#[test]
fn test_parse_mp3_lame_header_no_signature() {
    let data = vec![0u8; 100];
    assert!(parse_mp3_lame_header(&data).is_none());
}

#[test]
fn test_parse_mp3_lame_header_too_short() {
    let mut data = vec![0u8; 20];
    data[0..4].copy_from_slice(b"LAME");
    assert!(parse_mp3_lame_header(&data).is_none());
}

#[test]
fn test_parse_mp3_lame_header_zero_values_returns_none() {
    let mut data = vec![0u8; 100];
    data[0..4].copy_from_slice(b"LAME");
    data[21] = 0x00;
    data[22] = 0x00;
    data[23] = 0x00;

    assert!(parse_mp3_lame_header(&data).is_none());
}

#[test]
fn test_parse_mp3_lame_header_max_valid_values() {
    let mut data = vec![0u8; 100];
    data[0..4].copy_from_slice(b"LAME");
    data[21] = 0xFF;
    data[22] = 0xFF;
    data[23] = 0xFF;

    let delay = parse_mp3_lame_header(&data).unwrap();
    assert_eq!(delay.start_samples, 4095);
    assert_eq!(delay.end_samples, 4095);
}

#[test]
fn test_parse_aac_itunes_smpb_basic() {
    let smpb = " 00000000 00000A40 000002E8 0000000000123456";
    let delay = parse_aac_itunes_smpb(smpb).unwrap();

    assert_eq!(delay.start_samples, 0x0A40);
    assert_eq!(delay.end_samples, 0x02E8);
}

#[test]
fn test_parse_aac_itunes_smpb_no_leading_space() {
    let smpb = "00000000 00000A40 000002E8 0000000000123456";
    let delay = parse_aac_itunes_smpb(smpb).unwrap();

    assert_eq!(delay.start_samples, 2624);
    assert_eq!(delay.end_samples, 744);
}

#[test]
fn test_parse_aac_itunes_smpb_extra_fields() {
    let smpb = " 00000000 00000400 00000300 0000000000500000 00000000 00000000 00000000 00000000 00000000 00000000 00000000 00000000";
    let delay = parse_aac_itunes_smpb(smpb).unwrap();

    assert_eq!(delay.start_samples, 0x400);
    assert_eq!(delay.end_samples, 0x300);
}

#[test]
fn test_parse_aac_itunes_smpb_typical_itunes_values() {
    let smpb = " 00000000 00000A40 000002D0 0000000001234567";
    let delay = parse_aac_itunes_smpb(smpb).unwrap();

    assert_eq!(delay.start_samples, 2624);
    assert_eq!(delay.end_samples, 720);
}

#[test]
fn test_parse_aac_itunes_smpb_minimum_fields() {
    let smpb = "00000000 00000400 00000200";
    let delay = parse_aac_itunes_smpb(smpb).unwrap();

    assert_eq!(delay.start_samples, 1024);
    assert_eq!(delay.end_samples, 512);
}

#[test]
fn test_parse_aac_itunes_smpb_too_few_fields() {
    let smpb = "00000000 00000A40";
    assert!(parse_aac_itunes_smpb(smpb).is_none());
}

#[test]
fn test_parse_aac_itunes_smpb_invalid_hex() {
    let smpb = "00000000 GGGGGGGG 000002E8 0000000000123456";
    assert!(parse_aac_itunes_smpb(smpb).is_none());
}

#[test]
fn test_parse_aac_itunes_smpb_zero_values() {
    let smpb = "00000000 00000000 00000000 0000000000000000";
    assert!(parse_aac_itunes_smpb(smpb).is_none());
}

#[test]
fn test_parse_aac_itunes_smpb_empty_string() {
    assert!(parse_aac_itunes_smpb("").is_none());
}

#[test]
fn test_parse_aac_itunes_smpb_lowercase_hex() {
    let smpb = " 00000000 00000a40 000002e8 0000000000123456";
    let delay = parse_aac_itunes_smpb(smpb).unwrap();

    assert_eq!(delay.start_samples, 2624);
    assert_eq!(delay.end_samples, 744);
}

#[test]
fn test_encoder_delay_equality() {
    let a = EncoderDelay::new(100, 200);
    let b = EncoderDelay::new(100, 200);
    let c = EncoderDelay::new(100, 300);

    assert_eq!(a, b);
    assert_ne!(a, c);
}

#[test]
fn test_encoder_delay_debug() {
    let delay = EncoderDelay::new(576, 1000);
    let debug_str = format!("{:?}", delay);
    assert!(debug_str.contains("576"));
    assert!(debug_str.contains("1000"));
}

#[test]
fn test_encoder_delay_clone() {
    let delay = EncoderDelay::new(576, 1000);
    let cloned = delay;
    assert_eq!(delay, cloned);
}

#[test]
fn detect_finds_lame_header() {
    let mut data = vec![0u8; 64];
    data[10..14].copy_from_slice(b"LAME");
    data[31] = 0x24;
    data[32] = 0x03;
    data[33] = 0xE8;
    assert_eq!(EncoderDelay::detect(&data), Some(EncoderDelay::new(576, 1000)));
    assert_eq!(EncoderDelay::detect(&[0u8; 64]), None);
}

#[test]
fn smpb_accepts_plus_sign_and_tabs() {
    let delay = parse_aac_itunes_smpb("0\t+A40\n2E8").unwrap();
    assert_eq!(delay, EncoderDelay::new(2624, 744));
}
