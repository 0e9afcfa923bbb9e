use sermon::channels::convert_channels_interleaved;
use sermon::devices::{asio_format_name, wasapi_format_name};

#[test]
fn mono_to_stereo_duplicates() {
    let out = convert_channels_interleaved(&[1, 2, 3], 1, 2, 0);
    assert_eq!(out, vec![1, 1, 2, 2, 3, 3]);
}

#[test]
fn stereo_to_mono_keeps_left() {
    let out = convert_channels_interleaved(&[1, 2, 3, 4, 5], 2, 1, 0);
    assert_eq!(out, vec![1, 3]);
}

#[test]
fn stereo_to_quad_pads_silence() {
    let out = convert_channels_interleaved(&[1, 2, 3, 4], 2, 4, 0);
    assert_eq!(out, vec![1, 2, 0, 0, 3, 4, 0, 0]);
}

#[test]
fn zero_channels_give_nothing() {
    assert!(convert_channels_interleaved(&[1, 2], 0, 2, 0).is_empty());
    assert!(convert_channels_interleaved(&[1, 2], 2, 0, 0).is_empty());
    assert!(convert_channels_interleaved(&[1], 2, 2, 0).is_empty());
}

#[test]
fn float_samples() {
    let out = convert_channels_interleaved(&[0.5f32, -0.25], 1, 2, 0.0);
    assert_eq!(out, vec![0.5, 0.5, -0.25, -0.25]);
}

#[test]
fn format_names() {
    assert_eq!(wasapi_format_name(16), "int16");
    assert_eq!(wasapi_format_name(24), "int24");
    assert_eq!(wasapi_format_name(32), "float32");
    assert_eq!(wasapi_format_name(8), "unknown");
    assert_eq!(asio_format_name(32, 24), "int32lsb24");
    assert_eq!(asio_format_name(32, 32), "float32");
    assert_eq!(asio_format_name(24, 24), "int24");
    assert_eq!(asio_format_name(16, 16), "int16");
    assert_eq!(asio_format_name(24, 20), "int24v20");
}
