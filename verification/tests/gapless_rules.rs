use sermon::encoder_delay::EncoderDelay;
use sermon::gapless::{
    can_transition_gapless, GaplessState, preload_trigger_samples, transition_type, AudioFormat,
    GaplessContract, TransitionType, TrimState,
};

#[test]
fn test_gapless_contract_defined() {
    assert_eq!(
        GaplessContract::SAMPLE_CONTINUITY_TOLERANCE,
        0,
        "Gapless contract requires exact sample continuity (zero tolerance)"
    );
}

#[test]
fn test_gapless_contract_is_strict() {
    let tolerance = GaplessContract::SAMPLE_CONTINUITY_TOLERANCE;
    assert!(
        tolerance == 0,
        "Gapless playback must have zero tolerance for sample gaps/overlaps"
    );
}

#[test]
fn test_audio_format_equality() {
    let format1 = AudioFormat { sample_rate: 44100, channels: 2 };
    let format2 = AudioFormat { sample_rate: 44100, channels: 2 };
    let format3 = AudioFormat { sample_rate: 48000, channels: 2 };

    assert_eq!(format1, format2);
    assert_ne!(format1, format3);
}

#[test]
fn test_audio_format_is_gapless_compatible_same_format() {
    let format1 = AudioFormat { sample_rate: 44100, channels: 2 };
    let format2 = AudioFormat { sample_rate: 44100, channels: 2 };
    assert!(format1.is_gapless_compatible(&format2));
}

#[test]
fn test_audio_format_is_gapless_compatible_different_sample_rate() {
    let format1 = AudioFormat { sample_rate: 44100, channels: 2 };
    let format2 = AudioFormat { sample_rate: 48000, channels: 2 };
    assert!(!format1.is_gapless_compatible(&format2));
}

#[test]
fn test_audio_format_is_gapless_compatible_different_channels() {
    let format1 = AudioFormat { sample_rate: 44100, channels: 2 };
    let format2 = AudioFormat { sample_rate: 44100, channels: 1 };
    assert!(!format1.is_gapless_compatible(&format2));
}

#[test]
fn test_audio_format_is_gapless_compatible_different_both() {
    let format1 = AudioFormat { sample_rate: 44100, channels: 2 };
    let format2 = AudioFormat { sample_rate: 96000, channels: 6 };
    assert!(!format1.is_gapless_compatible(&format2));
}

#[test]
fn transition_kinds() {
    let cd = AudioFormat { sample_rate: 44100, channels: 2 };
    let hi = AudioFormat { sample_rate: 96000, channels: 2 };
    assert_eq!(transition_type(cd, None), TransitionType::EndOfQueue);
    assert_eq!(transition_type(cd, Some(cd)), TransitionType::Gapless);
    assert_eq!(transition_type(cd, Some(hi)), TransitionType::FormatChange);
    assert!(can_transition_gapless(cd, Some(cd)));
    assert!(!can_transition_gapless(cd, Some(hi)));
    assert!(!can_transition_gapless(cd, None));
}

#[test]
fn preload_trigger_is_two_seconds_at_least_default() {
    assert_eq!(preload_trigger_samples(44100), 88_200);
    assert_eq!(preload_trigger_samples(8000), 88_200);
    assert_eq!(preload_trigger_samples(96000), 192_000);
}

fn trim_state(total: Option<u64>, delay: Option<EncoderDelay>) -> TrimState {
    TrimState {
        samples_decoded: 0,
        total_samples: total,
        encoder_delay: delay,
        channels: 2,
        sample_rate: 44100,
    }
}

#[test]
fn trimming_drops_delay_and_padding() {
    let mut st = trim_state(Some(1000), Some(EncoderDelay::new(100, 200)));
    let mut kept_frames = 0usize;
    for _ in 0..5 {
        if let Some((a, b)) = st.trim_chunk(400) {
            kept_frames += (b - a) / 2;
        }
    }
    assert_eq!(st.samples_decoded, 1000);
    assert_eq!(kept_frames, 1000 - 100 - 200);
}

#[test]
fn trimming_first_chunk_window() {
    let mut st = trim_state(Some(1000), Some(EncoderDelay::new(100, 200)));
    assert_eq!(st.trim_chunk(400), Some((200, 400)));
    assert_eq!(st.trim_chunk(400), Some((0, 400)));
    assert_eq!(st.trim_chunk(400), Some((0, 400)));
    assert_eq!(st.trim_chunk(400), Some((0, 400)));
    assert_eq!(st.trim_chunk(400), None);
    let mut st = trim_state(Some(1000), Some(EncoderDelay::new(50, 0)));
    assert_eq!(st.trim_chunk(400), Some((100, 400)));
}

#[test]
fn no_delay_keeps_everything() {
    let mut st = trim_state(Some(1000), None);
    assert_eq!(st.trim_chunk(400), Some((0, 400)));
    assert_eq!(st.samples_decoded, 200);
}

#[test]
fn seek_realigns_frame_counter() {
    let mut st = trim_state(Some(44100 * 10), Some(EncoderDelay::new(576, 1000)));
    st.seek_to(1000);
    assert_eq!(st.samples_decoded, 44100);
    st.seek_to(60_000);
    assert_eq!(st.samples_decoded, 441_000);
}

#[test]
fn gapless_state_transitions() {
    let cd = TrimState { samples_decoded: 0, total_samples: Some(100), encoder_delay: None, channels: 2, sample_rate: 44100 };
    let hi = TrimState { samples_decoded: 0, total_samples: Some(50), encoder_delay: None, channels: 2, sample_rate: 96000 };
    let mut g = GaplessState::new(cd);
    assert_eq!(g.transition_type(), TransitionType::EndOfQueue);
    assert!(!g.advance());
    g.preload(cd);
    assert!(g.has_preloaded_next());
    assert!(g.can_transition_gapless());
    assert_eq!(g.trim(40), Some((0, 40)));
    assert_eq!(g.samples_decoded(), 20);
    assert!(g.advance());
    assert_eq!(g.samples_decoded(), 0);
    assert!(g.take_just_transitioned());
    assert!(!g.take_just_transitioned());
    g.preload(hi);
    assert_eq!(g.transition_type(), TransitionType::FormatChange);
    assert_eq!(g.next_format(), Some(AudioFormat { sample_rate: 96000, channels: 2 }));
    g.seek(1);
    assert!(!g.has_preloaded_next());
    assert_eq!(g.samples_decoded(), 44);
    assert_eq!(g.format(), AudioFormat { sample_rate: 44100, channels: 2 });
    assert_eq!(g.total_samples(), Some(100));
    assert!(g.encoder_delay().is_none());
}

fn play_track(samples: &[i32], chunk: usize, delay: EncoderDelay, channels: usize) -> Vec<i32> {
    let mut st = TrimState {
        samples_decoded: 0,
        total_samples: Some((samples.len() / channels) as u64),
        encoder_delay: Some(delay),
        channels,
        sample_rate: 44100,
    };
    let mut out = Vec::new();
    for c in samples.chunks(chunk * channels) {
        if let Some((a, b)) = st.trim_chunk(c.len()) {
            out.extend_from_slice(&c[a..b]);
        }
    }
    out
}

#[test]
fn gapless_output_is_the_trimmed_samples_back_to_back() {
    let a: Vec<i32> = (0..200).collect();
    let b: Vec<i32> = (1000..1100).collect();
    for chunk in [1usize, 3, 7, 50, 100] {
        let mut out = play_track(&a, chunk, EncoderDelay::new(5, 12), 2);
        out.extend(play_track(&b, chunk, EncoderDelay::new(3, 1), 2));
        let mut expected: Vec<i32> = a[10..176].to_vec();
        expected.extend_from_slice(&b[6..98]);
        assert_eq!(out, expected);
    }
}
