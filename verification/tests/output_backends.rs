use sermon::asio_plan::{
    asio_ring_capacity, asio_worker_step, await_answer, callback_take, deinterleave_channel,
    driver_listed, driver_missing_text, rate_needs_setting, worker_not_running, AsioOutput,
    AsioWorkerState, Expected, WorkerAction, WorkerEvent,
};
use sermon::devices::{AsioCommand, AsioResponse, OutputError, SampleFormat};
use sermon::wasapi_plan::{
    blocks_exclusive, bytes_per_sample, channel_mask, exclusive_format_attempts, exclusive_timing,
    frames_to_write, invalidates_device, is_strict_policy, negotiation_next, negotiation_plan,
    sample_encoding, uses_event_handle, waits_for_buffer_request, ExclusiveTiming, FormatAttempt,
    NegotiationStep, OpenOutcome, PadConversion, SampleEncoding, SampleKind,
};

fn fa(store_bits: u16, valid_bits: u16, kind: SampleKind) -> FormatAttempt {
    FormatAttempt { store_bits, valid_bits, kind }
}

fn asio_message(e: &OutputError) -> String {
    match e {
        OutputError::Asio(m) => m.clone(),
        other => panic!("not an ASIO error: {:?}", other),
    }
}

#[test]
fn speaker_masks() {
    assert_eq!(channel_mask(2), Some(0x3));
    assert_eq!(channel_mask(1), Some(0x4));
    assert_eq!(channel_mask(6), None);
    assert_eq!(channel_mask(0), None);
}

#[test]
fn exclusive_formats_are_tried_in_order() {
    assert_eq!(
        exclusive_format_attempts(24),
        vec![fa(32, 24, SampleKind::Int), fa(24, 24, SampleKind::Int), fa(32, 32, SampleKind::Float)]
    );
    assert_eq!(
        exclusive_format_attempts(16),
        vec![fa(16, 16, SampleKind::Int), fa(32, 32, SampleKind::Float)]
    );
    assert_eq!(
        exclusive_format_attempts(32),
        vec![fa(32, 32, SampleKind::Float), fa(32, 32, SampleKind::Int)]
    );
    assert_eq!(exclusive_format_attempts(8), vec![fa(8, 8, SampleKind::Int)]);
}

#[test]
fn polling_keeps_four_periods_buffered() {
    assert_eq!(
        exclusive_timing("polling", 30_000),
        ExclusiveTiming::Polling { buffer_duration_hns: 120_000, period_hns: 30_000 }
    );
    assert_eq!(exclusive_timing("event", 30_000), ExclusiveTiming::Events { period_hns: 30_000 });
    assert!(uses_event_handle("event"));
    assert!(!uses_event_handle("polling"));
    assert!(waits_for_buffer_request(true, "event"));
    assert!(!waits_for_buffer_request(true, "polling"));
    assert!(!waits_for_buffer_request(false, "event"));
}

#[test]
fn driver_codes() {
    assert!(blocks_exclusive(0x8889_000E));
    assert!(blocks_exclusive(0x8889_000A));
    assert!(!blocks_exclusive(0x8889_0018));
    assert!(!blocks_exclusive(0x8889_0004));
    assert!(invalidates_device(0x8889_0004));
    assert!(!invalidates_device(0x8889_000A));
}

#[test]
fn encodings_follow_the_accepted_format() {
    assert_eq!(sample_encoding(SampleKind::Int, 16, 16), SampleEncoding::Int16);
    assert_eq!(sample_encoding(SampleKind::Int, 24, 24), SampleEncoding::Int24);
    assert_eq!(sample_encoding(SampleKind::Int, 32, 24), SampleEncoding::Int24In32);
    assert_eq!(sample_encoding(SampleKind::Int, 32, 32), SampleEncoding::Int32);
    assert_eq!(sample_encoding(SampleKind::Float, 32, 32), SampleEncoding::Float32);
    assert_eq!(sample_encoding(SampleKind::Float, 16, 16), SampleEncoding::Float32);
    assert_eq!(sample_encoding(SampleKind::Int, 20, 20), SampleEncoding::Float32);
    assert_eq!(bytes_per_sample(SampleEncoding::Int16), 2);
    assert_eq!(bytes_per_sample(SampleEncoding::Int24), 3);
    assert_eq!(bytes_per_sample(SampleEncoding::Int24In32), 4);
    assert_eq!(bytes_per_sample(SampleEncoding::Float32), 4);
}

#[test]
fn writes_are_whole_frames_within_the_room() {
    assert_eq!(frames_to_write(10, 2, 3), 3);
    assert_eq!(frames_to_write(10, 2, 100), 5);
    assert_eq!(frames_to_write(5, 2, 100), 2);
    assert_eq!(frames_to_write(1, 2, 100), 0);
    assert_eq!(frames_to_write(12, 6, 0), 0);
}

#[test]
fn compatible_negotiation_pads_sixteen_bit_sources() {
    assert!(!is_strict_policy("compatibility"));
    let plan = negotiation_plan(16, false);
    assert_eq!(plan.len(), 3);
    assert_eq!(plan[1].bit_depth, 24);
    assert_eq!(plan[2].bit_depth, 32);
    assert_eq!(
        negotiation_next(16, false, 0, OpenOutcome::Opened),
        NegotiationStep::Accept { conversion: None }
    );
    assert_eq!(
        negotiation_next(16, false, 0, OpenOutcome::Unsupported),
        NegotiationStep::Open { attempt: 1 }
    );
    assert_eq!(
        negotiation_next(16, false, 1, OpenOutcome::Opened),
        NegotiationStep::Accept { conversion: Some(PadConversion::Pad16To24) }
    );
    // A failing padded open is passed over like a refused one.
    assert_eq!(
        negotiation_next(16, false, 1, OpenOutcome::Failed),
        NegotiationStep::Open { attempt: 2 }
    );
    assert_eq!(
        negotiation_next(16, false, 2, OpenOutcome::Opened),
        NegotiationStep::Accept { conversion: Some(PadConversion::Pad16To32) }
    );
    assert_eq!(
        negotiation_next(16, false, 2, OpenOutcome::Unsupported),
        NegotiationStep::Fail { unsupported: true }
    );
    assert_eq!(PadConversion::Pad16To24.name(), "pad_16_to_24");
    assert_eq!(PadConversion::Pad16To32.name(), "pad_16_to_32");
}

#[test]
fn strict_negotiation_never_pads() {
    assert!(is_strict_policy("strict"));
    assert_eq!(negotiation_plan(16, true).len(), 1);
    assert_eq!(
        negotiation_next(16, true, 0, OpenOutcome::Unsupported),
        NegotiationStep::Fail { unsupported: true }
    );
    // Another failure of the exact open is passed on as it is.
    assert_eq!(
        negotiation_next(24, false, 0, OpenOutcome::Failed),
        NegotiationStep::Fail { unsupported: false }
    );
    assert_eq!(
        negotiation_next(24, false, 0, OpenOutcome::Unsupported),
        NegotiationStep::Fail { unsupported: true }
    );
}

#[test]
fn asio_worker_session() {
    let s = AsioWorkerState::new();
    assert!(!s.driver_loaded && !s.is_playing && s.running);

    // Without a driver, start and the control panel are refused.
    let (s, acts) = asio_worker_step(s, WorkerEvent::Command(AsioCommand::Start));
    assert_eq!(acts.len(), 1);
    assert!(matches!(&acts[0], WorkerAction::Respond(AsioResponse::Error(m)) if m == "No driver loaded"));
    let (s, acts) = asio_worker_step(s, WorkerEvent::Command(AsioCommand::OpenControlPanel));
    assert!(matches!(&acts[0], WorkerAction::Respond(AsioResponse::Error(m)) if m == "No driver loaded"));

    // Loading with nothing loaded goes straight to the driver.
    let load = AsioCommand::Load { driver_name: "FlexASIO".to_string(), sample_rate: 44100, channels: 2 };
    let (s, acts) = asio_worker_step(s, WorkerEvent::Command(load));
    assert_eq!(acts.len(), 1);
    assert!(matches!(&acts[0], WorkerAction::LoadDriver { driver_name, sample_rate: 44100, channels: 2 } if driver_name == "FlexASIO"));
    let (s, acts) = asio_worker_step(s, WorkerEvent::LoadFinished(Ok((512, SampleFormat::Int32, 48000))));
    assert!(s.driver_loaded && !s.is_playing);
    assert!(matches!(
        &acts[0],
        WorkerAction::Respond(AsioResponse::Loaded { buffer_size: 512, sample_format: SampleFormat::Int32, actual_sample_rate: 48000 })
    ));

    // Start reaches the driver once; a second start only answers.
    let (s, acts) = asio_worker_step(s, WorkerEvent::Command(AsioCommand::Start));
    assert_eq!(acts.len(), 1);
    assert!(matches!(acts[0], WorkerAction::StartDriver));
    let (s, acts) = asio_worker_step(s, WorkerEvent::StartFinished(Ok(())));
    assert!(s.is_playing);
    assert!(matches!(acts[0], WorkerAction::Respond(AsioResponse::Started)));
    let (s, acts) = asio_worker_step(s, WorkerEvent::Command(AsioCommand::Start));
    assert_eq!(acts.len(), 1);
    assert!(matches!(acts[0], WorkerAction::Respond(AsioResponse::Started)));

    // The control panel answers first, then opens.
    let (s, acts) = asio_worker_step(s, WorkerEvent::Command(AsioCommand::OpenControlPanel));
    assert_eq!(acts.len(), 2);
    assert!(matches!(acts[0], WorkerAction::Respond(AsioResponse::ControlPanelOpened)));
    assert!(matches!(acts[1], WorkerAction::OpenControlPanel));

    // Loading again while playing releases the old driver first.
    let reload = AsioCommand::Load { driver_name: "ASIO4ALL".to_string(), sample_rate: 96000, channels: 2 };
    let (s, acts) = asio_worker_step(s, WorkerEvent::Command(reload));
    assert_eq!(acts.len(), 5);
    assert!(matches!(acts[0], WorkerAction::StopDriver));
    assert!(matches!(acts[1], WorkerAction::RemoveCallback));
    assert!(matches!(acts[2], WorkerAction::DisposeBuffers));
    assert!(matches!(acts[3], WorkerAction::ReleaseDriver));
    assert!(matches!(&acts[4], WorkerAction::LoadDriver { driver_name, .. } if driver_name == "ASIO4ALL"));
    assert!(!s.driver_loaded && !s.is_playing);

    // A failed load answers with the driver's message.
    let (s, acts) = asio_worker_step(s, WorkerEvent::LoadFinished(Err("Failed to load driver: NotFound".to_string())));
    assert!(!s.driver_loaded);
    assert!(matches!(&acts[0], WorkerAction::Respond(AsioResponse::Error(m)) if m == "Failed to load driver: NotFound"));

    let (s, acts) = asio_worker_step(s, WorkerEvent::Command(AsioCommand::Stop));
    assert_eq!(acts.len(), 1);
    assert!(matches!(acts[0], WorkerAction::Respond(AsioResponse::Stopped)));

    let (s, acts) = asio_worker_step(s, WorkerEvent::Command(AsioCommand::Shutdown));
    assert_eq!(acts.len(), 1);
    assert!(matches!(acts[0], WorkerAction::Exit));
    assert!(!s.running);
}

#[test]
fn asio_worker_stop_and_failed_start() {
    let s = AsioWorkerState { driver_loaded: true, is_playing: true, running: true };
    let (s, acts) = asio_worker_step(s, WorkerEvent::Command(AsioCommand::Stop));
    assert_eq!(acts.len(), 2);
    assert!(matches!(acts[0], WorkerAction::StopDriver));
    assert!(matches!(acts[1], WorkerAction::Respond(AsioResponse::Stopped)));
    assert!(s.driver_loaded && !s.is_playing);

    let (s, acts) = asio_worker_step(s, WorkerEvent::StartFinished(Err("ASE_HWMalfunction".to_string())));
    assert!(!s.is_playing);
    assert!(matches!(&acts[0], WorkerAction::Respond(AsioResponse::Error(m)) if m == "Failed to start: ASE_HWMalfunction"));

    let playing = AsioWorkerState { driver_loaded: true, is_playing: true, running: true };
    let (s, acts) = asio_worker_step(playing, WorkerEvent::Command(AsioCommand::Shutdown));
    assert_eq!(acts.len(), 5);
    assert!(matches!(acts[0], WorkerAction::StopDriver));
    assert!(matches!(acts[4], WorkerAction::Exit));
    assert!(!s.running && !s.driver_loaded);
}

#[test]
fn asio_driver_bookkeeping() {
    let names = vec!["ASIO4ALL v2".to_string(), "FlexASIO".to_string()];
    assert!(driver_listed(&names, "FlexASIO"));
    assert!(!driver_listed(&names, "flexasio"));
    assert!(!driver_listed(&Vec::new(), "FlexASIO"));
    assert_eq!(driver_missing_text("Foo"), "ASIO driver 'Foo' not found");
    assert!(rate_needs_setting(48000, 44100));
    assert!(!rate_needs_setting(44100, 44100));
    assert_eq!(asio_ring_capacity(44100, 2), 44100);
    assert_eq!(asio_ring_capacity(96000, 1), 48000);
    assert_eq!(asio_ring_capacity(44101, 1), 22050);
}

#[test]
fn asio_callback_takes_what_there_is() {
    assert_eq!(callback_take(1024, 4096), (1024, false));
    assert_eq!(callback_take(1024, 1024), (1024, false));
    assert_eq!(callback_take(1024, 100), (100, true));
    let interleaved = [1, 2, 3, 4, 5, 6, 7, 8];
    assert_eq!(deinterleave_channel(&interleaved, 2, 0, 4), vec![1, 3, 5, 7]);
    assert_eq!(deinterleave_channel(&interleaved, 2, 1, 4), vec![2, 4, 6, 8]);
    assert_eq!(deinterleave_channel(&interleaved, 4, 3, 2), vec![4, 8]);
    assert_eq!(deinterleave_channel(&interleaved, 2, 1, 0), Vec::<i32>::new());
}

#[test]
fn asio_answers_are_checked() {
    let gone = await_answer(Expected::Loaded, None).unwrap_err();
    assert_eq!(asio_message(&gone), "Worker thread disconnected");

    let loaded = await_answer(
        Expected::Loaded,
        Some(AsioResponse::Loaded { buffer_size: 256, sample_format: SampleFormat::Float32, actual_sample_rate: 44100 }),
    )
    .unwrap();
    assert!(matches!(loaded, AsioResponse::Loaded { buffer_size: 256, .. }));

    let refused = await_answer(Expected::Started, Some(AsioResponse::Error("No driver loaded".to_string()))).unwrap_err();
    assert_eq!(asio_message(&refused), "No driver loaded");

    let odd = await_answer(Expected::Loaded, Some(AsioResponse::Started)).unwrap_err();
    assert_eq!(asio_message(&odd), "Unexpected response: Started");

    let shown = AsioResponse::Loaded { buffer_size: -1, sample_format: SampleFormat::Int32Lsb24, actual_sample_rate: 48000 };
    let expected_text = format!("Unexpected response: {:?}", shown);
    let odd = await_answer(Expected::Stopped, Some(shown)).unwrap_err();
    assert_eq!(asio_message(&odd), expected_text);
    assert_eq!(
        expected_text,
        "Unexpected response: Loaded { buffer_size: -1, sample_format: Int32Lsb24, actual_sample_rate: 48000 }"
    );

    assert!(await_answer(Expected::ControlPanelOpened, Some(AsioResponse::ControlPanelOpened)).is_ok());
    assert!(await_answer(Expected::Stopped, Some(AsioResponse::Stopped)).is_ok());
}

#[test]
fn asio_output_properties() {
    let mut out = AsioOutput::new("FlexASIO", 96000, 2).unwrap();
    assert_eq!(out.driver_name(), "FlexASIO");
    assert!(out.is_exclusive());
    assert_eq!(out.sample_rate(), 96000);
    assert_eq!(out.requested_sample_rate(), 96000);
    assert_eq!(out.channels(), 2);
    assert_eq!(out.bit_depth(), 32);
    assert_eq!(out.valid_bits(), 24);
    assert!(!out.is_started());
    assert!(!out.needs_resampling());
    assert_eq!(out.buffer_size_frames(), 0);
    assert_eq!(out.sample_format_name(), "int32lsb24");

    out.record_started(512, 48000);
    assert!(out.is_started());
    assert!(out.needs_resampling());
    assert_eq!(out.sample_rate(), 48000);
    assert_eq!(out.requested_sample_rate(), 96000);
    assert_eq!(out.buffer_size_frames(), 512);

    out.record_started(-4, 96000);
    assert_eq!(out.buffer_size_frames(), 0);
    assert!(!out.needs_resampling());

    out.record_stopped();
    assert!(!out.is_started());
    assert_eq!(out.buffer_size_frames(), 0);

    let e = worker_not_running();
    assert_eq!(asio_message(&e), "ASIO worker not running");
}

#[test]
fn asio_output_moves_whole_frames() {
    let out = AsioOutput::new("FlexASIO", 44100, 2).unwrap();
    assert_eq!(out.transfer_frames(100, 51), 25);
    assert_eq!(out.transfer_frames(10, 51), 10);
    assert_eq!(out.transfer_frames(10, 1), 0);
    assert_eq!(out.dop_samples_to_push(7, 100), 6);
    assert_eq!(out.dop_samples_to_push(100, 9), 8);
    assert_eq!(out.dop_samples_to_push(1, 9), 0);
    let mono_none = AsioOutput::new("FlexASIO", 44100, 0).unwrap();
    assert_eq!(mono_none.transfer_frames(100, 100), 0);
    assert_eq!(mono_none.dop_samples_to_push(100, 100), 0);
}

#[test]
fn test_asio_output_creation_with_invalid_driver() {
    let result = AsioOutput::new("NonExistentDriver12345", 44100, 2);
    assert!(result.is_ok());
}

#[test]
fn test_asio_output_is_exclusive() {
    if let Ok(output) = AsioOutput::new("FlexASIO", 44100, 2) {
        assert!(output.is_exclusive());
    }
}

#[test]
fn test_asio_output_properties() {
    if let Ok(output) = AsioOutput::new("FlexASIO", 96000, 2) {
        assert_eq!(output.sample_rate(), 96000);
        assert_eq!(output.channels(), 2);
        assert_eq!(output.bit_depth(), 32);
        assert_eq!(output.valid_bits(), 24);
    }
}
