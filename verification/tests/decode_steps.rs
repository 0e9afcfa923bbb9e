use sermon::decode_plan::{
    after_decode, after_read, needs_new_sample_buffer, DecodeOutcome, PacketStep, ReadOutcome,
};

#[test]
fn packets_of_the_track_are_decoded() {
    let p = ReadOutcome::Packet { track_id: 1, duration: 1152 };
    assert_eq!(after_read(1, true, p), PacketStep::Decode);
    assert_eq!(after_read(2, true, p), PacketStep::ReadNext);
    assert_eq!(after_read(2, false, p), PacketStep::ReadNext);
}

#[test]
fn counting_skips_decoding_when_the_duration_is_known() {
    let p = ReadOutcome::Packet { track_id: 0, duration: 4096 };
    assert_eq!(after_read(0, false, p), PacketStep::ReportSkipped { frame_count: 4096 });
    let unknown = ReadOutcome::Packet { track_id: 0, duration: 0 };
    assert_eq!(after_read(0, false, unknown), PacketStep::Decode);
}

#[test]
fn read_results_lead_on() {
    assert_eq!(after_read(0, true, ReadOutcome::EndOfStream), PacketStep::Finish);
    assert_eq!(after_read(0, true, ReadOutcome::Malformed), PacketStep::ReadNext);
    assert_eq!(after_read(0, true, ReadOutcome::ResetRequired), PacketStep::ResetAndReadNext);
    assert_eq!(after_read(0, true, ReadOutcome::IoFailure), PacketStep::FailIo);
    assert_eq!(after_read(0, true, ReadOutcome::OtherFailure), PacketStep::Fail);
}

#[test]
fn decode_results_lead_on() {
    assert_eq!(
        after_decode(DecodeOutcome::Decoded { sample_count: 2304, channels: 2 }),
        PacketStep::Deliver { frame_count: 1152 }
    );
    assert_eq!(
        after_decode(DecodeOutcome::Decoded { sample_count: 7, channels: 2 }),
        PacketStep::Deliver { frame_count: 3 }
    );
    assert_eq!(after_decode(DecodeOutcome::Malformed), PacketStep::ReadNext);
    assert_eq!(after_decode(DecodeOutcome::ResetRequired), PacketStep::ResetAndReadNext);
    assert_eq!(after_decode(DecodeOutcome::IoFailure), PacketStep::FailIo);
    assert_eq!(after_decode(DecodeOutcome::OtherFailure), PacketStep::Fail);
}

#[test]
fn sample_buffer_grows_only_when_too_small() {
    assert!(needs_new_sample_buffer(None, 0, 2));
    assert!(needs_new_sample_buffer(Some(100), 51, 2));
    assert!(!needs_new_sample_buffer(Some(100), 50, 2));
    assert!(!needs_new_sample_buffer(Some(4096), 1152, 2));
}
