//! The packet loop of the decoder, apart from the demuxer and codec calls:
//! what each result of reading or decoding a packet leads to. Malformed
//! packets are passed over, a decoder that asks to be reset is reset and
//! the loop goes on, packets of other tracks are ignored, and a packet
//! that need not be decoded is reported by its duration alone when the
//! container knows it.

use vstd::prelude::*;

verus! {

/// What reading the next packet gave.
#[derive(Debug, Clone, Copy, PartialEq, Eq, Structural)]
pub enum ReadOutcome {
    /// A packet of track `track_id` lasting `duration` frames (0: unknown).
    Packet { track_id: u32, duration: u64 },
    /// The stream has no more packets.
    EndOfStream,
    /// The demuxer met malformed data.
    Malformed,
    /// The demuxer asks for the decoder to be reset.
    ResetRequired,
    /// Reading failed.
    IoFailure,
    /// Any other failure.
    OtherFailure,
}

/// What decoding a packet gave.
#[derive(Debug, Clone, Copy, PartialEq, Eq, Structural)]
pub enum DecodeOutcome {
    /// `sample_count` interleaved samples of `channels` channels.
    Decoded { sample_count: usize, channels: usize },
    /// The packet could not be decoded.
    Malformed,
    /// The decoder asks to be reset.
    ResetRequired,
    /// Reading failed.
    IoFailure,
    /// Any other failure.
    OtherFailure,
}

/// What the packet loop does next.
#[derive(Debug, Clone, Copy, PartialEq, Eq, Structural)]
pub enum PacketStep {
    /// Read the next packet.
    ReadNext,
    /// Reset the decoder, then read the next packet.
    ResetAndReadNext,
    /// The stream has ended.
    Finish,
    /// Stop with the read error.
    FailIo,
    /// Stop with the decoder's error.
    Fail,
    /// Decode the packet.
    Decode,
    /// Report the packet's frames without decoding it.
    ReportSkipped { frame_count: usize },
    /// Hand over the decoded samples, `frame_count` frames.
    Deliver { frame_count: usize },
}

/// The step after reading gave `r`, for a decoder of track `track_id`
/// that is asked to decode (`decode_packet`) or only to count frames.
pub open spec fn spec_after_read(track_id: u32, decode_packet: bool, r: ReadOutcome) -> PacketStep {
    match r {
        ReadOutcome::Packet { track_id: t, duration } => if t != track_id {
            PacketStep::ReadNext
        } else if !decode_packet && (duration as usize) > 0 {
            PacketStep::ReportSkipped { frame_count: duration as usize }
        } else {
            PacketStep::Decode
        },
        ReadOutcome::EndOfStream => PacketStep::Finish,
        ReadOutcome::Malformed => PacketStep::ReadNext,
        ReadOutcome::ResetRequired => PacketStep::ResetAndReadNext,
        ReadOutcome::IoFailure => PacketStep::FailIo,
        ReadOutcome::OtherFailure => PacketStep::Fail,
    }
}

/// Decide what follows a read that gave `r`.
pub fn after_read(track_id: u32, decode_packet: bool, r: ReadOutcome) -> (s: PacketStep)
    ensures
        s == spec_after_read(track_id, decode_packet, r),
        decode_packet ==> !(s is ReportSkipped),
{
    match r {
        ReadOutcome::Packet { track_id: t, duration } => {
            if t != track_id {
                PacketStep::ReadNext
            } else {
                let frames = duration as usize;
                if !decode_packet && frames > 0 {
                    PacketStep::ReportSkipped { frame_count: frames }
                } else {
                    PacketStep::Decode
                }
            }
        },
        ReadOutcome::EndOfStream => PacketStep::Finish,
        ReadOutcome::Malformed => PacketStep::ReadNext,
        ReadOutcome::ResetRequired => PacketStep::ResetAndReadNext,
        ReadOutcome::IoFailure => PacketStep::FailIo,
        ReadOutcome::OtherFailure => PacketStep::Fail,
    }
}

/// The step after decoding gave `r`.
pub open spec fn spec_after_decode(r: DecodeOutcome) -> PacketStep {
    match r {
        DecodeOutcome::Decoded { sample_count, channels } => PacketStep::Deliver {
            frame_count: (sample_count / channels) as usize,
        },
        DecodeOutcome::Malformed => PacketStep::ReadNext,
        DecodeOutcome::ResetRequired => PacketStep::ResetAndReadNext,
        DecodeOutcome::IoFailure => PacketStep::FailIo,
        DecodeOutcome::OtherFailure => PacketStep::Fail,
    }
}

/// Decide what follows a decode that gave `r`. Decoded audio has at least
/// one channel.
pub fn after_decode(r: DecodeOutcome) -> (s: PacketStep)
    requires
        r matches DecodeOutcome::Decoded { channels, .. } ==> channels > 0,
    ensures
        s == spec_after_decode(r),
{
    match r {
        DecodeOutcome::Decoded { sample_count, channels } => PacketStep::Deliver {
            frame_count: sample_count / channels,
        },
        DecodeOutcome::Malformed => PacketStep::ReadNext,
        DecodeOutcome::ResetRequired => PacketStep::ResetAndReadNext,
        DecodeOutcome::IoFailure => PacketStep::FailIo,
        DecodeOutcome::OtherFailure => PacketStep::Fail,
    }
}

/// Whether the reusable sample buffer, of `capacity` samples if there is
/// one, must be replaced to hold `frames` frames of `channels` channels.
pub fn needs_new_sample_buffer(capacity: Option<usize>, frames: usize, channels: usize) -> (r: bool)
    requires
        frames * channels <= usize::MAX,
    ensures
        r == match capacity {
            None => true,
            Some(c) => c < frames * channels,
        },
{
    match capacity {
        None => true,
        Some(c) => c < frames * channels,
    }
}

/// Reading never ends the loop on a malformed packet or on a reset: the
/// loop reads on. Only the end of the stream and read or decoder failures
/// stop it without a packet.
pub proof fn lemma_read_recovers(track_id: u32, decode_packet: bool, r: ReadOutcome)
    ensures
        (r is Malformed || r is ResetRequired) ==> (spec_after_read(track_id, decode_packet, r)
            is ReadNext || spec_after_read(track_id, decode_packet, r) is ResetAndReadNext),
        (spec_after_read(track_id, decode_packet, r) is Finish) <==> r is EndOfStream,
        r matches ReadOutcome::Packet { track_id: t, .. } ==> (t != track_id <==> spec_after_read(
            track_id,
            decode_packet,
            r,
        ) is ReadNext),
{
}

/// A packet of the decoder's own track is decoded when decoding is asked
/// for; when only counting, its frames are reported without decoding (it
/// is decoded after all when its length is not known). Packets of other
/// tracks are passed over.
pub proof fn lemma_own_packets_handled(track_id: u32, decode_packet: bool, duration: u64)
    ensures
        decode_packet ==> spec_after_read(
            track_id,
            decode_packet,
            ReadOutcome::Packet { track_id, duration },
        ) == PacketStep::Decode,
        !decode_packet && duration > 0 && duration <= usize::MAX ==> spec_after_read(
            track_id,
            decode_packet,
            ReadOutcome::Packet { track_id, duration },
        ) == (PacketStep::ReportSkipped { frame_count: duration as usize }),
        !decode_packet && duration == 0 ==> spec_after_read(
            track_id,
            decode_packet,
            ReadOutcome::Packet { track_id, duration },
        ) == PacketStep::Decode,
        forall|other: u32|
            other != track_id ==> #[trigger] spec_after_read(
                track_id,
                decode_packet,
                ReadOutcome::Packet { track_id: other, duration },
            ) == PacketStep::ReadNext,
{
}

/// Decoded audio is handed over as whole frames: the frames delivered
/// take up all the samples but less than one frame's worth.
pub proof fn lemma_decode_delivers_whole_frames(sample_count: usize, channels: usize)
    requires
        channels > 0,
    ensures
        spec_after_decode(DecodeOutcome::Decoded { sample_count, channels }) matches PacketStep::Deliver {
            frame_count,
        } && frame_count * channels <= sample_count < (frame_count + 1) * channels,
{
    let q = sample_count / channels;
    vstd::arithmetic::div_mod::lemma_fundamental_div_mod(sample_count as int, channels as int);
    vstd::arithmetic::div_mod::lemma_mod_bound(sample_count as int, channels as int);
    assert(q * channels <= sample_count < (q + 1) * channels) by (nonlinear_arith)
        requires
            sample_count == channels * q + sample_count % channels,
            0 <= sample_count % channels < channels,
    ;
}

} // verus!
