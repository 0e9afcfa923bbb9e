//! DoP (DSD over PCM) packing.
//!
//! Each DoP sample carries two DSD bytes of one channel in a 24-bit PCM word
//! together with a marker byte that alternates 0x05, 0xFA, 0x05, ... from one
//! frame to the next. The PCM rate is the DSD bit rate divided by 16.

use vstd::prelude::*;

use crate::arith::{lemma_interleaved_index, lemma_whole_blocks_fit};

pub mod rates;

verus! {

/// DoP marker for even frames.
pub const DOP_MARKER_A: u8 = 0x05;

/// DoP marker for odd frames.
pub const DOP_MARKER_B: u8 = 0xFA;

/// The 24-bit word `[byte0, byte1, marker]` (little-endian), upper byte zero.
pub open spec fn dop_word(byte0: u8, byte1: u8, marker: u8) -> u32 {
    (byte0 as int + 256 * (byte1 as int) + 65536 * (marker as int)) as u32
}

/// The marker of frame `index`.
pub open spec fn dop_marker(index: int) -> u8 {
    if index % 2 == 0 {
        DOP_MARKER_A
    } else {
        DOP_MARKER_B
    }
}

/// Number of whole DoP frames in `len` interleaved DSD bytes of `channels` channels.
pub open spec fn dop_frame_count(len: int, channels: int) -> int {
    len / (2 * channels)
}

/// The DoP sample of channel `c` in frame `f` of interleaved DSD input
/// `[L0, R0, L1, R1, ...]`: the later byte of the pair goes low, the earlier
/// byte next, then the marker of frame `start + f`.
pub open spec fn dop_frame_sample(bytes: Seq<u8>, channels: int, start: int, f: int, c: int) -> u32 {
    let base = f * (2 * channels);
    dop_word(bytes[base + channels + c], bytes[base + c], dop_marker(start + f))
}

/// All DoP samples produced from `bytes` when the packer's frame counter is at `start`.
pub open spec fn dop_packed(bytes: Seq<u8>, channels: int, start: int) -> Seq<u32> {
    Seq::new(
        (dop_frame_count(bytes.len() as int, channels) * channels) as nat,
        |k: int| dop_frame_sample(bytes, channels, start, k / channels, k % channels),
    )
}

/// Pack two DSD bytes into a 24-bit DoP sample:
/// bits 0-7 `dsd_byte0`, bits 8-15 `dsd_byte1`, bits 16-23 `marker`.
pub fn pack_dop_sample(dsd_byte0: u8, dsd_byte1: u8, marker: u8) -> (r: u32)
    ensures
        r == dop_word(dsd_byte0, dsd_byte1, marker),
        r & 0xFF == dsd_byte0,
        (r >> 8) & 0xFF == dsd_byte1,
        (r >> 16) & 0xFF == marker,
        r >> 24 == 0,
{
    let r = (dsd_byte0 as u32) | ((dsd_byte1 as u32) << 8) | ((marker as u32) << 16);
    assert(r == (dsd_byte0 as u32) + 256 * (dsd_byte1 as u32) + 65536 * (marker as u32)
        && r & 0xFF == dsd_byte0 && (r >> 8) & 0xFF == dsd_byte1 && (r >> 16) & 0xFF == marker
        && r >> 24 == 0) by (bit_vector)
        requires
            r == (dsd_byte0 as u32) | ((dsd_byte1 as u32) << 8) | ((marker as u32) << 16),
    ;
    r
}

/// The DoP marker for a frame: 0x05 for even frames, 0xFA for odd frames.
pub fn marker_for_frame(frame_index: usize) -> (m: u8)
    ensures
        m == dop_marker(frame_index as int),
{
    if frame_index % 2 == 0 {
        DOP_MARKER_A
    } else {
        DOP_MARKER_B
    }
}

/// The DoP PCM sample rate for a DSD rate: 16 DSD bits per PCM sample.
pub fn dop_sample_rate(dsd_rate: u32) -> (r: u32)
    ensures
        r == dsd_rate / 16,
{
    dsd_rate / 16
}

/// Converts interleaved DSD bytes to DoP samples, keeping the marker phase
/// across calls.
pub struct DopPacker {
    channels: usize,
    frame_index: usize,
}

impl DopPacker {
    /// Number of channels the packer interleaves.
    pub closed spec fn spec_channels(&self) -> nat {
        self.channels as nat
    }

    /// Frames packed since creation or the last reset.
    pub closed spec fn spec_frame_index(&self) -> nat {
        self.frame_index as nat
    }

    /// Create a packer for `channels` interleaved channels.
    pub fn new(channels: usize) -> (p: Self)
        ensures
            p.spec_channels() == channels,
            p.spec_frame_index() == 0,
    {
        DopPacker { channels, frame_index: 0 }
    }

    /// Reset the frame counter (on seek or a new track).
    pub fn reset(&mut self)
        ensures
            final(self).spec_frame_index() == 0,
            final(self).spec_channels() == old(self).spec_channels(),
    {
        self.frame_index = 0;
    }

    /// The current frame counter.
    pub fn frame_index(&self) -> (i: usize)
        ensures
            i == self.spec_frame_index(),
    {
        self.frame_index
    }

    /// Pack interleaved DSD bytes `[L0, R0, L1, R1, ...]` into DoP samples.
    ///
    /// Every `2 * channels` input bytes form one frame; an incomplete trailing
    /// frame is ignored. Frame `f` yields one sample per channel `c`:
    /// `[byte(2f+1, c), byte(2f, c), marker]`.
    pub fn pack(&mut self, dsd_bytes: &[u8]) -> (output: Vec<u32>)
        requires
            old(self).spec_channels() > 0,
            2 * old(self).spec_channels() <= usize::MAX,
            old(self).spec_frame_index() + dop_frame_count(
                dsd_bytes@.len() as int,
                old(self).spec_channels() as int,
            ) <= usize::MAX,
        ensures
            output@ == dop_packed(
                dsd_bytes@,
                old(self).spec_channels() as int,
                old(self).spec_frame_index() as int,
            ),
            final(self).spec_channels() == old(self).spec_channels(),
            final(self).spec_frame_index() == old(self).spec_frame_index() + dop_frame_count(
                dsd_bytes@.len() as int,
                old(self).spec_channels() as int,
            ),
    {
        let channels = self.channels;
        let start = Ghost(self.frame_index as int);
        let bytes_per_frame = 2 * channels;
        let total = dsd_bytes.len();
        let num_frames = total / bytes_per_frame;
        let mut output: Vec<u32> = Vec::new();
        let mut frame: usize = 0;
        while frame < num_frames
            invariant
                channels == self.channels,
                channels > 0,
                total == dsd_bytes@.len(),
                bytes_per_frame == 2 * channels,
                num_frames == (dsd_bytes@.len() as int) / (bytes_per_frame as int),
                0 <= frame <= num_frames,
                self.frame_index == start@ + frame,
                start@ + num_frames <= usize::MAX,
                output@.len() == frame * channels,
                forall|k: int|
                    0 <= k < output@.len() ==> output@[k] == dop_frame_sample(
                        dsd_bytes@,
                        channels as int,
                        start@,
                        k / (channels as int),
                        k % (channels as int),
                    ),
            decreases num_frames - frame,
        {
            let marker = marker_for_frame(self.frame_index);
            proof {
                lemma_whole_blocks_fit(frame as int, bytes_per_frame as int, dsd_bytes@.len() as int);
                assert(frame * bytes_per_frame + bytes_per_frame <= dsd_bytes@.len());
            }
            let sample_offset = frame * bytes_per_frame;
            let mut ch: usize = 0;
            while ch < channels
                invariant
                    channels == self.channels,
                    channels > 0,
                    total == dsd_bytes@.len(),
                    bytes_per_frame == 2 * channels,
                    frame < num_frames,
                    num_frames == (dsd_bytes@.len() as int) / (bytes_per_frame as int),
                    sample_offset == frame * bytes_per_frame,
                    sample_offset + bytes_per_frame <= dsd_bytes@.len(),
                    self.frame_index == start@ + frame,
                    marker == dop_marker(start@ + frame),
                    0 <= ch <= channels,
                    output@.len() == frame * channels + ch,
                    forall|k: int|
                        0 <= k < output@.len() ==> output@[k] == dop_frame_sample(
                            dsd_bytes@,
                            channels as int,
                            start@,
                            k / (channels as int),
                            k % (channels as int),
                        ),
                decreases channels - ch,
            {
                let byte0 = dsd_bytes[sample_offset + ch];
                let byte1 = dsd_bytes[sample_offset + channels + ch];
                let sample = pack_dop_sample(byte1, byte0, marker);
                proof {
                    lemma_interleaved_index(frame as int, ch as int, channels as int);
                }
                output.push(sample);
                ch = ch + 1;
            }
            proof {
                assert((frame + 1) * channels == frame * channels + channels) by (nonlinear_arith);
            }
            self.frame_index = self.frame_index + 1;
            frame = frame + 1;
        }
        assert(output@ =~= dop_packed(dsd_bytes@, channels as int, start@));
        output
    }
}

/// Packing is compositional: packing a whole number of frames and then the
/// rest gives the same samples as packing everything at once, with the marker
/// phase carried over between the two calls.
pub proof fn lemma_dop_packed_concat(a: Seq<u8>, b: Seq<u8>, channels: int, start: int)
    requires
        channels > 0,
        (a.len() as int) % (2 * channels) == 0,
    ensures
        dop_packed(a + b, channels, start) == dop_packed(a, channels, start) + dop_packed(
            b,
            channels,
            start + dop_frame_count(a.len() as int, channels),
        ),
{
    let w = 2 * channels;
    let al = a.len() as int;
    let bl = b.len() as int;
    let na = dop_frame_count(a.len() as int, channels);
    let nb = dop_frame_count(b.len() as int, channels);
    vstd::arithmetic::div_mod::lemma_fundamental_div_mod(al, w);
    assert(a.len() == na * w);
    assert(na >= 0) by {
        vstd::arithmetic::div_mod::lemma_div_pos_is_pos(al, w);
    }
    assert(nb >= 0) by {
        vstd::arithmetic::div_mod::lemma_div_pos_is_pos(bl, w);
    }
    assert(dop_frame_count((a + b).len() as int, channels) == na + nb) by {
        assert((a + b).len() == na * w + bl);
        vstd::arithmetic::div_mod::lemma_fundamental_div_mod(bl, w);
        vstd::arithmetic::div_mod::lemma_mod_bound(bl, w);
        assert(na * w + bl == (na + nb) * w + bl % w) by (nonlinear_arith)
            requires
                bl == nb * w + bl % w,
        ;
        vstd::arithmetic::div_mod::lemma_fundamental_div_mod_converse(
            na * w + bl,
            w,
            na + nb,
            bl % w,
        );
    }
    let lhs = dop_packed(a + b, channels, start);
    let pa = dop_packed(a, channels, start);
    let pb = dop_packed(b, channels, start + na);
    assert((na + nb) * channels == na * channels + nb * channels) by (nonlinear_arith);
    assert(na * channels >= 0 && nb * channels >= 0) by (nonlinear_arith)
        requires
            na >= 0,
            nb >= 0,
            channels > 0,
    ;
    assert forall|k: int| 0 <= k < lhs.len() implies lhs[k] == (pa + pb)[k] by {
        let f = k / channels;
        let c = k % channels;
        vstd::arithmetic::div_mod::lemma_fundamental_div_mod(k, channels);
        vstd::arithmetic::div_mod::lemma_mod_bound(k, channels);
        vstd::arithmetic::div_mod::lemma_div_pos_is_pos(k, channels);
        if k < na * channels {
            assert(f < na) by (nonlinear_arith)
                requires
                    k == channels * f + c,
                    0 <= c < channels,
                    k < na * channels,
            ;
            lemma_whole_blocks_fit(f, w, a.len() as int);
            assert(f * w + channels + c < a.len());
        } else {
            let k2 = k - na * channels;
            let f2 = k2 / channels;
            let c2 = k2 % channels;
            vstd::arithmetic::div_mod::lemma_fundamental_div_mod(k2, channels);
            vstd::arithmetic::div_mod::lemma_mod_bound(k2, channels);
            assert(k2 == (f - na) * channels + c) by (nonlinear_arith)
                requires
                    k == channels * f + c,
                    k2 == k - na * channels,
            ;
            vstd::arithmetic::div_mod::lemma_fundamental_div_mod_converse(k2, channels, f - na, c);
            assert(f2 == f - na && c2 == c);
            assert(f * w == na * w + f2 * w) by (nonlinear_arith)
                requires
                    f2 == f - na,
            ;
            assert(0 <= f2) by (nonlinear_arith)
                requires
                    k2 == f2 * channels + c2,
                    0 <= k2,
                    0 <= c2 < channels,
            ;
            assert(f2 < nb) by (nonlinear_arith)
                requires
                    k2 == f2 * channels + c2,
                    0 <= c2 < channels,
                    k2 < nb * channels,
            ;
            lemma_whole_blocks_fit(f2, w, b.len() as int);
            assert((a + b)[f * w + channels + c] == b[f2 * w + channels + c]);
            assert((a + b)[f * w + c] == b[f2 * w + c]);
        }
    }
    assert(lhs =~= pa + pb);
}

/// Laws of a single DoP sample: the two DSD bytes and the marker can be read
/// back from their byte positions, and the sample fits in 24 bits.
pub proof fn lemma_dop_word_fields(byte0: u8, byte1: u8, marker: u8)
    ensures
        dop_word(byte0, byte1, marker) & 0xFF == byte0,
        (dop_word(byte0, byte1, marker) >> 8) & 0xFF == byte1,
        (dop_word(byte0, byte1, marker) >> 16) & 0xFF == marker,
        dop_word(byte0, byte1, marker) < 0x0100_0000,
{
    let w = dop_word(byte0, byte1, marker);
    assert(w == byte0 as u32 + 256 * (byte1 as u32) + 65536 * (marker as u32));
    assert(w & 0xFF == byte0 && (w >> 8) & 0xFF == byte1 && (w >> 16) & 0xFF == marker
        && w < 0x0100_0000) by (bit_vector)
        requires
            w == byte0 as u32 + 256 * (byte1 as u32) + 65536 * (marker as u32),
    ;
}

/// Markers alternate: consecutive frames always carry different markers, and
/// frames two apart carry the same one.
pub proof fn lemma_dop_marker_alternates(index: int)
    ensures
        dop_marker(index) != dop_marker(index + 1),
        dop_marker(index) == dop_marker(index + 2),
        dop_marker(index) == DOP_MARKER_A || dop_marker(index) == DOP_MARKER_B,
{
}

} // verus!
