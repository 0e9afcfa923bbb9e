//! Gapless playback: the continuity contract, format compatibility between
//! consecutive tracks, and encoder-delay trimming of decoded chunks.
//!
//! A track's decoded frames are numbered from zero. With an encoder delay of
//! `s` frames and padding of `e` frames in a track of `T` frames, exactly the
//! frames `[s, T - e)` are played: no gap and no overlap with the next track.

use vstd::prelude::*;

use crate::encoder_delay::EncoderDelay;

verus! {

/// Namespace for the gapless contract constants.
pub struct GaplessContract;

/// Tolerance for sample continuity between tracks: exact (zero).
pub const SAMPLE_CONTINUITY_TOLERANCE: u64 = 0;

impl GaplessContract {
    /// Tolerance for sample continuity between tracks: no gap and no overlap.
    pub const SAMPLE_CONTINUITY_TOLERANCE: u64 = 0;
}

/// Sample rate and channel count of a decoded track.
#[derive(Debug, Clone, Copy, PartialEq, Eq, Structural)]
pub struct AudioFormat {
    /// Sample rate in Hz.
    pub sample_rate: u32,
    /// Number of channels.
    pub channels: u16,
}

impl AudioFormat {
    /// Formats are gapless-compatible when rate and channel count agree.
    pub open spec fn spec_is_gapless_compatible(self, other: AudioFormat) -> bool {
        self.sample_rate == other.sample_rate && self.channels == other.channels
    }

    /// Check if two formats are compatible for a gapless transition.
    pub fn is_gapless_compatible(&self, other: &AudioFormat) -> (b: bool)
        ensures
            b == self.spec_is_gapless_compatible(*other),
    {
        self.sample_rate == other.sample_rate && self.channels == other.channels
    }
}

/// What happens when the current track ends.
#[derive(Debug, Clone, Copy, PartialEq, Eq, Structural)]
pub enum TransitionType {
    /// Same format: seamless transition.
    Gapless,
    /// Different format: the output must be reopened.
    FormatChange,
    /// No next track.
    EndOfQueue,
}

pub open spec fn spec_transition_type(current: AudioFormat, next: Option<AudioFormat>) -> TransitionType {
    match next {
        None => TransitionType::EndOfQueue,
        Some(n) => if current.spec_is_gapless_compatible(n) {
            TransitionType::Gapless
        } else {
            TransitionType::FormatChange
        },
    }
}

/// The transition from the current track to the preloaded next one, if any.
pub fn transition_type(current: AudioFormat, next: Option<AudioFormat>) -> (t: TransitionType)
    ensures
        t == spec_transition_type(current, next),
{
    match next {
        None => TransitionType::EndOfQueue,
        Some(n) => if current.is_gapless_compatible(&n) {
            TransitionType::Gapless
        } else {
            TransitionType::FormatChange
        },
    }
}

/// Whether the preloaded next track (if any) can follow without reopening the output.
pub fn can_transition_gapless(current: AudioFormat, next: Option<AudioFormat>) -> (b: bool)
    ensures
        b == (spec_transition_type(current, next) == TransitionType::Gapless),
{
    match next {
        None => false,
        Some(n) => current.is_gapless_compatible(&n),
    }
}

/// When the current track ends: with no next track the queue is over; a
/// next track with the same sample rate and the same channel count follows
/// gaplessly; a different rate or channel count needs the output reopened.
pub proof fn lemma_transition_follows_format(current: AudioFormat, next: Option<AudioFormat>)
    ensures
        next is None <==> spec_transition_type(current, next) == TransitionType::EndOfQueue,
        next matches Some(n) ==> (spec_transition_type(current, next) == TransitionType::Gapless
            <==> n.sample_rate == current.sample_rate && n.channels == current.channels),
        next matches Some(n) && (n.sample_rate != current.sample_rate || n.channels
            != current.channels) ==> spec_transition_type(current, next)
            == TransitionType::FormatChange,
{
}

/// Default preload trigger: about two seconds at 44.1 kHz.
pub const DEFAULT_PRELOAD_TRIGGER: u64 = 88_200;

/// Frames before the end at which the next track is preloaded: two seconds
/// at the track's rate, at least the default.
pub fn preload_trigger_samples(sample_rate: u32) -> (t: u64)
    ensures
        t == if 2 * sample_rate > DEFAULT_PRELOAD_TRIGGER {
            2 * sample_rate
        } else {
            DEFAULT_PRELOAD_TRIGGER as int
        },
{
    let t = sample_rate as u64 * 2;
    if t > DEFAULT_PRELOAD_TRIGGER {
        t
    } else {
        DEFAULT_PRELOAD_TRIGGER
    }
}

/// Number of frames of `[lo, hi)` that lie in `[a, b)`.
pub open spec fn overlap(lo: int, hi: int, a: int, b: int) -> int {
    let l = if lo > a {
        lo
    } else {
        a
    };
    let h = if hi < b {
        hi
    } else {
        b
    };
    if h > l {
        h - l
    } else {
        0
    }
}

/// The frame index after which padding starts (`T - e`, saturated), or
/// "never" without a known total.
pub open spec fn play_end(total: Option<u64>, end_trim: int) -> Option<int> {
    match total {
        Some(t) => Some(if t < end_trim {
            0
        } else {
            t - end_trim
        }),
        None => None,
    }
}

/// `x` clamped to `[0, hi]`.
pub open spec fn clamp0(x: int, hi: int) -> int {
    if x < 0 {
        0
    } else if x > hi {
        hi
    } else {
        x
    }
}

/// Trimming state of the track being decoded.
#[derive(Debug, Clone, Copy)]
pub struct TrimState {
    /// Frames decoded so far (per channel).
    pub samples_decoded: u64,
    /// Total frames of the track, if known.
    pub total_samples: Option<u64>,
    /// Encoder delay and padding, for lossy formats.
    pub encoder_delay: Option<EncoderDelay>,
    /// Channels of the decoded audio.
    pub channels: usize,
    /// Sample rate of the decoded audio.
    pub sample_rate: u32,
}

/// The window of a decoded chunk that survives trimming, as sample indices
/// into the chunk (`None` when all of it is trimmed).
pub open spec fn spec_trim_chunk(st: TrimState, len: int) -> Option<(int, int)> {
    if st.channels == 0 {
        Some((0, len))
    } else {
        let frames = len / (st.channels as int);
        let before = st.samples_decoded as int;
        match st.encoder_delay {
            Some(d) if d.spec_has_trimming() => {
                let keep_start = clamp0(d.start_samples - before, frames);
                let keep_end = match play_end(st.total_samples, d.end_samples as int) {
                    Some(eb) => if before + frames > eb {
                        clamp0(((if eb < before {
                            0
                        } else {
                            eb - before
                        }) as u64) as usize as int, frames)
                    } else {
                        frames
                    },
                    None => frames,
                };
                if keep_start >= keep_end {
                    None
                } else {
                    Some((keep_start * st.channels, keep_end * st.channels))
                }
            },
            _ => Some((0, len)),
        }
    }
}

/// The frame counter after a chunk of `len` samples.
pub open spec fn spec_after_chunk(st: TrimState, len: int) -> int {
    if st.channels == 0 {
        st.samples_decoded as int
    } else {
        st.samples_decoded + len / (st.channels as int)
    }
}

impl TrimState {
    /// Account for a decoded chunk of `len` interleaved samples and return the
    /// range of it to play: frames before the encoder delay and after the
    /// padding boundary are dropped.
    pub fn trim_chunk(&mut self, len: usize) -> (r: Option<(usize, usize)>)
        requires
            old(self).channels > 0 ==> old(self).samples_decoded + (len as int) / (old(self).channels as int)
                <= u64::MAX,
        ensures
            match r {
                Some((a, b)) => spec_trim_chunk(*old(self), len as int) == Some((a as int, b as int)),
                None => spec_trim_chunk(*old(self), len as int) is None,
            },
            r matches Some((a, b)) ==> a <= b <= len,
            final(self).samples_decoded == spec_after_chunk(*old(self), len as int),
            final(self).total_samples == old(self).total_samples,
            final(self).encoder_delay == old(self).encoder_delay,
            final(self).channels == old(self).channels,
            final(self).sample_rate == old(self).sample_rate,
    {
        let channels = self.channels;
        if channels == 0 {
            return Some((0, len));
        }
        let frames = len / channels;
        let samples_before = self.samples_decoded;
        let samples_after = samples_before + frames as u64;
        self.samples_decoded = samples_after;
        proof {
            crate::arith::lemma_block_count_product(frames as int, channels as int, len as int);
        }
        let delay = match self.encoder_delay {
            Some(d) => {
                if d.has_trimming() {
                    d
                } else {
                    return Some((0, len));
                }
            },
            None => {
                return Some((0, len));
            },
        };
        let start_trim = delay.start_samples;
        let end_trim = delay.end_samples;
        let end_boundary: Option<u64> = match self.total_samples {
            Some(total) => Some(total.saturating_sub(end_trim)),
            None => None,
        };
        let keep_start: usize = if samples_before < start_trim {
            let skip = start_trim - samples_before;
            if skip < frames as u64 {
                skip as usize
            } else {
                frames
            }
        } else {
            0
        };
        let keep_end: usize = match end_boundary {
            Some(end_bound) => {
                if samples_after > end_bound {
                    let total_keep = end_bound.saturating_sub(samples_before) as usize;
                    if total_keep < frames {
                        total_keep
                    } else {
                        frames
                    }
                } else {
                    frames
                }
            },
            None => frames,
        };
        if keep_start >= keep_end {
            return None;
        }
        proof {
            assert(keep_end * channels <= frames * channels) by (nonlinear_arith)
                requires
                    keep_end <= frames,
            ;
            assert(keep_start * channels <= keep_end * channels) by (nonlinear_arith)
                requires
                    keep_start <= keep_end,
            ;
        }
        Some((keep_start * channels, keep_end * channels))
    }

    /// Re-align the frame counter after seeking to `position_ms`.
    pub fn seek_to(&mut self, position_ms: u64)
        requires
            position_ms * old(self).sample_rate <= u64::MAX,
        ensures
            final(self).samples_decoded == ({
                let s = position_ms * old(self).sample_rate / 1000;
                match old(self).total_samples {
                    Some(t) => if s < t {
                        s
                    } else {
                        t as int
                    },
                    None => s,
                }
            }),
            final(self).total_samples == old(self).total_samples,
            final(self).encoder_delay == old(self).encoder_delay,
            final(self).channels == old(self).channels,
            final(self).sample_rate == old(self).sample_rate,
    {
        let seek_samples = (position_ms * self.sample_rate as u64) / 1000;
        self.samples_decoded = match self.total_samples {
            Some(total) => if seek_samples < total {
                seek_samples
            } else {
                total
            },
            None => seek_samples,
        };
    }
}

/// A chunk keeps exactly its frames that lie between the end of the encoder
/// delay and the start of the padding.
pub proof fn lemma_trim_chunk_keeps_overlap(st: TrimState, len: int)
    requires
        st.channels > 0,
        0 <= len,
        st.encoder_delay matches Some(d) && d.spec_has_trimming(),
        st.total_samples matches Some(t) && t >= st.encoder_delay->0.end_samples,
        st.samples_decoded + len / (st.channels as int) <= u64::MAX,
        usize::MAX >= u64::MAX,
    ensures
        ({
            let d = st.encoder_delay->0;
            let before = st.samples_decoded as int;
            let frames = len / (st.channels as int);
            let kept = overlap(
                before,
                before + frames,
                d.start_samples as int,
                st.total_samples->0 - d.end_samples,
            );
            match spec_trim_chunk(st, len) {
                Some((a, b)) => b - a == kept * st.channels && kept > 0 && a == (clamp0(
                    d.start_samples - before,
                    frames,
                )) * st.channels,
                None => kept == 0,
            }
        }),
{
    let ch = st.channels as int;
    let frames = len / ch;
    vstd::arithmetic::div_mod::lemma_div_pos_is_pos(len, ch);
    let d = st.encoder_delay->0;
    let before = st.samples_decoded as int;
    let eb = st.total_samples->0 - d.end_samples;
    let ks = clamp0(d.start_samples - before, frames);
    let ke = if before + frames > eb {
        clamp0(if eb < before { 0 } else { eb - before }, frames)
    } else {
        frames
    };
    assert(((if eb < before { 0 } else { eb - before }) as u64) as usize as int == (if eb < before {
        0
    } else {
        eb - before
    }));
    if ks < ke {
        assert(ke * ch - ks * ch == (ke - ks) * ch) by (nonlinear_arith);
    }
}

/// Over consecutive chunks, the kept frame counts add up to the frames of
/// the covered range that lie in `[a, b)`.
pub proof fn lemma_overlap_additive(lo: int, mid: int, hi: int, a: int, b: int)
    requires
        lo <= mid <= hi,
    ensures
        overlap(lo, mid, a, b) + overlap(mid, hi, a, b) == overlap(lo, hi, a, b),
{
}

/// Frames kept over a run of consecutive chunks of the given frame counts,
/// starting at frame `start`.
pub open spec fn kept_over_chunks(chunks: Seq<nat>, start: int, a: int, b: int) -> int
    decreases chunks.len(),
{
    if chunks.len() == 0 {
        0
    } else {
        overlap(start, start + chunks[0], a, b) + kept_over_chunks(
            chunks.drop_first(),
            start + chunks[0],
            a,
            b,
        )
    }
}

/// Sum of the chunk sizes.
pub open spec fn chunk_total(chunks: Seq<nat>) -> int
    decreases chunks.len(),
{
    if chunks.len() == 0 {
        0
    } else {
        chunks[0] + chunk_total(chunks.drop_first())
    }
}

/// The gapless contract: decoding a whole track of `T` frames in any chunking,
/// with encoder delay `s` and padding `e`, plays exactly `T - s - e` frames
/// (all of `[s, T - e)`), so the next track follows with no gap and no overlap.
pub proof fn lemma_trimmed_track_length(chunks: Seq<nat>, s: int, e: int)
    requires
        0 <= s,
        0 <= e,
        s + e <= chunk_total(chunks),
    ensures
        kept_over_chunks(chunks, 0, s, chunk_total(chunks) - e) == chunk_total(chunks) - s - e,
{
    lemma_kept_over_chunks_is_overlap(chunks, 0, s, chunk_total(chunks) - e);
}

proof fn lemma_kept_over_chunks_is_overlap(chunks: Seq<nat>, start: int, a: int, b: int)
    ensures
        kept_over_chunks(chunks, start, a, b) == overlap(start, start + chunk_total(chunks), a, b),
        chunk_total(chunks) >= 0,
    decreases chunks.len(),
{
    if chunks.len() > 0 {
        lemma_kept_over_chunks_is_overlap(chunks.drop_first(), start + chunks[0], a, b);
        lemma_overlap_additive(start, start + chunks[0], start + chunk_total(chunks), a, b);
    }
}

/// The samples of frames `[lo, hi)` of interleaved `q` of `ch` channels
/// (none when the range is empty).
pub open spec fn frame_window<T>(q: Seq<T>, lo: int, hi: int, ch: int) -> Seq<T> {
    if lo < hi {
        q.subrange(lo * ch, hi * ch)
    } else {
        Seq::empty()
    }
}

/// What one decoded chunk `c` contributes to the output in trimming state
/// `st`: the window that `trim_chunk` keeps.
pub open spec fn chunk_output<T>(st: TrimState, c: Seq<T>) -> Seq<T> {
    match spec_trim_chunk(st, c.len() as int) {
        Some((a, b)) => c.subrange(a, b),
        None => Seq::empty(),
    }
}

/// The trimming state after a chunk of `len` samples.
pub open spec fn after_chunk_state(st: TrimState, len: int) -> TrimState {
    TrimState { samples_decoded: spec_after_chunk(st, len) as u64, ..st }
}

/// The output of a track decoded as the chunks `chunks`, in order.
pub open spec fn trimmed_output<T>(st: TrimState, chunks: Seq<Seq<T>>) -> Seq<T>
    decreases chunks.len(),
{
    if chunks.len() == 0 {
        Seq::empty()
    } else {
        chunk_output(st, chunks[0]) + trimmed_output(
            after_chunk_state(st, chunks[0].len() as int),
            chunks.drop_first(),
        )
    }
}

/// Every chunk holds whole frames of `ch` channels.
pub open spec fn whole_frame_chunks<T>(chunks: Seq<Seq<T>>, ch: int) -> bool {
    forall|i: int| 0 <= i < chunks.len() ==> (#[trigger] chunks[i]).len() as int % ch == 0
}

proof fn lemma_mul_le(a: int, b: int, ch: int)
    requires
        a <= b,
        ch > 0,
    ensures
        a * ch <= b * ch,
{
    assert(a * ch <= b * ch) by (nonlinear_arith)
        requires
            a <= b,
            ch > 0,
    ;
}

/// One chunk keeps the frames of `[s, eb)` it holds, counted from frame
/// `p` where the chunk starts.
proof fn lemma_chunk_output_window<T>(st: TrimState, c: Seq<T>)
    requires
        st.channels > 0,
        c.len() as int % (st.channels as int) == 0,
        st.encoder_delay matches Some(d) && d.spec_has_trimming(),
        st.total_samples is Some,
        usize::MAX >= u64::MAX,
    ensures
        ({
            let ch = st.channels as int;
            let p = st.samples_decoded as int;
            let f = c.len() as int / ch;
            let s = st.encoder_delay->0.start_samples as int;
            let eb = play_end(st.total_samples, st.encoder_delay->0.end_samples as int)->0;
            chunk_output(st, c) == frame_window(c, clamp0(s - p, f), clamp0(eb - p, f), ch)
        }),
{
    let ch = st.channels as int;
    let p = st.samples_decoded as int;
    let f = c.len() as int / ch;
    let eb = play_end(st.total_samples, st.encoder_delay->0.end_samples as int)->0;
    assert(0 <= eb <= u64::MAX);
    assert(((if eb < p { 0 } else { eb - p }) as u64) as usize as int == (if eb < p {
        0
    } else {
        eb - p
    }));
}

/// Cutting the frames `[x, y)` (relative, clamped) out of `c ++ q` is
/// cutting them out of `c` and, shifted by its frames, out of `q`.
proof fn lemma_window_split<T>(c: Seq<T>, q: Seq<T>, x: int, y: int, ch: int)
    requires
        ch > 0,
        c.len() as int % ch == 0,
        q.len() as int % ch == 0,
    ensures
        ({
            let f0 = c.len() as int / ch;
            let f1 = q.len() as int / ch;
            frame_window(c + q, clamp0(x, f0 + f1), clamp0(y, f0 + f1), ch) == frame_window(
                c,
                clamp0(x, f0),
                clamp0(y, f0),
                ch,
            ) + frame_window(q, clamp0(x - f0, f1), clamp0(y - f0, f1), ch)
        }),
{
    let f0 = c.len() as int / ch;
    let f1 = q.len() as int / ch;
    vstd::arithmetic::div_mod::lemma_fundamental_div_mod(c.len() as int, ch);
    vstd::arithmetic::div_mod::lemma_fundamental_div_mod(q.len() as int, ch);
    assert(c.len() == f0 * ch) by (nonlinear_arith)
        requires
            c.len() == ch * f0 + c.len() as int % ch,
            c.len() as int % ch == 0,
    ;
    assert(q.len() == f1 * ch) by (nonlinear_arith)
        requires
            q.len() == ch * f1 + q.len() as int % ch,
            q.len() as int % ch == 0,
    ;
    vstd::arithmetic::div_mod::lemma_div_pos_is_pos(c.len() as int, ch);
    vstd::arithmetic::div_mod::lemma_div_pos_is_pos(q.len() as int, ch);
    let lo = clamp0(x, f0 + f1);
    let hi = clamp0(y, f0 + f1);
    let lo0 = clamp0(x, f0);
    let hi0 = clamp0(y, f0);
    let lo1 = clamp0(x - f0, f1);
    let hi1 = clamp0(y - f0, f1);
    let w = c + q;
    let lhs = frame_window(w, lo, hi, ch);
    let rhs = frame_window(c, lo0, hi0, ch) + frame_window(q, lo1, hi1, ch);
    assert((f0 + f1) * ch == f0 * ch + f1 * ch) by (nonlinear_arith);
    if lo <= hi {
        lemma_mul_le(lo, hi, ch);
    }
    lemma_mul_le(0, lo, ch);
    lemma_mul_le(hi, f0 + f1, ch);
    if lo0 <= hi0 {
        lemma_mul_le(lo0, hi0, ch);
    }
    lemma_mul_le(0, lo0, ch);
    lemma_mul_le(hi0, f0, ch);
    if lo1 <= hi1 {
        lemma_mul_le(lo1, hi1, ch);
    }
    lemma_mul_le(0, lo1, ch);
    lemma_mul_le(hi1, f1, ch);
    if lo < hi {
        // The window starts in `c` exactly when x < f0, and ends in `c`
        // exactly when y <= f0.
        if lo < f0 {
            assert(lo == lo0);
            assert(lo * ch < f0 * ch) by (nonlinear_arith)
                requires
                    lo < f0,
                    ch > 0,
            ;
            if hi <= f0 {
                assert(hi == hi0);
                assert(lo1 >= hi1);
                assert(lhs =~= rhs);
            } else {
                assert(hi0 == f0);
                assert(lo1 == 0);
                assert(hi == f0 + hi1);
                assert(hi * ch == f0 * ch + hi1 * ch) by (nonlinear_arith)
                    requires
                        hi == f0 + hi1,
                ;
                if hi1 > 0 {
                    assert(lhs =~= rhs);
                } else {
                    assert(false);
                }
            }
        } else {
            assert(lo0 >= hi0);
            assert(lo == f0 + lo1);
            assert(hi == f0 + hi1);
            assert(lo * ch == f0 * ch + lo1 * ch) by (nonlinear_arith)
                requires
                    lo == f0 + lo1,
            ;
            assert(hi * ch == f0 * ch + hi1 * ch) by (nonlinear_arith)
                requires
                    hi == f0 + hi1,
            ;
            assert(lhs =~= rhs);
        }
    } else {
        assert(lo0 >= hi0);
        assert(lo1 >= hi1);
        assert(lhs =~= rhs);
    }
}

/// Decoding a run of chunks from frame `p` outputs exactly the frames of
/// `[s, eb)` among those the chunks hold, in order.
proof fn lemma_trimmed_output_window<T>(st: TrimState, chunks: Seq<Seq<T>>)
    requires
        st.channels > 0,
        whole_frame_chunks(chunks, st.channels as int),
        st.encoder_delay matches Some(d) && d.spec_has_trimming(),
        st.total_samples is Some,
        st.samples_decoded + chunks.flatten().len() as int / (st.channels as int) <= u64::MAX,
        usize::MAX >= u64::MAX,
    ensures
        chunks.flatten().len() as int % (st.channels as int) == 0,
        ({
            let ch = st.channels as int;
            let p = st.samples_decoded as int;
            let f = chunks.flatten().len() as int / ch;
            let s = st.encoder_delay->0.start_samples as int;
            let eb = play_end(st.total_samples, st.encoder_delay->0.end_samples as int)->0;
            trimmed_output(st, chunks) == frame_window(
                chunks.flatten(),
                clamp0(s - p, f),
                clamp0(eb - p, f),
                ch,
            )
        }),
    decreases chunks.len(),
{
    let ch = st.channels as int;
    if chunks.len() == 0 {
        assert(chunks.flatten() =~= Seq::<T>::empty());
        assert(trimmed_output(st, chunks) =~= frame_window(
            chunks.flatten(),
            clamp0(st.encoder_delay->0.start_samples as int - st.samples_decoded as int, 0),
            clamp0(
                play_end(st.total_samples, st.encoder_delay->0.end_samples as int)->0
                    - st.samples_decoded as int,
                0,
            ),
            ch,
        ));
    } else {
        let c = chunks[0];
        let rest = chunks.drop_first();
        assert(chunks.flatten() == c + rest.flatten());
        assert(c.len() as int % ch == 0);
        let f0 = c.len() as int / ch;
        vstd::arithmetic::div_mod::lemma_div_pos_is_pos(c.len() as int, ch);
        assert(whole_frame_chunks(rest, ch)) by {
            assert forall|i: int| 0 <= i < rest.len() implies (#[trigger] rest[i]).len() as int % ch == 0 by {
                assert(rest[i] == chunks[i + 1]);
            }
        }
        let nst = after_chunk_state(st, c.len() as int);
        vstd::arithmetic::div_mod::lemma_fundamental_div_mod(c.len() as int, ch);
        assert(c.len() == f0 * ch) by (nonlinear_arith)
            requires
                c.len() == ch * f0 + c.len() as int % ch,
                c.len() as int % ch == 0,
        ;
        let r = rest.flatten().len() as int;
        // The whole run holds the chunk's frames and then the rest's.
        vstd::arithmetic::div_mod::lemma_hoist_over_denominator(r, f0, ch as nat);
        assert(r + f0 * ch == chunks.flatten().len());
        assert(chunks.flatten().len() as int / ch == f0 + r / ch);
        lemma_trimmed_output_window(nst, rest);
        lemma_chunk_output_window(st, c);
        assert(ch * f0 == f0 * ch) by (nonlinear_arith);
        vstd::arithmetic::div_mod::lemma_mod_multiples_vanish(f0, r, ch);
        assert(chunks.flatten().len() as int % ch == r % ch);
        let p = st.samples_decoded as int;
        let s = st.encoder_delay->0.start_samples as int;
        let eb = play_end(st.total_samples, st.encoder_delay->0.end_samples as int)->0;
        lemma_window_split(c, rest.flatten(), s - p, eb - p, ch);
        assert(s - p - f0 == s - (nst.samples_decoded as int));
        assert(eb - p - f0 == eb - (nst.samples_decoded as int));
    }
}

/// The gapless contract on the samples themselves: a track of `T` frames
/// with encoder delay `s` and padding `e` (`s + e <= T`), decoded from its
/// start in any chunking of whole frames, outputs exactly its samples of
/// frames `[s, T - e)`, in order.
pub proof fn lemma_gapless_output<T>(st: TrimState, chunks: Seq<Seq<T>>)
    requires
        st.channels > 0,
        st.samples_decoded == 0,
        whole_frame_chunks(chunks, st.channels as int),
        st.total_samples matches Some(t) && chunks.flatten().len() == t * st.channels,
        st.encoder_delay matches Some(d) && d.spec_has_trimming() && d.start_samples
            + d.end_samples <= st.total_samples->0,
        usize::MAX >= u64::MAX,
    ensures
        trimmed_output(st, chunks) == chunks.flatten().subrange(
            st.encoder_delay->0.start_samples * st.channels,
            (st.total_samples->0 - st.encoder_delay->0.end_samples) * st.channels,
        ),
{
    let ch = st.channels as int;
    let t = st.total_samples->0 as int;
    let d = st.encoder_delay->0;
    assert(ch * t == t * ch) by (nonlinear_arith);
    vstd::arithmetic::div_mod::lemma_div_multiples_vanish(t, ch);
    assert(chunks.flatten().len() as int / ch == t);
    lemma_trimmed_output_window(st, chunks);
    let eb = play_end(st.total_samples, d.end_samples as int)->0;
    assert(eb == t - d.end_samples);
    lemma_mul_le(t - d.end_samples, t, ch);
    lemma_mul_le(0, d.start_samples as int, ch);
    if d.start_samples >= t - d.end_samples {
        assert(d.start_samples * ch == (t - d.end_samples) * ch) by (nonlinear_arith)
            requires
                d.start_samples == t - d.end_samples,
        ;
        assert(chunks.flatten().subrange(d.start_samples * ch, (t - d.end_samples) * ch)
            =~= Seq::<T>::empty());
    }
}

/// Two tracks played gaplessly: the output of a track followed by the
/// output of the next is the first track's kept samples followed directly
/// by the second's, with no gap and no overlap.
pub proof fn lemma_gapless_two_tracks<T>(
    a: TrimState,
    a_chunks: Seq<Seq<T>>,
    b: TrimState,
    b_chunks: Seq<Seq<T>>,
)
    requires
        a.channels > 0 && b.channels > 0,
        a.samples_decoded == 0 && b.samples_decoded == 0,
        whole_frame_chunks(a_chunks, a.channels as int),
        whole_frame_chunks(b_chunks, b.channels as int),
        a.total_samples matches Some(t) && a_chunks.flatten().len() == t * a.channels,
        b.total_samples matches Some(t) && b_chunks.flatten().len() == t * b.channels,
        a.encoder_delay matches Some(d) && d.spec_has_trimming() && d.start_samples + d.end_samples
            <= a.total_samples->0,
        b.encoder_delay matches Some(d) && d.spec_has_trimming() && d.start_samples + d.end_samples
            <= b.total_samples->0,
        usize::MAX >= u64::MAX,
    ensures
        trimmed_output(a, a_chunks) + trimmed_output(b, b_chunks) == a_chunks.flatten().subrange(
            a.encoder_delay->0.start_samples * a.channels,
            (a.total_samples->0 - a.encoder_delay->0.end_samples) * a.channels,
        ) + b_chunks.flatten().subrange(
            b.encoder_delay->0.start_samples * b.channels,
            (b.total_samples->0 - b.encoder_delay->0.end_samples) * b.channels,
        ),
{
    lemma_gapless_output(a, a_chunks);
    lemma_gapless_output(b, b_chunks);
}

/// Without encoder delay or padding, decoding outputs every sample, in
/// order, in any chunking.
pub proof fn lemma_untrimmed_output<T>(st: TrimState, chunks: Seq<Seq<T>>)
    requires
        st.channels > 0,
        st.encoder_delay matches Some(d) ==> !d.spec_has_trimming(),
    ensures
        trimmed_output(st, chunks) == chunks.flatten(),
    decreases chunks.len(),
{
    if chunks.len() == 0 {
        assert(chunks.flatten() =~= Seq::<T>::empty());
    } else {
        lemma_untrimmed_output(after_chunk_state(st, chunks[0].len() as int), chunks.drop_first());
        assert(chunk_output(st, chunks[0]) =~= chunks[0]);
    }
}

/// The output format of a track.
pub open spec fn format_of(t: TrimState) -> AudioFormat {
    AudioFormat { sample_rate: t.sample_rate, channels: t.channels as u16 }
}

/// The bookkeeping of a gapless decoder: the track being decoded, the next
/// track if one is preloaded, and whether playback just moved on to it.
/// The decoders themselves are kept by the caller in step with this state.
#[derive(Debug, Clone, Copy)]
pub struct GaplessState {
    pub current: TrimState,
    pub next: Option<TrimState>,
    pub just_transitioned: bool,
}

impl GaplessState {
    /// A decoder of one track, nothing preloaded.
    pub fn new(current: TrimState) -> (g: Self)
        ensures
            g.current == current,
            g.next is None,
            !g.just_transitioned,
    {
        GaplessState { current, next: None, just_transitioned: false }
    }

    /// Account for a decoded chunk of the current track; the window of it
    /// to play, as `TrimState::trim_chunk` gives it.
    pub fn trim(&mut self, len: usize) -> (r: Option<(usize, usize)>)
        requires
            old(self).current.channels > 0 ==> old(self).current.samples_decoded + (len as int) / (
            old(self).current.channels as int) <= u64::MAX,
        ensures
            match r {
                Some((a, b)) => spec_trim_chunk(old(self).current, len as int) == Some(
                    (a as int, b as int),
                ),
                None => spec_trim_chunk(old(self).current, len as int) is None,
            },
            final(self).current.samples_decoded == spec_after_chunk(old(self).current, len as int),
            final(self).current.total_samples == old(self).current.total_samples,
            final(self).current.encoder_delay == old(self).current.encoder_delay,
            final(self).current.channels == old(self).current.channels,
            final(self).current.sample_rate == old(self).current.sample_rate,
            final(self).next == old(self).next,
            final(self).just_transitioned == old(self).just_transitioned,
    {
        let mut current = self.current;
        let r = current.trim_chunk(len);
        self.current = current;
        r
    }

    /// The current track has ended: move on to the preloaded track, if
    /// there is one, and note the transition. Returns whether it moved on.
    pub fn advance(&mut self) -> (moved: bool)
        ensures
            moved == old(self).next is Some,
            moved ==> final(self).current == old(self).next->0 && final(self).next is None
                && final(self).just_transitioned,
            !moved ==> *final(self) == *old(self),
    {
        match self.next {
            Some(n) => {
                self.current = n;
                self.next = None;
                self.just_transitioned = true;
                true
            },
            None => false,
        }
    }

    /// Preload the next track.
    pub fn preload(&mut self, next: TrimState)
        ensures
            final(self).current == old(self).current,
            final(self).next == Some(next),
            final(self).just_transitioned == old(self).just_transitioned,
    {
        self.next = Some(next);
    }

    /// Drop the preloaded track.
    pub fn cancel_preload(&mut self)
        ensures
            final(self).current == old(self).current,
            final(self).next is None,
            final(self).just_transitioned == old(self).just_transitioned,
    {
        self.next = None;
    }

    /// Whether a transition happened since the last call; clears the flag.
    pub fn take_just_transitioned(&mut self) -> (b: bool)
        ensures
            b == old(self).just_transitioned,
            !final(self).just_transitioned,
            final(self).current == old(self).current,
            final(self).next == old(self).next,
    {
        let v = self.just_transitioned;
        self.just_transitioned = false;
        v
    }

    /// Seek in the current track: the preloaded track is dropped, the
    /// transition flag cleared and the frame counter re-aligned.
    pub fn seek(&mut self, position_ms: u64)
        requires
            position_ms * old(self).current.sample_rate <= u64::MAX,
        ensures
            final(self).next is None,
            !final(self).just_transitioned,
            final(self).current.samples_decoded == ({
                let s = position_ms * old(self).current.sample_rate / 1000;
                match old(self).current.total_samples {
                    Some(t) => if s < t {
                        s
                    } else {
                        t as int
                    },
                    None => s,
                }
            }),
            final(self).current.total_samples == old(self).current.total_samples,
            final(self).current.encoder_delay == old(self).current.encoder_delay,
            final(self).current.channels == old(self).current.channels,
            final(self).current.sample_rate == old(self).current.sample_rate,
    {
        self.next = None;
        self.just_transitioned = false;
        let mut current = self.current;
        current.seek_to(position_ms);
        self.current = current;
    }

    /// The format of the current track.
    pub fn format(&self) -> (f: AudioFormat)
        ensures
            f == format_of(self.current),
    {
        AudioFormat { sample_rate: self.current.sample_rate, channels: self.current.channels as u16 }
    }

    /// The format of the preloaded track, if any.
    pub fn next_format(&self) -> (f: Option<AudioFormat>)
        ensures
            f == (match self.next {
                Some(n) => Some(format_of(n)),
                None => None,
            }),
    {
        match self.next {
            Some(n) => Some(AudioFormat { sample_rate: n.sample_rate, channels: n.channels as u16 }),
            None => None,
        }
    }

    /// Whether a track is preloaded.
    pub fn has_preloaded_next(&self) -> (b: bool)
        ensures
            b == self.next is Some,
    {
        self.next.is_some()
    }

    /// The encoder delay of the current track.
    pub fn encoder_delay(&self) -> (d: Option<EncoderDelay>)
        ensures
            d == self.current.encoder_delay,
    {
        self.current.encoder_delay
    }

    /// The length of the current track in frames, if known.
    pub fn total_samples(&self) -> (t: Option<u64>)
        ensures
            t == self.current.total_samples,
    {
        self.current.total_samples
    }

    /// Frames of the current track decoded so far.
    pub fn samples_decoded(&self) -> (n: u64)
        ensures
            n == self.current.samples_decoded,
    {
        self.current.samples_decoded
    }

    /// How playback will move on when the current track ends.
    pub fn transition_type(&self) -> (t: TransitionType)
        ensures
            t == spec_transition_type(
                format_of(self.current),
                match self.next {
                    Some(n) => Some(format_of(n)),
                    None => None,
                },
            ),
    {
        transition_type(self.format(), self.next_format())
    }

    /// Whether the preloaded track can follow without reopening the output.
    pub fn can_transition_gapless(&self) -> (b: bool)
        ensures
            b == (self.next is Some && format_of(self.current).spec_is_gapless_compatible(
                format_of(self.next->0),
            )),
    {
        can_transition_gapless(self.format(), self.next_format())
    }
}

} // verus!
