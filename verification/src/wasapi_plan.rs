//! The decisions of the WASAPI backend, apart from the device calls: the
//! speaker mask of a stream, the formats tried in exclusive mode and their
//! order, the stream timing, how samples are encoded for the format the
//! device accepted, how many frames one write hands over, which driver
//! codes end an exclusive open, and the fallback order of format
//! negotiation.

use vstd::prelude::*;

use crate::text::{push_str, str_eq, string_from_chars};

verus! {

/// The device went away (unplugged, default changed).
pub const AUDCLNT_E_DEVICE_INVALIDATED: u32 = 0x8889_0004;

/// Exclusive mode is switched off for the device.
pub const AUDCLNT_E_EXCLUSIVE_MODE_NOT_ALLOWED: u32 = 0x8889_000E;

/// Another client holds the device exclusively.
pub const AUDCLNT_E_DEVICE_IN_USE: u32 = 0x8889_000A;

/// Speaker mask of a stream: front left and right for stereo, front centre
/// for mono, none otherwise.
pub open spec fn spec_channel_mask(channels: u16) -> Option<u32> {
    if channels == 2 {
        Some(3u32)
    } else if channels == 1 {
        Some(4u32)
    } else {
        None
    }
}

/// The speaker mask given to the device for `channels` channels.
pub fn channel_mask(channels: u16) -> (r: Option<u32>)
    ensures
        r == spec_channel_mask(channels),
{
    if channels == 2 {
        Some(3)
    } else if channels == 1 {
        Some(4)
    } else {
        None
    }
}

/// Whether samples are integers or floats.
#[derive(Debug, Clone, Copy, PartialEq, Eq, Structural)]
pub enum SampleKind {
    Int,
    Float,
}

/// One format tried when opening a device exclusively: container size,
/// valid bits and sample kind.
#[derive(Debug, Clone, Copy, PartialEq, Eq, Structural)]
pub struct FormatAttempt {
    pub store_bits: u16,
    pub valid_bits: u16,
    pub kind: SampleKind,
}

pub open spec fn fmt(store_bits: u16, valid_bits: u16, kind: SampleKind) -> FormatAttempt {
    FormatAttempt { store_bits, valid_bits, kind }
}

/// The formats tried, in order, for a source of `bit_depth` bits. Many
/// converters want 24-bit audio in a 32-bit container, so that comes
/// first; 32-bit float is the last resort of the integer depths.
pub open spec fn spec_exclusive_format_attempts(bit_depth: u16) -> Seq<FormatAttempt> {
    if bit_depth == 24 {
        seq![
            fmt(32, 24, SampleKind::Int),
            fmt(24, 24, SampleKind::Int),
            fmt(32, 32, SampleKind::Float),
        ]
    } else if bit_depth == 16 {
        seq![fmt(16, 16, SampleKind::Int), fmt(32, 32, SampleKind::Float)]
    } else if bit_depth == 32 {
        seq![fmt(32, 32, SampleKind::Float), fmt(32, 32, SampleKind::Int)]
    } else {
        seq![fmt(bit_depth, bit_depth, SampleKind::Int)]
    }
}

/// The formats to try, in order, when opening exclusively for a source of
/// `bit_depth` bits.
pub fn exclusive_format_attempts(bit_depth: u16) -> (r: Vec<FormatAttempt>)
    ensures
        r@ == spec_exclusive_format_attempts(bit_depth),
{
    let r = if bit_depth == 24 {
        vec![
            FormatAttempt { store_bits: 32, valid_bits: 24, kind: SampleKind::Int },
            FormatAttempt { store_bits: 24, valid_bits: 24, kind: SampleKind::Int },
            FormatAttempt { store_bits: 32, valid_bits: 32, kind: SampleKind::Float },
        ]
    } else if bit_depth == 16 {
        vec![
            FormatAttempt { store_bits: 16, valid_bits: 16, kind: SampleKind::Int },
            FormatAttempt { store_bits: 32, valid_bits: 32, kind: SampleKind::Float },
        ]
    } else if bit_depth == 32 {
        vec![
            FormatAttempt { store_bits: 32, valid_bits: 32, kind: SampleKind::Float },
            FormatAttempt { store_bits: 32, valid_bits: 32, kind: SampleKind::Int },
        ]
    } else {
        vec![FormatAttempt { store_bits: bit_depth, valid_bits: bit_depth, kind: SampleKind::Int }]
    };
    assert(r@ =~= spec_exclusive_format_attempts(bit_depth));
    r
}

/// How an exclusive stream is clocked. Times are in units of 100 ns.
#[derive(Debug, Clone, Copy, PartialEq, Eq, Structural)]
pub enum ExclusiveTiming {
    /// The player polls; the buffer spans several periods so that it can
    /// refill before the device runs dry.
    Polling { buffer_duration_hns: i64, period_hns: i64 },
    /// The device signals an event each period.
    Events { period_hns: i64 },
}

/// The timing of an exclusive stream: polling mode (timing mode
/// `"polling"`) keeps four periods buffered; any other mode is event
/// driven.
pub open spec fn spec_exclusive_timing(timing_mode: Seq<char>, period_hns: i64) -> ExclusiveTiming {
    if timing_mode == "polling"@ {
        ExclusiveTiming::Polling { buffer_duration_hns: (4 * period_hns) as i64, period_hns }
    } else {
        ExclusiveTiming::Events { period_hns }
    }
}

/// The stream timing for an exclusive open with the given device period.
pub fn exclusive_timing(timing_mode: &str, period_hns: i64) -> (r: ExclusiveTiming)
    requires
        timing_mode@ == "polling"@ ==> i64::MIN <= 4 * period_hns <= i64::MAX,
    ensures
        r == spec_exclusive_timing(timing_mode@, period_hns),
{
    if str_eq(timing_mode, "polling") {
        ExclusiveTiming::Polling { buffer_duration_hns: 4 * period_hns, period_hns }
    } else {
        ExclusiveTiming::Events { period_hns }
    }
}

/// Whether a stream in `timing_mode` gets an event handle: only event
/// timing does (asking for one in polling mode is an error of the device).
pub fn uses_event_handle(timing_mode: &str) -> (r: bool)
    ensures
        r == (timing_mode@ == "event"@),
{
    str_eq(timing_mode, "event")
}

/// Whether a write first waits for the device to ask for data: exclusive
/// streams with event timing do; shared and polling streams do not.
pub fn waits_for_buffer_request(is_exclusive: bool, timing_mode: &str) -> (r: bool)
    ensures
        r == (is_exclusive && timing_mode@ == "event"@),
{
    is_exclusive && str_eq(timing_mode, "event")
}

/// Whether a failed exclusive initialisation means that exclusive mode is
/// unavailable altogether (switched off, or the device is taken), so that
/// no further format is tried.
pub open spec fn spec_blocks_exclusive(code: u32) -> bool {
    code == AUDCLNT_E_EXCLUSIVE_MODE_NOT_ALLOWED || code == AUDCLNT_E_DEVICE_IN_USE
}

/// Whether the driver code `code` ends an exclusive open.
pub fn blocks_exclusive(code: u32) -> (r: bool)
    ensures
        r == spec_blocks_exclusive(code),
{
    code == AUDCLNT_E_EXCLUSIVE_MODE_NOT_ALLOWED || code == AUDCLNT_E_DEVICE_IN_USE
}

/// Whether the driver code `code` says that the device is gone.
pub fn invalidates_device(code: u32) -> (r: bool)
    ensures
        r == (code == AUDCLNT_E_DEVICE_INVALIDATED),
{
    code == AUDCLNT_E_DEVICE_INVALIDATED
}

/// The byte encoding of the samples handed to the device.
#[derive(Debug, Clone, Copy, PartialEq, Eq, Structural)]
pub enum SampleEncoding {
    /// 32-bit float.
    Float32,
    /// 16-bit integer.
    Int16,
    /// 24-bit integer in three bytes.
    Int24,
    /// 24-bit integer in the top of a 32-bit container.
    Int24In32,
    /// 32-bit integer.
    Int32,
}

/// The encoding for a stream of the given kind, container size and valid
/// bits; anything not listed is fed as 32-bit float.
pub open spec fn spec_sample_encoding(kind: SampleKind, bit_depth: u16, valid_bits: u16) -> SampleEncoding {
    if kind == SampleKind::Int && bit_depth == 16 && valid_bits == 16 {
        SampleEncoding::Int16
    } else if kind == SampleKind::Int && bit_depth == 24 && valid_bits == 24 {
        SampleEncoding::Int24
    } else if kind == SampleKind::Int && bit_depth == 32 && valid_bits == 24 {
        SampleEncoding::Int24In32
    } else if kind == SampleKind::Int && bit_depth == 32 && valid_bits == 32 {
        SampleEncoding::Int32
    } else {
        SampleEncoding::Float32
    }
}

/// The encoding of the samples written to a stream of the given format.
pub fn sample_encoding(kind: SampleKind, bit_depth: u16, valid_bits: u16) -> (r: SampleEncoding)
    ensures
        r == spec_sample_encoding(kind, bit_depth, valid_bits),
{
    match kind {
        SampleKind::Int => {
            if bit_depth == 16 && valid_bits == 16 {
                SampleEncoding::Int16
            } else if bit_depth == 24 && valid_bits == 24 {
                SampleEncoding::Int24
            } else if bit_depth == 32 && valid_bits == 24 {
                SampleEncoding::Int24In32
            } else if bit_depth == 32 && valid_bits == 32 {
                SampleEncoding::Int32
            } else {
                SampleEncoding::Float32
            }
        },
        SampleKind::Float => SampleEncoding::Float32,
    }
}

/// Bytes taken by one sample in an encoding.
pub open spec fn spec_bytes_per_sample(e: SampleEncoding) -> nat {
    match e {
        SampleEncoding::Int16 => 2,
        SampleEncoding::Int24 => 3,
        _ => 4,
    }
}

/// The number of bytes one sample takes in `e`.
pub fn bytes_per_sample(e: SampleEncoding) -> (r: usize)
    ensures
        r == spec_bytes_per_sample(e),
{
    match e {
        SampleEncoding::Int16 => 2,
        SampleEncoding::Int24 => 3,
        _ => 4,
    }
}

/// Frames handed over in one write: the whole frames of the input, but no
/// more than the device has room for.
pub open spec fn spec_frames_to_write(sample_count: int, channels: int, available_frames: int) -> int {
    let input_frames = sample_count / channels;
    if input_frames < available_frames {
        input_frames
    } else {
        available_frames
    }
}

/// How many frames of `sample_count` interleaved samples of `channels`
/// channels one write hands to a device with room for `available_frames`.
pub fn frames_to_write(sample_count: usize, channels: usize, available_frames: u32) -> (r: usize)
    requires
        channels > 0,
    ensures
        r == spec_frames_to_write(sample_count as int, channels as int, available_frames as int),
        r <= available_frames,
        r * channels <= sample_count,
{
    let input_frames = sample_count / channels;
    proof {
        assert(input_frames * channels <= sample_count) by (nonlinear_arith)
            requires
                input_frames == sample_count / channels,
                channels > 0,
        ;
    }
    let avail = available_frames as usize;
    let r = if input_frames < avail {
        input_frames
    } else {
        avail
    };
    proof {
        assert(r * channels <= input_frames * channels) by (nonlinear_arith)
            requires
                r <= input_frames,
                channels > 0,
        ;
    }
    r
}

/// How samples are widened when the device took a wider format than the
/// source has.
#[derive(Debug, Clone, Copy, PartialEq, Eq, Structural)]
pub enum PadConversion {
    /// 16-bit source zero-padded to 24 bits.
    Pad16To24,
    /// 16-bit source zero-padded to 32 bits.
    Pad16To32,
}

/// The name under which a conversion is reported.
pub open spec fn spec_pad_conversion_name(c: PadConversion) -> Seq<char> {
    match c {
        PadConversion::Pad16To24 => "pad_16_to_24"@,
        PadConversion::Pad16To32 => "pad_16_to_32"@,
    }
}

impl PadConversion {
    /// The name under which the conversion is reported.
    pub fn name(&self) -> (r: String)
        ensures
            r@ == spec_pad_conversion_name(*self),
    {
        let mut out: Vec<char> = Vec::new();
        match self {
            PadConversion::Pad16To24 => push_str(&mut out, "pad_16_to_24"),
            PadConversion::Pad16To32 => push_str(&mut out, "pad_16_to_32"),
        }
        string_from_chars(out.as_slice())
    }
}

/// One exclusive open tried during negotiation: the bit depth asked for
/// and the conversion the source then needs.
#[derive(Debug, Clone, Copy, PartialEq, Eq, Structural)]
pub struct NegotiationAttempt {
    pub bit_depth: u16,
    pub conversion: Option<PadConversion>,
}

/// Whether a negotiation policy is the strict one (exact format or
/// nothing); every other policy is the compatible one.
pub fn is_strict_policy(policy: &str) -> (r: bool)
    ensures
        r == (policy@ == "strict"@),
{
    str_eq(policy, "strict")
}

/// The opens tried, in order: the source depth first; under the
/// compatible policy a 16-bit source may then be padded to 24 and to 32
/// bits.
pub open spec fn spec_negotiation_plan(bit_depth: u16, strict: bool) -> Seq<NegotiationAttempt> {
    if !strict && bit_depth == 16 {
        seq![
            NegotiationAttempt { bit_depth: 16, conversion: None },
            NegotiationAttempt { bit_depth: 24, conversion: Some(PadConversion::Pad16To24) },
            NegotiationAttempt { bit_depth: 32, conversion: Some(PadConversion::Pad16To32) },
        ]
    } else {
        seq![NegotiationAttempt { bit_depth, conversion: None }]
    }
}

/// The opens to try, in order, for a source of `bit_depth` bits.
pub fn negotiation_plan(bit_depth: u16, strict: bool) -> (r: Vec<NegotiationAttempt>)
    ensures
        r@ == spec_negotiation_plan(bit_depth, strict),
{
    let r = if !strict && bit_depth == 16 {
        vec![
            NegotiationAttempt { bit_depth: 16, conversion: None },
            NegotiationAttempt { bit_depth: 24, conversion: Some(PadConversion::Pad16To24) },
            NegotiationAttempt { bit_depth: 32, conversion: Some(PadConversion::Pad16To32) },
        ]
    } else {
        vec![NegotiationAttempt { bit_depth, conversion: None }]
    };
    assert(r@ =~= spec_negotiation_plan(bit_depth, strict));
    r
}

/// What one exclusive open gave.
#[derive(Debug, Clone, Copy, PartialEq, Eq, Structural)]
pub enum OpenOutcome {
    /// The device is open.
    Opened,
    /// No format for this depth was accepted.
    Unsupported,
    /// Any other failure.
    Failed,
}

/// What negotiation does next.
#[derive(Debug, Clone, Copy, PartialEq, Eq, Structural)]
pub enum NegotiationStep {
    /// Try the attempt at this index of the plan.
    Open { attempt: usize },
    /// Keep the open device; the source needs this conversion.
    Accept { conversion: Option<PadConversion> },
    /// Give up: with the error of the exact open when that was not a
    /// format refusal (`unsupported` false), else with the format refusal.
    Fail { unsupported: bool },
}

/// The step after attempt `attempt` of the plan gave `outcome`: an open
/// device is kept; a failure of the exact open other than a format
/// refusal ends negotiation with that failure; otherwise the next attempt
/// of the plan follows, and after the last one negotiation fails as
/// unsupported.
pub open spec fn spec_negotiation_next(
    bit_depth: u16,
    strict: bool,
    attempt: int,
    outcome: OpenOutcome,
) -> NegotiationStep {
    let plan = spec_negotiation_plan(bit_depth, strict);
    if outcome == OpenOutcome::Opened {
        NegotiationStep::Accept { conversion: plan[attempt].conversion }
    } else if attempt == 0 && outcome == OpenOutcome::Failed {
        NegotiationStep::Fail { unsupported: false }
    } else if attempt + 1 < plan.len() {
        NegotiationStep::Open { attempt: (attempt + 1) as usize }
    } else {
        NegotiationStep::Fail { unsupported: true }
    }
}

/// Decide the next step of negotiation after attempt `attempt` of the
/// plan for (`bit_depth`, `strict`) gave `outcome`.
pub fn negotiation_next(bit_depth: u16, strict: bool, attempt: usize, outcome: OpenOutcome) -> (r:
    NegotiationStep)
    requires
        attempt < spec_negotiation_plan(bit_depth, strict).len(),
    ensures
        r == spec_negotiation_next(bit_depth, strict, attempt as int, outcome),
{
    let plan = negotiation_plan(bit_depth, strict);
    match outcome {
        OpenOutcome::Opened => NegotiationStep::Accept { conversion: plan[attempt].conversion },
        _ => {
            if attempt == 0 && outcome == OpenOutcome::Failed {
                NegotiationStep::Fail { unsupported: false }
            } else if attempt + 1 < plan.len() {
                NegotiationStep::Open { attempt: attempt + 1 }
            } else {
                NegotiationStep::Fail { unsupported: true }
            }
        },
    }
}

/// Under the strict policy, negotiation never pads the source: whatever
/// the opens give, an accepted device needs no conversion.
pub proof fn lemma_strict_never_pads(bit_depth: u16, attempt: int, outcome: OpenOutcome)
    requires
        0 <= attempt < spec_negotiation_plan(bit_depth, true).len(),
    ensures
        spec_negotiation_next(bit_depth, true, attempt, outcome) matches NegotiationStep::Accept {
            conversion,
        } ==> conversion is None,
        spec_negotiation_next(bit_depth, true, attempt, outcome) !is Open,
{
}

/// Only a 16-bit source is ever padded, and then only to 24 or 32 bits.
pub proof fn lemma_only_16_bit_is_padded(bit_depth: u16, strict: bool, attempt: int)
    requires
        0 <= attempt < spec_negotiation_plan(bit_depth, strict).len(),
    ensures
        spec_negotiation_plan(bit_depth, strict)[attempt].conversion is Some ==> bit_depth == 16
            && !strict,
        spec_negotiation_plan(bit_depth, strict)[attempt].conversion == Some(PadConversion::Pad16To24)
            ==> spec_negotiation_plan(bit_depth, strict)[attempt].bit_depth == 24,
        spec_negotiation_plan(bit_depth, strict)[attempt].conversion == Some(PadConversion::Pad16To32)
            ==> spec_negotiation_plan(bit_depth, strict)[attempt].bit_depth == 32,
{
}

/// No exclusive format tried loses precision: every integer format keeps
/// the source's bits in full (its valid bits are the source depth, in a
/// container at least that large), and the only other format tried is
/// 32-bit float.
pub proof fn lemma_format_attempts_keep_source_bits(bit_depth: u16, i: int)
    requires
        0 <= i < spec_exclusive_format_attempts(bit_depth).len(),
    ensures
        spec_exclusive_format_attempts(bit_depth)[i].kind == SampleKind::Int ==> {
            &&& spec_exclusive_format_attempts(bit_depth)[i].valid_bits == bit_depth
            &&& spec_exclusive_format_attempts(bit_depth)[i].store_bits >= bit_depth
        },
        spec_exclusive_format_attempts(bit_depth)[i].kind == SampleKind::Float ==> {
            &&& spec_exclusive_format_attempts(bit_depth)[i].valid_bits == 32
            &&& spec_exclusive_format_attempts(bit_depth)[i].store_bits == 32
        },
        spec_exclusive_format_attempts(bit_depth)[0].kind == SampleKind::Int || bit_depth == 32,
{
}

/// Samples are written in a container of the stream's size: an integer
/// encoding takes exactly `bit_depth` bits per sample and keeps
/// `valid_bits` of them significant; every other stream is fed 32-bit float.
pub proof fn lemma_sample_encoding_fills_container(kind: SampleKind, bit_depth: u16, valid_bits: u16)
    ensures
        spec_sample_encoding(kind, bit_depth, valid_bits) != SampleEncoding::Float32 ==> {
            &&& kind == SampleKind::Int
            &&& spec_bytes_per_sample(spec_sample_encoding(kind, bit_depth, valid_bits)) * 8
                == bit_depth
            &&& valid_bits <= bit_depth
        },
        spec_sample_encoding(kind, bit_depth, valid_bits) == SampleEncoding::Float32 ==> spec_bytes_per_sample(
            spec_sample_encoding(kind, bit_depth, valid_bits),
        ) == 4,
        kind == SampleKind::Float ==> spec_sample_encoding(kind, bit_depth, valid_bits)
            == SampleEncoding::Float32,
{
}

/// One write hands over as many whole frames as it can: never more than
/// the device has room for nor than the input holds, and either all the
/// room is used or no further whole frame is left in the input.
pub proof fn lemma_frames_to_write_is_largest(sample_count: int, channels: int, available_frames: int)
    requires
        sample_count >= 0,
        channels > 0,
        available_frames >= 0,
    ensures
        0 <= spec_frames_to_write(sample_count, channels, available_frames) <= available_frames,
        spec_frames_to_write(sample_count, channels, available_frames) * channels <= sample_count,
        spec_frames_to_write(sample_count, channels, available_frames) == available_frames || (
        spec_frames_to_write(sample_count, channels, available_frames) + 1) * channels
            > sample_count,
{
    let q = sample_count / channels;
    vstd::arithmetic::div_mod::lemma_fundamental_div_mod(sample_count, channels);
    vstd::arithmetic::div_mod::lemma_mod_bound(sample_count, channels);
    assert(q * channels + sample_count % channels == sample_count) by (nonlinear_arith)
        requires
            sample_count == channels * q + sample_count % channels,
    ;
    assert(q >= 0) by (nonlinear_arith)
        requires
            sample_count >= 0,
            channels > 0,
            q == sample_count / channels,
    ;
    let r = spec_frames_to_write(sample_count, channels, available_frames);
    assert(r * channels <= q * channels) by (nonlinear_arith)
        requires
            0 <= r <= q,
            channels > 0,
    ;
    assert((q + 1) * channels == q * channels + channels) by (nonlinear_arith);
}

} // verus!
