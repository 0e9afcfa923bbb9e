//! Encoder delay and padding detection for gapless playback.
//!
//! MP3: the LAME tag stores the delay (upper 12 bits) and the padding
//! (lower 12 bits) in the three bytes 21..24 after the "LAME" signature.
//! AAC: the iTunSMPB tag is a whitespace-separated list of hexadecimal fields;
//! field 1 is the delay and field 2 the padding.

use vstd::prelude::*;

use crate::text::{split_whitespace_chars, str_chars, words};

verus! {

/// Samples to skip at the start (encoder delay) and at the end (padding).
#[derive(Debug, Clone, Copy, PartialEq, Eq, Structural)]
pub struct EncoderDelay {
    /// Number of samples to skip at the start of the stream.
    pub start_samples: u64,
    /// Number of samples to skip at the end of the stream.
    pub end_samples: u64,
}

impl Default for EncoderDelay {
    fn default() -> (d: Self)
        ensures
            d.start_samples == 0,
            d.end_samples == 0,
    {
        EncoderDelay { start_samples: 0, end_samples: 0 }
    }
}

impl EncoderDelay {
    /// Whether there is anything to trim.
    pub open spec fn spec_has_trimming(self) -> bool {
        self.start_samples > 0 || self.end_samples > 0
    }

    /// Create a delay record.
    pub fn new(start_samples: u64, end_samples: u64) -> (d: Self)
        ensures
            d.start_samples == start_samples,
            d.end_samples == end_samples,
    {
        EncoderDelay { start_samples, end_samples }
    }

    /// True when there is any delay or padding to trim.
    pub fn has_trimming(&self) -> (b: bool)
        ensures
            b == self.spec_has_trimming(),
    {
        self.start_samples > 0 || self.end_samples > 0
    }

    /// Detect encoder delay in raw file data (MP3 LAME tag).
    pub fn detect(data: &[u8]) -> (r: Option<Self>)
        ensures
            r == spec_parse_mp3_lame(data@),
    {
        parse_mp3_lame_header(data)
    }
}

/// Only the first 2048 bytes are searched for the LAME signature.
pub open spec fn lame_search_limit(data: Seq<u8>) -> int {
    if data.len() < 2048 {
        data.len() as int
    } else {
        2048
    }
}

/// "LAME" starts at `p`, all four bytes within the search window.
pub open spec fn lame_signature_at(data: Seq<u8>, p: int) -> bool {
    &&& 0 <= p
    &&& p + 4 <= lame_search_limit(data)
    &&& data[p] == 0x4C
    &&& data[p + 1] == 0x41
    &&& data[p + 2] == 0x4D
    &&& data[p + 3] == 0x45
}

/// `p` is the first position of the signature within the search window.
pub open spec fn first_lame_signature(data: Seq<u8>, p: int) -> bool {
    &&& lame_signature_at(data, p)
    &&& forall|q: int| 0 <= q < p ==> !lame_signature_at(data, q)
}

/// The 24-bit big-endian value at offset `p + 21`.
pub open spec fn lame_packed(data: Seq<u8>, p: int) -> int {
    (data[p + 21] as int) * 65536 + (data[p + 22] as int) * 256 + (data[p + 23] as int)
}

/// What the LAME tag whose signature starts at `p` encodes, if anything.
pub open spec fn lame_delay_at(data: Seq<u8>, p: int) -> Option<EncoderDelay> {
    if data.len() < p + 24 {
        None
    } else {
        let delay = lame_packed(data, p) / 4096;
        let padding = lame_packed(data, p) % 4096;
        if delay == 0 && padding == 0 {
            None
        } else {
            Some(EncoderDelay { start_samples: delay as u64, end_samples: padding as u64 })
        }
    }
}

/// Result of LAME-tag parsing: the delay encoded at the first signature, if any.
pub open spec fn spec_parse_mp3_lame(data: Seq<u8>) -> Option<EncoderDelay> {
    if exists|p: int| first_lame_signature(data, p) {
        lame_delay_at(data, choose|p: int| first_lame_signature(data, p))
    } else {
        None
    }
}

proof fn lemma_first_lame_unique(data: Seq<u8>, p: int, q: int)
    requires
        first_lame_signature(data, p),
        first_lame_signature(data, q),
    ensures
        p == q,
{
}

/// Parse encoder delay and padding from an MP3 LAME/Xing header.
///
/// The first "LAME" within the first 2048 bytes is used; the 24 bits at
/// offset 21 after it hold the delay (upper 12) and the padding (lower 12).
/// No signature, too little data after it, or both values zero gives `None`.
pub fn parse_mp3_lame_header(data: &[u8]) -> (r: Option<EncoderDelay>)
    ensures
        r == spec_parse_mp3_lame(data@),
        r is Some ==> r->0.start_samples <= 4095 && r->0.end_samples <= 4095,
{
    let len = data.len();
    let search_limit: usize = if len < 2048 {
        len
    } else {
        2048
    };
    let mut pos: usize = 0;
    let mut found = false;
    while !found && pos + 4 <= search_limit
        invariant
            len == data@.len(),
            search_limit == lame_search_limit(data@),
            search_limit <= 2048,
            pos <= search_limit,
            forall|q: int| 0 <= q < pos ==> !lame_signature_at(data@, q),
            found ==> first_lame_signature(data@, pos as int),
        decreases search_limit + 1 - pos - (if found { 1int } else { 0int }),
    {
        if data[pos] == 0x4C && data[pos + 1] == 0x41 && data[pos + 2] == 0x4D && data[pos + 3]
            == 0x45 {
            found = true;
        } else {
            pos = pos + 1;
        }
    }
    if !found {
        assert(!exists|p: int| first_lame_signature(data@, p)) by {
            assert forall|p: int| !first_lame_signature(data@, p) by {
                if p >= pos {
                    assert(!lame_signature_at(data@, p));
                }
            }
        }
        return None;
    }
    proof {
        let c = choose|p: int| first_lame_signature(data@, p);
        lemma_first_lame_unique(data@, c, pos as int);
    }
    if len < pos + 24 {
        return None;
    }
    let delay_offset = pos + 21;
    let byte0 = data[delay_offset] as u32;
    let byte1 = data[delay_offset + 1] as u32;
    let byte2 = data[delay_offset + 2] as u32;
    let packed = (byte0 << 16) | (byte1 << 8) | byte2;
    let encoder_delay = packed >> 12;
    let encoder_padding = packed & 0x0FFF;
    assert(packed == byte0 * 65536 + byte1 * 256 + byte2 && encoder_delay == packed / 4096
        && encoder_padding == packed % 4096 && encoder_delay <= 4095) by (bit_vector)
        requires
            byte0 < 256,
            byte1 < 256,
            byte2 < 256,
            packed == (byte0 << 16) | (byte1 << 8) | byte2,
            encoder_delay == packed >> 12,
            encoder_padding == packed & 0x0FFF,
    ;
    if encoder_delay > 10000 || encoder_padding > 10000 {
        return None;
    }
    if encoder_delay == 0 && encoder_padding == 0 {
        return None;
    }
    Some(EncoderDelay::new(encoder_delay as u64, encoder_padding as u64))
}

/// The LAME tag's delay is the twelve bits made of byte 21 after the
/// signature and the high nibble of byte 22; its padding is the twelve bits
/// made of the low nibble of byte 22 and byte 23. With the first signature
/// of the search window at `p` and those bytes present, parsing gives these
/// two values, or nothing when both are zero.
pub proof fn lemma_lame_delay_and_padding_bits(data: Seq<u8>, p: int)
    requires
        first_lame_signature(data, p),
        p + 24 <= data.len(),
    ensures
        ({
            let delay = (data[p + 21] as int) * 16 + (data[p + 22] as int) / 16;
            let padding = ((data[p + 22] as int) % 16) * 256 + (data[p + 23] as int);
            &&& (delay != 0 || padding != 0) ==> spec_parse_mp3_lame(data) == Some(
                EncoderDelay { start_samples: delay as u64, end_samples: padding as u64 },
            )
            &&& (delay == 0 && padding == 0) ==> spec_parse_mp3_lame(data) is None
        }),
{
    let b0 = data[p + 21] as int;
    let b1 = data[p + 22] as int;
    let b2 = data[p + 23] as int;
    let delay = b0 * 16 + b1 / 16;
    let padding = (b1 % 16) * 256 + b2;
    assert(b1 == 16 * (b1 / 16) + b1 % 16);
    assert(lame_packed(data, p) == delay * 4096 + padding);
    vstd::arithmetic::div_mod::lemma_fundamental_div_mod_converse(
        lame_packed(data, p),
        4096,
        delay,
        padding,
    );
    let c = choose|q: int| first_lame_signature(data, q);
    lemma_first_lame_unique(data, c, p);
}

/// Without the bytes "LAME" within the first 2048 bytes there is no tag,
/// and so no delay.
pub proof fn lemma_lame_needs_signature(data: Seq<u8>)
    requires
        forall|p: int|
            0 <= p && p + 4 <= data.len() && p + 4 <= 2048 ==> #[trigger] data.subrange(p, p + 4)
                != seq![0x4Cu8, 0x41u8, 0x4Du8, 0x45u8],
    ensures
        spec_parse_mp3_lame(data) is None,
{
    assert forall|p: int| !first_lame_signature(data, p) by {
        if lame_signature_at(data, p) {
            assert(data.subrange(p, p + 4) =~= seq![0x4Cu8, 0x41u8, 0x4Du8, 0x45u8]);
        }
    }
}

/// Value of a hexadecimal digit, if `c` is one.
pub open spec fn hex_digit(c: char) -> Option<nat> {
    if '0' <= c <= '9' {
        Some((c as nat - '0' as nat) as nat)
    } else if 'a' <= c <= 'f' {
        Some((c as nat - 'a' as nat + 10) as nat)
    } else if 'A' <= c <= 'F' {
        Some((c as nat - 'A' as nat + 10) as nat)
    } else {
        None
    }
}

/// All characters are hexadecimal digits.
pub open spec fn all_hex(s: Seq<char>) -> bool {
    forall|i: int| 0 <= i < s.len() ==> (#[trigger] hex_digit(s[i])) is Some
}

/// Numeric value of a string of hexadecimal digits (most significant first).
pub open spec fn hex_value(s: Seq<char>) -> nat
    decreases s.len(),
{
    if s.len() == 0 {
        0
    } else {
        hex_value(s.drop_last()) * 16 + hex_digit(s.last()).unwrap_or(0)
    }
}

/// What `u64::from_str_radix(s, 16)` returns: an optional leading `+`, then
/// at least one hexadecimal digit, and a value that fits in 64 bits.
pub open spec fn spec_parse_hex_u64(s: Seq<char>) -> Option<u64> {
    let digits = if s.len() > 0 && s[0] == '+' {
        s.drop_first()
    } else {
        s
    };
    if digits.len() == 0 || !all_hex(digits) || hex_value(digits) > u64::MAX {
        None
    } else {
        Some(hex_value(digits) as u64)
    }
}

/// Result of iTunSMPB parsing.
pub open spec fn spec_parse_itunes_smpb(s: Seq<char>) -> Option<EncoderDelay> {
    let fields = words(s);
    if fields.len() < 3 {
        None
    } else {
        match (spec_parse_hex_u64(fields[1]), spec_parse_hex_u64(fields[2])) {
            (Some(delay), Some(padding)) => {
                if delay > 100_000 || padding > 100_000 {
                    None
                } else if delay == 0 && padding == 0 {
                    None
                } else {
                    Some(EncoderDelay { start_samples: delay, end_samples: padding })
                }
            },
            _ => None,
        }
    }
}

fn hex_digit_value(c: char) -> (r: Option<u64>)
    ensures
        r is Some <==> hex_digit(c) is Some,
        r is Some ==> r->0 == hex_digit(c)->0 && r->0 < 16,
{
    if '0' <= c && c <= '9' {
        Some((c as u64) - ('0' as u64))
    } else if 'a' <= c && c <= 'f' {
        Some((c as u64) - ('a' as u64) + 10)
    } else if 'A' <= c && c <= 'F' {
        Some((c as u64) - ('A' as u64) + 10)
    } else {
        None
    }
}

proof fn lemma_hex_value_monotone(s: Seq<char>, n: int)
    requires
        0 <= n <= s.len(),
    ensures
        hex_value(s.take(n)) <= hex_value(s),
    decreases s.len(),
{
    if n < s.len() {
        assert(s.drop_last().take(n) =~= s.take(n));
        lemma_hex_value_monotone(s.drop_last(), n);
    } else {
        assert(s.take(n) =~= s);
    }
}

/// Parse an unsigned hexadecimal number the way `u64::from_str_radix(_, 16)` does.
pub fn parse_hex_u64(s: &[char]) -> (r: Option<u64>)
    ensures
        r == spec_parse_hex_u64(s@),
{
    let n = s.len();
    let start: usize = if n > 0 && s[0] == '+' {
        1
    } else {
        0
    };
    let ghost digits = if s@.len() > 0 && s@[0] == '+' {
        s@.drop_first()
    } else {
        s@
    };
    assert(digits =~= s@.subrange(start as int, n as int));
    if start >= n {
        return None;
    }
    let mut value: u64 = 0;
    let mut i: usize = start;
    while i < n
        invariant
            n == s@.len(),
            start <= i <= n,
            digits =~= s@.subrange(start as int, n as int),
            digits == (if s@.len() > 0 && s@[0] == '+' {
                s@.drop_first()
            } else {
                s@
            }),
            value == hex_value(digits.take(i - start)),
            all_hex(digits.take(i - start)),
        decreases n - i,
    {
        let d = hex_digit_value(s[i]);
        let ghost k = (i - start) as int;
        assert(digits.take(k + 1).drop_last() =~= digits.take(k));
        assert(digits.take(k + 1).last() == s@[i as int]);
        match d {
            None => {
                assert(digits[k] == s@[i as int]);
                assert(!all_hex(digits)) by {
                    assert(hex_digit(digits[k]) is None);
                }
                assert(spec_parse_hex_u64(s@) is None);
                return None;
            },
            Some(dv) => {
                if value > (u64::MAX - dv) / 16 {
                    proof {
                        assert(hex_value(digits.take(k + 1)) == value * 16 + dv);
                        assert(value * 16 + dv > u64::MAX) by (nonlinear_arith)
                            requires
                                value > (u64::MAX - dv) / 16,
                                dv < 16,
                        ;
                        lemma_hex_value_monotone(digits, k + 1);
                        assert(hex_value(digits) > u64::MAX);
                        assert(spec_parse_hex_u64(s@) is None);
                    }
                    return None;
                }
                assert(value * 16 + dv <= u64::MAX) by (nonlinear_arith)
                    requires
                        value <= (u64::MAX - dv) / 16,
                        dv < 16,
                ;
                value = value * 16 + dv;
                assert(all_hex(digits.take(k + 1))) by {
                    assert forall|j: int| 0 <= j < k + 1 implies #[trigger] hex_digit(
                        digits.take(k + 1)[j],
                    ) is Some by {
                        if j < k {
                            assert(digits.take(k + 1)[j] == digits.take(k)[j]);
                        }
                    }
                }
            },
        }
        i = i + 1;
    }
    assert(digits.take(n - start) =~= digits);
    Some(value)
}

/// Parse encoder delay and padding from an AAC iTunSMPB tag value.
///
/// The value is split on whitespace; it needs at least three fields. Field 1
/// is the delay and field 2 the padding, both hexadecimal. Values above
/// 100000, or both zero, give `None`.
pub fn parse_aac_itunes_smpb(metadata: &str) -> (r: Option<EncoderDelay>)
    ensures
        r == spec_parse_itunes_smpb(metadata@),
{
    let chars = str_chars(metadata);
    let fields = split_whitespace_chars(chars.as_slice());
    if fields.len() < 3 {
        return None;
    }
    let encoder_delay = match parse_hex_u64(fields[1].as_slice()) {
        Some(v) => v,
        None => {
            return None;
        },
    };
    let encoder_padding = match parse_hex_u64(fields[2].as_slice()) {
        Some(v) => v,
        None => {
            return None;
        },
    };
    if encoder_delay > 100_000 || encoder_padding > 100_000 {
        return None;
    }
    if encoder_delay == 0 && encoder_padding == 0 {
        return None;
    }
    Some(EncoderDelay::new(encoder_delay, encoder_padding))
}

/// An iTunSMPB value gives its second whitespace-separated field, read as
/// hexadecimal, as the delay and its third as the padding; the first field
/// is not read. Whatever is given back has both values at most 100000 and
/// not both zero.
pub proof fn lemma_itunes_smpb_reads_second_and_third_fields(s: Seq<char>)
    ensures
        spec_parse_itunes_smpb(s) matches Some(d) ==> {
            &&& words(s).len() >= 3
            &&& spec_parse_hex_u64(words(s)[1]) == Some(d.start_samples)
            &&& spec_parse_hex_u64(words(s)[2]) == Some(d.end_samples)
            &&& d.start_samples <= 100_000 && d.end_samples <= 100_000
            &&& d.start_samples > 0 || d.end_samples > 0
        },
{
}

/// When the second and third fields of an iTunSMPB value are hexadecimal
/// numbers `delay` and `padding` of at most 100000, not both zero, they are
/// what parsing gives, in that order.
pub proof fn lemma_itunes_smpb_accepts(s: Seq<char>, delay: u64, padding: u64)
    requires
        words(s).len() >= 3,
        spec_parse_hex_u64(words(s)[1]) == Some(delay),
        spec_parse_hex_u64(words(s)[2]) == Some(padding),
        delay <= 100_000,
        padding <= 100_000,
        delay > 0 || padding > 0,
    ensures
        spec_parse_itunes_smpb(s) == Some(EncoderDelay { start_samples: delay, end_samples: padding }),
{
}

} // verus!
