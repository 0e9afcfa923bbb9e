//! DSD container decoding (DSF and DFF): header parsing, block layout and
//! byte positions. Reading and seeking the file is left to the caller; the
//! functions here decide what the bytes mean and where to read next.

use vstd::prelude::*;

verus! {

#[verifier::external_type_specification]
#[verifier::external_body]
pub struct ExIoError(std::io::Error);

/// Errors of DSD decoding.
#[derive(Debug)]
pub enum DsdError {
    Io(std::io::Error),
    InvalidDsf,
    InvalidDff,
    DstNotSupported,
    UnsupportedChannels(usize),
    UnexpectedEof,
}

/// DSD container format.
#[derive(Debug, Clone, Copy, PartialEq, Eq, Structural)]
pub enum DsdFormat {
    Dsf,
    Dff,
}

/// Stream properties of a DSD file.
#[derive(Debug, Clone, Copy, PartialEq, Eq, Structural)]
pub struct DsdInfo {
    pub format: DsdFormat,
    pub sample_rate: u32,
    pub channels: usize,
    pub total_samples: u64,
    pub bits_per_sample: u32,
}

/// DSF stores audio in blocks of 4096 bytes per channel.
pub const DSF_BLOCK_SIZE: usize = 4096;

/// Bit-reversal lookup table (LSB-first to MSB-first).
pub const BIT_REVERSE_TABLE: [u8; 256] = [
    0x00, 0x80, 0x40, 0xC0, 0x20, 0xA0, 0x60, 0xE0,
    0x10, 0x90, 0x50, 0xD0, 0x30, 0xB0, 0x70, 0xF0,
    0x08, 0x88, 0x48, 0xC8, 0x28, 0xA8, 0x68, 0xE8,
    0x18, 0x98, 0x58, 0xD8, 0x38, 0xB8, 0x78, 0xF8,
    0x04, 0x84, 0x44, 0xC4, 0x24, 0xA4, 0x64, 0xE4,
    0x14, 0x94, 0x54, 0xD4, 0x34, 0xB4, 0x74, 0xF4,
    0x0C, 0x8C, 0x4C, 0xCC, 0x2C, 0xAC, 0x6C, 0xEC,
    0x1C, 0x9C, 0x5C, 0xDC, 0x3C, 0xBC, 0x7C, 0xFC,
    0x02, 0x82, 0x42, 0xC2, 0x22, 0xA2, 0x62, 0xE2,
    0x12, 0x92, 0x52, 0xD2, 0x32, 0xB2, 0x72, 0xF2,
    0x0A, 0x8A, 0x4A, 0xCA, 0x2A, 0xAA, 0x6A, 0xEA,
    0x1A, 0x9A, 0x5A, 0xDA, 0x3A, 0xBA, 0x7A, 0xFA,
    0x06, 0x86, 0x46, 0xC6, 0x26, 0xA6, 0x66, 0xE6,
    0x16, 0x96, 0x56, 0xD6, 0x36, 0xB6, 0x76, 0xF6,
    0x0E, 0x8E, 0x4E, 0xCE, 0x2E, 0xAE, 0x6E, 0xEE,
    0x1E, 0x9E, 0x5E, 0xDE, 0x3E, 0xBE, 0x7E, 0xFE,
    0x01, 0x81, 0x41, 0xC1, 0x21, 0xA1, 0x61, 0xE1,
    0x11, 0x91, 0x51, 0xD1, 0x31, 0xB1, 0x71, 0xF1,
    0x09, 0x89, 0x49, 0xC9, 0x29, 0xA9, 0x69, 0xE9,
    0x19, 0x99, 0x59, 0xD9, 0x39, 0xB9, 0x79, 0xF9,
    0x05, 0x85, 0x45, 0xC5, 0x25, 0xA5, 0x65, 0xE5,
    0x15, 0x95, 0x55, 0xD5, 0x35, 0xB5, 0x75, 0xF5,
    0x0D, 0x8D, 0x4D, 0xCD, 0x2D, 0xAD, 0x6D, 0xED,
    0x1D, 0x9D, 0x5D, 0xDD, 0x3D, 0xBD, 0x7D, 0xFD,
    0x03, 0x83, 0x43, 0xC3, 0x23, 0xA3, 0x63, 0xE3,
    0x13, 0x93, 0x53, 0xD3, 0x33, 0xB3, 0x73, 0xF3,
    0x0B, 0x8B, 0x4B, 0xCB, 0x2B, 0xAB, 0x6B, 0xEB,
    0x1B, 0x9B, 0x5B, 0xDB, 0x3B, 0xBB, 0x7B, 0xFB,
    0x07, 0x87, 0x47, 0xC7, 0x27, 0xA7, 0x67, 0xE7,
    0x17, 0x97, 0x57, 0xD7, 0x37, 0xB7, 0x77, 0xF7,
    0x0F, 0x8F, 0x4F, 0xCF, 0x2F, 0xAF, 0x6F, 0xEF,
    0x1F, 0x9F, 0x5F, 0xDF, 0x3F, 0xBF, 0x7F, 0xFF,
];

/// Bit `j` of `b`.
pub open spec fn bit(b: u8, j: u8) -> u8 {
    (b >> j) & 1
}

/// Reverse the bit order of a byte: DSF stores DSD data LSB-first, DSD is
/// naturally MSB-first.
pub fn bit_reverse(byte: u8) -> (r: u8)
    ensures
        forall|j: u8| j < 8 ==> #[trigger] bit(r, j) == bit(byte, (7 - j) as u8),
{
    let b = byte;
    let r: u8 = ((b & 0x01) << 7) | ((b & 0x02) << 5) | ((b & 0x04) << 3) | ((b & 0x08) << 1) | ((b
        & 0x10) >> 1) | ((b & 0x20) >> 3) | ((b & 0x40) >> 5) | ((b & 0x80) >> 7);
    assert forall|j: u8| j < 8 implies #[trigger] bit(r, j) == bit(b, (7 - j) as u8) by {
        assert(((r >> j) & 1) == ((b >> ((7 - j) as u8)) & 1)) by (bit_vector)
            requires
                j < 8,
                r == ((b & 0x01) << 7) | ((b & 0x02) << 5) | ((b & 0x04) << 3) | ((b & 0x08) << 1)
                    | ((b & 0x10) >> 1) | ((b & 0x20) >> 3) | ((b & 0x40) >> 5) | ((b & 0x80) >> 7),
        ;
    }
    r
}

/// The byte whose bits are those of `b` in reverse order.
pub open spec fn reversed(b: u8) -> u8 {
    ((b & 0x01) << 7) | ((b & 0x02) << 5) | ((b & 0x04) << 3) | ((b & 0x08) << 1) | ((b & 0x10)
        >> 1) | ((b & 0x20) >> 3) | ((b & 0x40) >> 5) | ((b & 0x80) >> 7)
}

/// Bit reversal is determined by its bits and is its own inverse.
pub proof fn lemma_bit_reverse_involution(b: u8)
    ensures
        reversed(reversed(b)) == b,
        forall|j: u8| j < 8 ==> #[trigger] bit(reversed(b), j) == bit(b, (7 - j) as u8),
{
    assert(reversed(reversed(b)) == b) by (bit_vector);
    assert forall|j: u8| j < 8 implies #[trigger] bit(reversed(b), j) == bit(b, (7 - j) as u8) by {
        assert(((reversed(b) >> j) & 1) == ((b >> ((7 - j) as u8)) & 1)) by (bit_vector)
            requires
                j < 8,
        ;
    }
}

/// A byte is determined by its eight bits.
pub proof fn lemma_bits_determine_byte(x: u8, y: u8)
    requires
        forall|j: u8| j < 8 ==> #[trigger] bit(x, j) == bit(y, j),
    ensures
        x == y,
{
    assert(bit(x, 0) == bit(y, 0));
    assert(bit(x, 1) == bit(y, 1));
    assert(bit(x, 2) == bit(y, 2));
    assert(bit(x, 3) == bit(y, 3));
    assert(bit(x, 4) == bit(y, 4));
    assert(bit(x, 5) == bit(y, 5));
    assert(bit(x, 6) == bit(y, 6));
    assert(bit(x, 7) == bit(y, 7));
    assert(x == y) by (bit_vector)
        requires
            (x >> 0u8) & 1 == (y >> 0u8) & 1,
            (x >> 1u8) & 1 == (y >> 1u8) & 1,
            (x >> 2u8) & 1 == (y >> 2u8) & 1,
            (x >> 3u8) & 1 == (y >> 3u8) & 1,
            (x >> 4u8) & 1 == (y >> 4u8) & 1,
            (x >> 5u8) & 1 == (y >> 5u8) & 1,
            (x >> 6u8) & 1 == (y >> 6u8) & 1,
            (x >> 7u8) & 1 == (y >> 7u8) & 1,
    ;
}

/// Little-endian value of `n` bytes at `off`.
pub open spec fn le_value(s: Seq<u8>, off: int, n: nat) -> nat
    decreases n,
{
    if n == 0 {
        0
    } else {
        s[off] as nat + 256 * le_value(s, off + 1, (n - 1) as nat)
    }
}

/// Big-endian value of `n` bytes at `off`.
pub open spec fn be_value(s: Seq<u8>, off: int, n: nat) -> nat
    decreases n,
{
    if n == 0 {
        0
    } else {
        be_value(s, off, (n - 1) as nat) * 256 + s[off + n - 1] as nat
    }
}

/// `256^n`.
pub open spec fn pow256(n: nat) -> nat
    decreases n,
{
    if n == 0 {
        1
    } else {
        256 * pow256((n - 1) as nat)
    }
}

proof fn lemma_le_value_bound(s: Seq<u8>, off: int, n: nat)
    ensures
        le_value(s, off, n) < pow256(n),
    decreases n,
{
    if n > 0 {
        lemma_le_value_bound(s, off + 1, (n - 1) as nat);
    }
}

proof fn lemma_pow256_monotone(a: nat, b: nat)
    requires
        a <= b,
    ensures
        pow256(a) <= pow256(b),
    decreases b,
{
    if a < b {
        lemma_pow256_monotone(a, (b - 1) as nat);
    }
}

proof fn lemma_pow256_7()
    ensures
        pow256(7) == 0x100_0000_0000_0000,
{
    reveal_with_fuel(pow256, 8);
}

/// Read `n` (at most 8) little-endian bytes at `off`.
pub fn read_le(s: &[u8], off: usize, n: usize) -> (v: u64)
    requires
        n <= 8,
        off + n <= s@.len(),
    ensures
        v == le_value(s@, off as int, n as nat),
{
    let total = s.len();
    let mut v: u64 = 0;
    let mut k: usize = n;
    while k > 0
        invariant
            total == s@.len(),
            k <= n <= 8,
            off + n <= s@.len(),
            v == le_value(s@, (off + k) as int, (n - k) as nat),
        decreases k,
    {
        proof {
            lemma_le_value_bound(s@, (off + k) as int, (n - k) as nat);
            lemma_pow256_monotone((n - k) as nat, 7);
            lemma_pow256_7();
            assert(v < 0x100_0000_0000_0000);
        }
        k = k - 1;
        let b = s[off + k] as u64;
        assert(256 * v + b <= u64::MAX);
        v = b + 256 * v;
    }
    v
}

/// Read `n` (at most 8) big-endian bytes at `off`.
pub fn read_be(s: &[u8], off: usize, n: usize) -> (v: u64)
    requires
        n <= 8,
        off + n <= s@.len(),
    ensures
        v == be_value(s@, off as int, n as nat),
{
    let total = s.len();
    let mut v: u64 = 0;
    let mut k: usize = 0;
    while k < n
        invariant
            total == s@.len(),
            k <= n <= 8,
            off + n <= s@.len(),
            v == be_value(s@, off as int, k as nat),
            v < pow256(k as nat),
        decreases n - k,
    {
        proof {
            lemma_pow256_monotone(k as nat, 7);
            lemma_pow256_7();
            assert(v < 0x100_0000_0000_0000);
        }
        let b = s[off + k] as u64;
        assert(256 * v + b <= u64::MAX);
        v = v * 256 + b;
        k = k + 1;
    }
    v
}

/// The four bytes at `off` are `a b c d`.
pub open spec fn tag_at(s: Seq<u8>, off: int, a: u8, b: u8, c: u8, d: u8) -> bool {
    &&& off + 4 <= s.len()
    &&& s[off] == a
    &&& s[off + 1] == b
    &&& s[off + 2] == c
    &&& s[off + 3] == d
}

pub(crate) fn has_tag(s: &[u8], off: usize, a: u8, b: u8, c: u8, d: u8) -> (r: bool)
    requires
        off + 4 <= s@.len(),
    ensures
        r == tag_at(s@, off as int, a, b, c, d),
{
    s[off] == a && s[off + 1] == b && s[off + 2] == c && s[off + 3] == d
}

/// Outcome of checking a DSF header (the first 92 bytes of the file).
pub enum DsfCheck {
    TooShort,
    Invalid,
    TooManyChannels(usize),
    Valid,
}

/// The DSF header checks, in the order the file is read: the 28-byte "DSD "
/// chunk, the 52-byte "fmt " chunk (at most two channels), the 12-byte
/// "data" chunk header.
pub open spec fn dsf_check(s: Seq<u8>) -> DsfCheck {
    if s.len() < 28 {
        DsfCheck::TooShort
    } else if !tag_at(s, 0, 0x44, 0x53, 0x44, 0x20) {
        DsfCheck::Invalid
    } else if s.len() < 80 {
        DsfCheck::TooShort
    } else if !tag_at(s, 28, 0x66, 0x6D, 0x74, 0x20) {
        DsfCheck::Invalid
    } else if le_value(s, 52, 4) > 2 {
        DsfCheck::TooManyChannels(le_value(s, 52, 4) as usize)
    } else if s.len() < 92 {
        DsfCheck::TooShort
    } else if !tag_at(s, 80, 0x64, 0x61, 0x74, 0x61) {
        DsfCheck::Invalid
    } else {
        DsfCheck::Valid
    }
}

/// Where the audio of a DSF file lies, and its properties.
#[derive(Debug, Clone, Copy, PartialEq, Eq, Structural)]
pub struct DsfLayout {
    pub info: DsdInfo,
    /// Byte offset of the first audio block.
    pub data_offset: u64,
    /// Bytes of audio (the data chunk without its 12-byte header).
    pub data_size: u64,
}

/// Length of the DSF header that `parse_dsf_header` reads.
pub const DSF_HEADER_LEN: usize = 92;

/// Parse the DSF header: the "DSD " chunk, the "fmt " chunk and the header of
/// the "data" chunk. Too few bytes give `UnexpectedEof`, wrong chunk IDs
/// `InvalidDsf`, more than two channels `UnsupportedChannels`.
pub fn parse_dsf_header(header: &[u8]) -> (r: Result<DsfLayout, DsdError>)
    requires
        dsf_check(header@) is Valid ==> le_value(header@, 84, 8) >= 12,
    ensures
        match dsf_check(header@) {
            DsfCheck::TooShort => r matches Err(DsdError::UnexpectedEof),
            DsfCheck::Invalid => r matches Err(DsdError::InvalidDsf),
            DsfCheck::TooManyChannels(c) => r matches Err(DsdError::UnsupportedChannels(rc)) && rc
                == c,
            DsfCheck::Valid => r matches Ok(l) && l == DsfLayout {
                info: DsdInfo {
                    format: DsdFormat::Dsf,
                    sample_rate: le_value(header@, 56, 4) as u32,
                    channels: le_value(header@, 52, 4) as usize,
                    total_samples: le_value(header@, 64, 8) as u64,
                    bits_per_sample: le_value(header@, 60, 4) as u32,
                },
                data_offset: DSF_HEADER_LEN as u64,
                data_size: (le_value(header@, 84, 8) - 12) as u64,
            },
        },
{
    let len = header.len();
    if len < 28 {
        return Err(DsdError::UnexpectedEof);
    }
    if !has_tag(header, 0, 0x44, 0x53, 0x44, 0x20) {
        return Err(DsdError::InvalidDsf);
    }
    if len < 80 {
        return Err(DsdError::UnexpectedEof);
    }
    if !has_tag(header, 28, 0x66, 0x6D, 0x74, 0x20) {
        return Err(DsdError::InvalidDsf);
    }
    let channels = read_le(header, 52, 4);
    let sample_rate = read_le(header, 56, 4);
    let bits_per_sample = read_le(header, 60, 4);
    let total_samples = read_le(header, 64, 8);
    proof {
        lemma_le_value_bound(header@, 52, 4);
        lemma_le_value_bound(header@, 56, 4);
        lemma_le_value_bound(header@, 60, 4);
        reveal_with_fuel(pow256, 5);
    }
    let channels = channels as u32 as usize;
    if channels > 2 {
        return Err(DsdError::UnsupportedChannels(channels));
    }
    if len < 92 {
        return Err(DsdError::UnexpectedEof);
    }
    if !has_tag(header, 80, 0x64, 0x61, 0x74, 0x61) {
        return Err(DsdError::InvalidDsf);
    }
    let data_chunk_size = read_le(header, 84, 8);
    let data_size = data_chunk_size - 12;
    Ok(
        DsfLayout {
            info: DsdInfo {
                format: DsdFormat::Dsf,
                sample_rate: sample_rate as u32,
                channels,
                total_samples,
                bits_per_sample: bits_per_sample as u32,
            },
            data_offset: DSF_HEADER_LEN as u64,
            data_size,
        },
    )
}

/// How many bytes the next DSF block read takes: a whole block for every
/// channel, or what is left of the audio; `None` at the end.
pub fn dsf_next_read(channels: usize, data_size: u64, current_offset: u64) -> (r: Option<usize>)
    requires
        DSF_BLOCK_SIZE * channels <= usize::MAX,
    ensures
        current_offset >= data_size ==> r is None,
        current_offset < data_size ==> r == Some(
            if DSF_BLOCK_SIZE * channels < ((data_size - current_offset) as u64) as usize {
                (DSF_BLOCK_SIZE * channels) as usize
            } else {
                ((data_size - current_offset) as u64) as usize
            },
        ),
{
    if current_offset >= data_size {
        return None;
    }
    let block = DSF_BLOCK_SIZE * channels;
    let remaining = (data_size - current_offset) as usize;
    Some(
        if block < remaining {
            block
        } else {
            remaining
        },
    )
}

/// Interleave a DSF block (`[4096 bytes of channel 0][4096 bytes of channel
/// 1]...`) into `[c0, c1, c0, c1, ...]`, bit-reversing every byte.
pub fn dsf_interleave(block: &[u8], channels: usize) -> (out: Vec<u8>)
    requires
        channels > 0,
        (block@.len() as int) / (channels as int) == 0 || (channels - 1) * DSF_BLOCK_SIZE + (
        block@.len() as int) / (channels as int) <= block@.len(),
    ensures
        out@.len() == (block@.len() as int) / (channels as int) * channels,
        forall|i: int, c: int|
            0 <= i < (block@.len() as int) / (channels as int) && 0 <= c < channels ==> out@[i
                * channels + c] == reversed(#[trigger] block@[c * DSF_BLOCK_SIZE + i]),
{
    let n = block.len();
    let samples = n / channels;
    proof {
        crate::arith::lemma_block_count_product(samples as int, channels as int, n as int);
    }
    let mut out: Vec<u8> = Vec::new();
    let mut i: usize = 0;
    while i < samples
        invariant
            n == block@.len(),
            channels > 0,
            samples == (n as int) / (channels as int),
            samples * channels <= n,
            0 <= i <= samples,
            out@.len() == i * channels,
            samples == 0 || (channels - 1) * DSF_BLOCK_SIZE + samples <= n,
            forall|k: int|
                0 <= k < out@.len() ==> out@[k] == reversed(
                    block@[(k % (channels as int)) * DSF_BLOCK_SIZE + k / (channels as int)],
                ),
        decreases samples - i,
    {
        let mut ch: usize = 0;
        while ch < channels
            invariant
                n == block@.len(),
                channels > 0,
                samples == (n as int) / (channels as int),
                i < samples,
                0 <= ch <= channels,
                out@.len() == i * channels + ch,
                samples == 0 || (channels - 1) * DSF_BLOCK_SIZE + samples <= n,
                forall|k: int|
                    0 <= k < out@.len() ==> out@[k] == reversed(
                        block@[(k % (channels as int)) * DSF_BLOCK_SIZE + k / (channels as int)],
                    ),
            decreases channels - ch,
        {
            assert((ch as int) * DSF_BLOCK_SIZE + (i as int) < block@.len());
            let byte = block[ch * DSF_BLOCK_SIZE + i];
            let r = bit_reverse(byte);
            proof {
                crate::arith::lemma_interleaved_index(i as int, ch as int, channels as int);
                lemma_bit_reverse_involution(byte);
                lemma_bits_determine_byte(r, reversed(byte));
            }
            out.push(r);
            ch = ch + 1;
        }
        assert((i + 1) * channels == i * channels + channels) by (nonlinear_arith);
        i = i + 1;
    }
    proof {
        assert forall|i: int, c: int|
            0 <= i < (block@.len() as int) / (channels as int) && 0 <= c < channels implies out@[i
                * channels + c] == reversed(#[trigger] block@[c * DSF_BLOCK_SIZE + i]) by {
            crate::arith::lemma_interleaved_index(i, c, channels as int);
            assert(i * channels + c < samples * channels) by (nonlinear_arith)
                requires
                    i < samples,
                    c < channels,
            ;
        }
    }
    out
}

/// Byte offset (relative to the audio start) of the DSF block holding `offset`.
pub fn dsf_seek_offset(offset: u64, channels: usize) -> (r: u64)
    requires
        channels > 0,
        DSF_BLOCK_SIZE * channels <= u64::MAX,
    ensures
        r == (offset as int) / ((DSF_BLOCK_SIZE * channels) as int) * ((DSF_BLOCK_SIZE * channels) as int),
        r <= offset,
{
    let block = DSF_BLOCK_SIZE as u64 * channels as u64;
    proof {
        vstd::arithmetic::div_mod::lemma_fundamental_div_mod(offset as int, block as int);
        vstd::arithmetic::div_mod::lemma_mod_bound(offset as int, block as int);
        crate::arith::lemma_block_count_product(
            (offset / block) as int,
            block as int,
            offset as int,
        );
    }
    (offset / block) * block
}

/// How many bytes the next DFF read takes: `size`, or what is left; `None` at the end.
pub fn dff_next_read(size: usize, data_size: u64, current_offset: u64) -> (r: Option<usize>)
    ensures
        current_offset >= data_size ==> r is None,
        current_offset < data_size ==> r == Some(
            if size < ((data_size - current_offset) as u64) as usize {
                size
            } else {
                ((data_size - current_offset) as u64) as usize
            },
        ),
{
    if current_offset >= data_size {
        return None;
    }
    let remaining = (data_size - current_offset) as usize;
    Some(
        if size < remaining {
            size
        } else {
            remaining
        },
    )
}

/// DFF seek target relative to the audio start: the offset, clamped to the audio size.
pub fn dff_seek_offset(offset: u64, data_size: u64) -> (r: u64)
    ensures
        r == if offset < data_size {
            offset
        } else {
            data_size
        },
{
    if offset < data_size {
        offset
    } else {
        data_size
    }
}

/// Audio bytes per second: one bit per sample and channel, so the rate
/// over eight, times the channels.
pub open spec fn dsd_bytes_per_second(info: DsdInfo) -> int {
    (info.sample_rate / 8) * info.channels
}

/// Byte offset of playback position `position_ms`:
/// `position_ms * bytes_per_second / 1000`.
pub fn dsd_seek_byte_offset(info: &DsdInfo, position_ms: u64) -> (r: u64)
    requires
        position_ms * dsd_bytes_per_second(*info) <= u64::MAX,
    ensures
        r == position_ms * dsd_bytes_per_second(*info) / 1000,
{
    let per_sec = (info.sample_rate / 8) as u64;
    if position_ms == 0 || per_sec == 0 || info.channels == 0 {
        proof {
            assert(position_ms * dsd_bytes_per_second(*info) == 0) by (nonlinear_arith)
                requires
                    position_ms == 0 || per_sec == 0 || info.channels == 0,
                    per_sec == info.sample_rate / 8,
            ;
        }
        return 0;
    }
    proof {
        assert(dsd_bytes_per_second(*info) <= position_ms * dsd_bytes_per_second(*info))
            by (nonlinear_arith)
            requires
                position_ms >= 1,
                dsd_bytes_per_second(*info) >= 0,
        ;
        assert(dsd_bytes_per_second(*info) == per_sec * info.channels);
    }
    let bytes_per_second = per_sec * info.channels as u64;
    position_ms * bytes_per_second / 1000
}

/// DFF block size that matches a stereo DSF block.
pub const DFF_READ_SIZE: usize = 8192;

/// Which decoder a file extension selects: "dsf" and "dff" in any ASCII
/// case; `None` means "try DSF, then DFF".
pub fn dsd_format_for_extension(ext: &str) -> (r: Option<DsdFormat>)
    ensures
        r == Some(DsdFormat::Dsf) <==> ascii_ci_equal(ext@, seq!['d', 's', 'f']),
        r == Some(DsdFormat::Dff) <==> ascii_ci_equal(ext@, seq!['d', 'f', 'f']),
{
    let chars = crate::text::str_chars(ext);
    if chars.len() != 3 {
        return None;
    }
    let a = ascii_lower(chars[0]);
    let b = ascii_lower(chars[1]);
    let c = ascii_lower(chars[2]);
    if a == 'd' && b == 's' && c == 'f' {
        Some(DsdFormat::Dsf)
    } else if a == 'd' && b == 'f' && c == 'f' {
        Some(DsdFormat::Dff)
    } else {
        None
    }
}

/// ASCII lower-casing of one character.
pub open spec fn spec_ascii_lower(c: char) -> char {
    if 'A' <= c <= 'Z' {
        ((c as u32) + 32) as char
    } else {
        c
    }
}

fn ascii_lower(c: char) -> (r: char)
    ensures
        r == spec_ascii_lower(c),
{
    if 'A' <= c && c <= 'Z' {
        ((c as u8) + 32) as char
    } else {
        c
    }
}

/// Equal up to ASCII case.
pub open spec fn ascii_ci_equal(a: Seq<char>, b: Seq<char>) -> bool {
    a.len() == b.len() && forall|i: int|
        0 <= i < a.len() ==> spec_ascii_lower(#[trigger] a[i]) == spec_ascii_lower(b[i])
}

/// A DSF header is accepted exactly when all 92 bytes are there, the
/// three chunk IDs ("DSD " at 0, "fmt " at 28, "data" at 80) are in place
/// and it names at most two channels.
pub proof fn lemma_dsf_valid_exactly(s: Seq<u8>)
    ensures
        dsf_check(s) is Valid <==> {
            &&& s.len() >= 92
            &&& s.subrange(0, 4) == seq![0x44u8, 0x53u8, 0x44u8, 0x20u8]
            &&& s.subrange(28, 32) == seq![0x66u8, 0x6Du8, 0x74u8, 0x20u8]
            &&& s.subrange(80, 84) == seq![0x64u8, 0x61u8, 0x74u8, 0x61u8]
            &&& le_value(s, 52, 4) <= 2
        },
        dsf_check(s) matches DsfCheck::TooManyChannels(c) ==> c == le_value(s, 52, 4) as usize
            && le_value(s, 52, 4) > 2,
{
    if s.len() >= 92 {
        assert(tag_at(s, 0, 0x44, 0x53, 0x44, 0x20) <==> s.subrange(0, 4) == seq![
            0x44u8,
            0x53u8,
            0x44u8,
            0x20u8,
        ]) by {
            if s.subrange(0, 4) == seq![0x44u8, 0x53u8, 0x44u8, 0x20u8] {
                assert(s[0] == s.subrange(0, 4)[0] && s[1] == s.subrange(0, 4)[1] && s[2]
                    == s.subrange(0, 4)[2] && s[3] == s.subrange(0, 4)[3]);
            }
            if tag_at(s, 0, 0x44, 0x53, 0x44, 0x20) {
                assert(s.subrange(0, 4) =~= seq![0x44u8, 0x53u8, 0x44u8, 0x20u8]);
            }
        }
        assert(tag_at(s, 28, 0x66, 0x6D, 0x74, 0x20) <==> s.subrange(28, 32) == seq![
            0x66u8,
            0x6Du8,
            0x74u8,
            0x20u8,
        ]) by {
            if s.subrange(28, 32) == seq![0x66u8, 0x6Du8, 0x74u8, 0x20u8] {
                assert(s[28] == s.subrange(28, 32)[0] && s[29] == s.subrange(28, 32)[1] && s[30]
                    == s.subrange(28, 32)[2] && s[31] == s.subrange(28, 32)[3]);
            }
            if tag_at(s, 28, 0x66, 0x6D, 0x74, 0x20) {
                assert(s.subrange(28, 32) =~= seq![0x66u8, 0x6Du8, 0x74u8, 0x20u8]);
            }
        }
        assert(tag_at(s, 80, 0x64, 0x61, 0x74, 0x61) <==> s.subrange(80, 84) == seq![
            0x64u8,
            0x61u8,
            0x74u8,
            0x61u8,
        ]) by {
            if s.subrange(80, 84) == seq![0x64u8, 0x61u8, 0x74u8, 0x61u8] {
                assert(s[80] == s.subrange(80, 84)[0] && s[81] == s.subrange(80, 84)[1] && s[82]
                    == s.subrange(80, 84)[2] && s[83] == s.subrange(80, 84)[3]);
            }
            if tag_at(s, 80, 0x64, 0x61, 0x74, 0x61) {
                assert(s.subrange(80, 84) =~= seq![0x64u8, 0x61u8, 0x74u8, 0x61u8]);
            }
        }
    }
}

} // verus!
