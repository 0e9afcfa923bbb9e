//! Opening a DSDIFF (`.dff`) file: a step-by-step reader of its chunk
//! structure.
//!
//! The parser never touches the file. It asks for a number of bytes at a
//! position (`DffParser::request`), the caller reads them (fewer at the end
//! of the file) and hands them back (`DffParser::feed`), until the parser is
//! done and answers with the stream layout or an error. Chunk bodies that
//! are not needed are skipped by moving the position, as a seek would.

use vstd::prelude::*;

use crate::dsd::{be_value, has_tag, read_be, tag_at, DsdError, DsdFormat, DsdInfo};

verus! {

/// Where the parser is in the file's structure.
#[derive(Debug, Clone, Copy)]
pub enum DffPhase {
    /// The `FRM8` container header.
    FormHeader,
    /// The form type, which must be `DSD `.
    FormType,
    /// A top-level chunk header.
    Chunk,
    /// The marker at the start of a `PROP` chunk.
    SoundMarker { chunk_size: u64 },
    /// A sub-chunk header of the sound properties.
    SubChunk { prop_end: u64 },
    /// The sample rate of an `FS  ` sub-chunk.
    SampleRate { prop_end: u64 },
    /// The channel count of a `CHNL` sub-chunk.
    ChannelCount { prop_end: u64, sub_size: u64 },
    /// The compression type of a `CMPR` sub-chunk.
    Compression { prop_end: u64, sub_size: u64 },
    /// Nothing more to read.
    Finished,
}

/// Why parsing stopped early.
#[derive(Debug, Clone, Copy, PartialEq, Eq, Structural)]
pub enum DffFault {
    /// The structure is not that of a DSDIFF file, or a size in it cannot
    /// be followed.
    Invalid,
    /// The audio is DST-compressed.
    Compressed,
    /// The file ended inside a structure that had to be read.
    Truncated,
    /// A chunk size asks for a move before the start of the file or past
    /// the largest position a file can have.
    BadSeek,
}

/// The state of a DFF parse.
#[derive(Debug, Clone, Copy)]
pub struct DffParser {
    pub phase: DffPhase,
    pub pos: u64,
    pub sample_rate: u32,
    pub channels: usize,
    pub data_offset: u64,
    pub data_size: u64,
    pub total_samples: u64,
    pub fault: Option<DffFault>,
}

/// Where the DSD data of a DFF file lies, and what it holds.
#[derive(Debug, Clone, Copy, PartialEq, Eq, Structural)]
pub struct DffLayout {
    pub info: DsdInfo,
    pub data_offset: u64,
    pub data_size: u64,
}

/// What the parser needs next.
#[derive(Debug)]
pub enum DffRequest {
    /// Read `len` bytes at byte `offset` and feed them back (fewer if the
    /// file ends first).
    Read { offset: u64, len: usize },
    /// Parsing is over.
    Done(Result<DffLayout, DsdError>),
}

/// Bytes the parser reads in each phase.
pub open spec fn wanted(phase: DffPhase) -> nat {
    match phase {
        DffPhase::FormHeader => 12,
        DffPhase::FormType => 4,
        DffPhase::Chunk => 12,
        DffPhase::SoundMarker { .. } => 4,
        DffPhase::SubChunk { .. } => 12,
        DffPhase::SampleRate { .. } => 4,
        DffPhase::ChannelCount { .. } => 2,
        DffPhase::Compression { .. } => 4,
        DffPhase::Finished => 0,
    }
}

/// A state the parser can be in: positions stay within what a file offset
/// can be.
pub open spec fn parser_wf(s: DffParser) -> bool {
    &&& s.pos <= i64::MAX
    &&& (s.fault is Some ==> s.phase is Finished)
}

/// A 64-bit size read as the signed offset a seek receives.
pub open spec fn as_signed(x: u64) -> int {
    if x <= i64::MAX {
        x as int
    } else {
        x - 0x1_0000_0000_0000_0000
    }
}

/// The position `delta` bytes from `pos`, when a seek there is possible.
pub open spec fn seek_from(pos: int, delta: int) -> Option<int> {
    if i64::MIN <= delta && 0 <= pos + delta <= i64::MAX {
        Some(pos + delta)
    } else {
        None
    }
}

/// Stop with a fault.
pub open spec fn fail(s: DffParser, f: DffFault) -> DffParser {
    DffParser { phase: DffPhase::Finished, fault: Some(f), ..s }
}

/// Move to `pos` and `phase`.
pub open spec fn at(s: DffParser, pos: int, phase: DffPhase) -> DffParser {
    DffParser { phase, pos: pos as u64, ..s }
}

/// The phase after a sound sub-chunk, at `pos`: the next sub-chunk while
/// inside the properties, otherwise the next top-level chunk.
pub open spec fn prop_phase(pos: int, prop_end: u64) -> DffPhase {
    if pos < prop_end {
        DffPhase::SubChunk { prop_end }
    } else {
        DffPhase::Chunk
    }
}

/// Seek `delta` from `from`, then go on at the top level.
pub open spec fn seek_to_chunk(s: DffParser, from: int, delta: int) -> DffParser {
    match seek_from(from, delta) {
        Some(np) => at(s, np, DffPhase::Chunk),
        None => fail(s, DffFault::BadSeek),
    }
}

/// Seek `delta` from `from` inside the sound properties ending at `prop_end`.
pub open spec fn seek_in_prop(s: DffParser, from: int, delta: int, prop_end: u64) -> DffParser {
    match seek_from(from, delta) {
        Some(np) => at(s, np, prop_phase(np, prop_end)),
        None => fail(s, DffFault::BadSeek),
    }
}

/// The state after handing the parser the bytes `b` read where it asked.
/// A short read is the end of the file: it ends a parse between top-level
/// chunks and truncates it anywhere else.
pub open spec fn dff_step(s: DffParser, b: Seq<u8>) -> DffParser {
    let p = s.pos as int;
    let w = wanted(s.phase);
    if b.len() < w {
        match s.phase {
            DffPhase::Chunk => DffParser { phase: DffPhase::Finished, ..s },
            _ => fail(s, DffFault::Truncated),
        }
    } else if p + w > i64::MAX {
        fail(s, DffFault::Invalid)
    } else {
        let p1 = p + w;
        match s.phase {
            DffPhase::FormHeader => if tag_at(b, 0, 0x46, 0x52, 0x4D, 0x38) {
                at(s, p1, DffPhase::FormType)
            } else {
                fail(s, DffFault::Invalid)
            },
            DffPhase::FormType => if tag_at(b, 0, 0x44, 0x53, 0x44, 0x20) {
                at(s, p1, DffPhase::Chunk)
            } else {
                fail(s, DffFault::Invalid)
            },
            DffPhase::Chunk => {
                let size = be_value(b, 4, 8);
                if tag_at(b, 0, 0x50, 0x52, 0x4F, 0x50) {
                    at(s, p1, DffPhase::SoundMarker { chunk_size: size as u64 })
                } else if tag_at(b, 0, 0x44, 0x53, 0x44, 0x20) {
                    if s.channels == 0 || size * 8 > u64::MAX {
                        fail(s, DffFault::Invalid)
                    } else {
                        seek_to_chunk(
                            DffParser {
                                data_offset: p1 as u64,
                                data_size: size as u64,
                                total_samples: (size * 8 / (s.channels as nat)) as u64,
                                ..s
                            },
                            p1,
                            as_signed(size as u64),
                        )
                    }
                } else {
                    seek_to_chunk(s, p1, as_signed(size as u64))
                }
            },
            DffPhase::SoundMarker { chunk_size } => if tag_at(b, 0, 0x53, 0x4E, 0x44, 0x20) {
                if p1 + chunk_size > u64::MAX {
                    fail(s, DffFault::Invalid)
                } else {
                    let prop_end = (p1 + chunk_size - 4) as u64;
                    at(s, p1, prop_phase(p1, prop_end))
                }
            } else {
                seek_to_chunk(s, p1, as_signed(chunk_size) - 4)
            },
            DffPhase::SubChunk { prop_end } => {
                let sub_size = be_value(b, 4, 8) as u64;
                if tag_at(b, 0, 0x46, 0x53, 0x20, 0x20) {
                    at(s, p1, DffPhase::SampleRate { prop_end })
                } else if tag_at(b, 0, 0x43, 0x48, 0x4E, 0x4C) {
                    at(s, p1, DffPhase::ChannelCount { prop_end, sub_size })
                } else if tag_at(b, 0, 0x43, 0x4D, 0x50, 0x52) {
                    at(s, p1, DffPhase::Compression { prop_end, sub_size })
                } else {
                    seek_in_prop(s, p1, as_signed(sub_size), prop_end)
                }
            },
            DffPhase::SampleRate { prop_end } => at(
                DffParser { sample_rate: be_value(b, 0, 4) as u32, ..s },
                p1,
                prop_phase(p1, prop_end),
            ),
            DffPhase::ChannelCount { prop_end, sub_size } => seek_in_prop(
                DffParser { channels: be_value(b, 0, 2) as usize, ..s },
                p1,
                as_signed(sub_size) - 2,
                prop_end,
            ),
            DffPhase::Compression { prop_end, sub_size } => if tag_at(
                b,
                0,
                0x44,
                0x53,
                0x44,
                0x20,
            ) {
                seek_in_prop(s, p1, as_signed(sub_size) - 4, prop_end)
            } else {
                fail(s, DffFault::Compressed)
            },
            DffPhase::Finished => s,
        }
    }
}

/// The error a fault is reported as.
pub open spec fn fault_error(f: DffFault) -> DsdError {
    match f {
        DffFault::Invalid => DsdError::InvalidDff,
        DffFault::Compressed => DsdError::DstNotSupported,
        DffFault::Truncated => DsdError::UnexpectedEof,
        DffFault::BadSeek => DsdError::InvalidDff,
    }
}

/// The answer of a finished parse: the fault if there was one; otherwise
/// the layout, provided a sample rate, a channel count and audio data were
/// found and there are at most two channels.
pub open spec fn dff_outcome(s: DffParser) -> Result<DffLayout, DsdError> {
    match s.fault {
        Some(f) => Err(fault_error(f)),
        None => if s.sample_rate == 0 || s.channels == 0 || s.data_size == 0 {
            Err(DsdError::InvalidDff)
        } else if s.channels > 2 {
            Err(DsdError::UnsupportedChannels(s.channels))
        } else {
            Ok(
                DffLayout {
                    info: DsdInfo {
                        format: DsdFormat::Dff,
                        sample_rate: s.sample_rate,
                        channels: s.channels,
                        total_samples: s.total_samples,
                        bits_per_sample: 1,
                    },
                    data_offset: s.data_offset,
                    data_size: s.data_size,
                },
            )
        },
    }
}

/// What the parser asks for in state `s`.
pub open spec fn spec_dff_request(s: DffParser) -> DffRequest {
    match s.phase {
        DffPhase::Finished => DffRequest::Done(dff_outcome(s)),
        _ => DffRequest::Read { offset: s.pos, len: wanted(s.phase) as usize },
    }
}

/// A successful parse describes a playable stream: a known rate, one or two
/// channels, some audio, one bit per sample.
pub proof fn lemma_dff_layout_valid(s: DffParser)
    ensures
        dff_outcome(s) matches Ok(l) ==> {
            &&& l.info.format == DsdFormat::Dff
            &&& l.info.sample_rate > 0
            &&& 1 <= l.info.channels <= 2
            &&& l.data_size > 0
            &&& l.info.bits_per_sample == 1
        },
{
}

/// An unrecognised sub-chunk of the sound properties (a 12-byte header
/// whose tag is none of `FS  `, `CHNL`, `CMPR`, then a body of the size the
/// header gives) is skipped: the parser moves past its body and is otherwise
/// exactly as before, still reading the properties while inside them and
/// reading the next top-level chunk once they end. Nothing found so far is
/// lost and no fault is raised.
pub proof fn lemma_unknown_sub_chunk_skipped(s: DffParser, b: Seq<u8>, prop_end: u64, sub_size: u64)
    requires
        s.phase == (DffPhase::SubChunk { prop_end }),
        b.len() >= 12,
        !tag_at(b, 0, 0x46, 0x53, 0x20, 0x20),
        !tag_at(b, 0, 0x43, 0x48, 0x4E, 0x4C),
        !tag_at(b, 0, 0x43, 0x4D, 0x50, 0x52),
        be_value(b, 4, 8) == sub_size,
        s.pos + 12 + sub_size <= i64::MAX,
    ensures
        s.pos + 12 + sub_size < prop_end ==> dff_step(s, b) == (DffParser {
            pos: (s.pos + 12 + sub_size) as u64,
            ..s
        }),
        s.pos + 12 + sub_size >= prop_end ==> dff_step(s, b) == (DffParser {
            pos: (s.pos + 12 + sub_size) as u64,
            phase: DffPhase::Chunk,
            ..s
        }),
{
}

/// `as_signed` on a machine integer.
fn signed_offset(x: u64) -> (r: i128)
    ensures
        r == as_signed(x),
{
    if x <= 0x7FFF_FFFF_FFFF_FFFF {
        x as i128
    } else {
        x as i128 - 0x1_0000_0000_0000_0000i128
    }
}

/// `seek_from` on machine integers.
fn seek_target(from: u64, delta: i128) -> (r: Option<u64>)
    requires
        from <= i64::MAX,
        -0x1_0000_0000_0000_0004 <= delta <= 0x1_0000_0000_0000_0000,
    ensures
        match seek_from(from as int, delta as int) {
            Some(np) => r == Some(np as u64),
            None => r is None,
        },
{
    if delta < -0x8000_0000_0000_0000i128 {
        return None;
    }
    let np = from as i128 + delta;
    if np < 0 || np > 0x7FFF_FFFF_FFFF_FFFFi128 {
        None
    } else {
        Some(np as u64)
    }
}

impl DffParser {
    /// A parser at the start of the file.
    pub fn new() -> (p: Self)
        ensures
            parser_wf(p),
            p.phase is FormHeader,
            p.pos == 0,
            p.sample_rate == 0 && p.channels == 0 && p.data_size == 0,
            p.data_offset == 0 && p.total_samples == 0,
            p.fault is None,
    {
        DffParser {
            phase: DffPhase::FormHeader,
            pos: 0,
            sample_rate: 0,
            channels: 0,
            data_offset: 0,
            data_size: 0,
            total_samples: 0,
            fault: None,
        }
    }

    /// What the parser needs next: bytes to read, or its answer.
    pub fn request(&self) -> (r: DffRequest)
        ensures
            r == spec_dff_request(*self),
    {
        match self.phase {
            DffPhase::Finished => {
                let outcome = match self.fault {
                    Some(DffFault::Invalid) => Err(DsdError::InvalidDff),
                    Some(DffFault::Compressed) => Err(DsdError::DstNotSupported),
                    Some(DffFault::Truncated) => Err(DsdError::UnexpectedEof),
                    Some(DffFault::BadSeek) => Err(DsdError::InvalidDff),
                    None => {
                        if self.sample_rate == 0 || self.channels == 0 || self.data_size == 0 {
                            Err(DsdError::InvalidDff)
                        } else if self.channels > 2 {
                            Err(DsdError::UnsupportedChannels(self.channels))
                        } else {
                            Ok(
                                DffLayout {
                                    info: DsdInfo {
                                        format: DsdFormat::Dff,
                                        sample_rate: self.sample_rate,
                                        channels: self.channels,
                                        total_samples: self.total_samples,
                                        bits_per_sample: 1,
                                    },
                                    data_offset: self.data_offset,
                                    data_size: self.data_size,
                                },
                            )
                        }
                    },
                };
                DffRequest::Done(outcome)
            },
            DffPhase::FormHeader => DffRequest::Read { offset: self.pos, len: 12 },
            DffPhase::FormType => DffRequest::Read { offset: self.pos, len: 4 },
            DffPhase::Chunk => DffRequest::Read { offset: self.pos, len: 12 },
            DffPhase::SoundMarker { .. } => DffRequest::Read { offset: self.pos, len: 4 },
            DffPhase::SubChunk { .. } => DffRequest::Read { offset: self.pos, len: 12 },
            DffPhase::SampleRate { .. } => DffRequest::Read { offset: self.pos, len: 4 },
            DffPhase::ChannelCount { .. } => DffRequest::Read { offset: self.pos, len: 2 },
            DffPhase::Compression { .. } => DffRequest::Read { offset: self.pos, len: 4 },
        }
    }

    /// Hand the parser the bytes read where it asked (at most as many as it
    /// asked for; fewer when the file ended).
    pub fn feed(&mut self, b: &[u8])
        requires
            parser_wf(*old(self)),
            !(old(self).phase is Finished),
            b@.len() <= wanted(old(self).phase),
        ensures
            *final(self) == dff_step(*old(self), b@),
            parser_wf(*final(self)),
    {
        let s = *self;
        let w: usize = match s.phase {
            DffPhase::FormHeader => 12,
            DffPhase::FormType => 4,
            DffPhase::Chunk => 12,
            DffPhase::SoundMarker { .. } => 4,
            DffPhase::SubChunk { .. } => 12,
            DffPhase::SampleRate { .. } => 4,
            DffPhase::ChannelCount { .. } => 2,
            DffPhase::Compression { .. } => 4,
            DffPhase::Finished => 0,
        };
        if b.len() < w {
            match s.phase {
                DffPhase::Chunk => {
                    self.phase = DffPhase::Finished;
                },
                _ => {
                    self.phase = DffPhase::Finished;
                    self.fault = Some(DffFault::Truncated);
                },
            }
            return;
        }
        if s.pos > 0x7FFF_FFFF_FFFF_FFFF - w as u64 {
            self.phase = DffPhase::Finished;
            self.fault = Some(DffFault::Invalid);
            return;
        }
        let p1: u64 = s.pos + w as u64;
        match s.phase {
            DffPhase::FormHeader => {
                if has_tag(b, 0, 0x46, 0x52, 0x4D, 0x38) {
                    self.pos = p1;
                    self.phase = DffPhase::FormType;
                } else {
                    self.phase = DffPhase::Finished;
                    self.fault = Some(DffFault::Invalid);
                }
            },
            DffPhase::FormType => {
                if has_tag(b, 0, 0x44, 0x53, 0x44, 0x20) {
                    self.pos = p1;
                    self.phase = DffPhase::Chunk;
                } else {
                    self.phase = DffPhase::Finished;
                    self.fault = Some(DffFault::Invalid);
                }
            },
            DffPhase::Chunk => {
                let size = read_be(b, 4, 8);
                if has_tag(b, 0, 0x50, 0x52, 0x4F, 0x50) {
                    self.pos = p1;
                    self.phase = DffPhase::SoundMarker { chunk_size: size };
                } else if has_tag(b, 0, 0x44, 0x53, 0x44, 0x20) {
                    if s.channels == 0 || size > 0x1FFF_FFFF_FFFF_FFFF {
                        self.phase = DffPhase::Finished;
                        self.fault = Some(DffFault::Invalid);
                    } else {
                        self.data_offset = p1;
                        self.data_size = size;
                        self.total_samples = size * 8 / s.channels as u64;
                        self.move_to_chunk(p1, signed_offset(size));
                    }
                } else {
                    self.move_to_chunk(p1, signed_offset(size));
                }
            },
            DffPhase::SoundMarker { chunk_size } => {
                if has_tag(b, 0, 0x53, 0x4E, 0x44, 0x20) {
                    if chunk_size > u64::MAX - p1 {
                        self.phase = DffPhase::Finished;
                        self.fault = Some(DffFault::Invalid);
                    } else {
                        let prop_end = p1 + chunk_size - 4;
                        self.pos = p1;
                        self.phase = if p1 < prop_end {
                            DffPhase::SubChunk { prop_end }
                        } else {
                            DffPhase::Chunk
                        };
                    }
                } else {
                    self.move_to_chunk(p1, signed_offset(chunk_size) - 4);
                }
            },
            DffPhase::SubChunk { prop_end } => {
                let sub_size = read_be(b, 4, 8);
                if has_tag(b, 0, 0x46, 0x53, 0x20, 0x20) {
                    self.pos = p1;
                    self.phase = DffPhase::SampleRate { prop_end };
                } else if has_tag(b, 0, 0x43, 0x48, 0x4E, 0x4C) {
                    self.pos = p1;
                    self.phase = DffPhase::ChannelCount { prop_end, sub_size };
                } else if has_tag(b, 0, 0x43, 0x4D, 0x50, 0x52) {
                    self.pos = p1;
                    self.phase = DffPhase::Compression { prop_end, sub_size };
                } else {
                    self.move_in_prop(p1, signed_offset(sub_size), prop_end);
                }
            },
            DffPhase::SampleRate { prop_end } => {
                self.sample_rate = read_be(b, 0, 4) as u32;
                self.pos = p1;
                self.phase = if p1 < prop_end {
                    DffPhase::SubChunk { prop_end }
                } else {
                    DffPhase::Chunk
                };
            },
            DffPhase::ChannelCount { prop_end, sub_size } => {
                self.channels = read_be(b, 0, 2) as usize;
                self.move_in_prop(p1, signed_offset(sub_size) - 2, prop_end);
            },
            DffPhase::Compression { prop_end, sub_size } => {
                if has_tag(b, 0, 0x44, 0x53, 0x44, 0x20) {
                    self.move_in_prop(p1, signed_offset(sub_size) - 4, prop_end);
                } else {
                    self.phase = DffPhase::Finished;
                    self.fault = Some(DffFault::Compressed);
                }
            },
            DffPhase::Finished => {},
        }
    }

    fn move_to_chunk(&mut self, from: u64, delta: i128)
        requires
            from <= i64::MAX,
            -0x1_0000_0000_0000_0004 <= delta <= 0x1_0000_0000_0000_0000,
        ensures
            *final(self) == seek_to_chunk(*old(self), from as int, delta as int),
    {
        match seek_target(from, delta) {
            Some(np) => {
                self.pos = np;
                self.phase = DffPhase::Chunk;
            },
            None => {
                self.phase = DffPhase::Finished;
                self.fault = Some(DffFault::BadSeek);
            },
        }
    }

    fn move_in_prop(&mut self, from: u64, delta: i128, prop_end: u64)
        requires
            from <= i64::MAX,
            -0x1_0000_0000_0000_0004 <= delta <= 0x1_0000_0000_0000_0000,
        ensures
            *final(self) == seek_in_prop(*old(self), from as int, delta as int, prop_end),
    {
        match seek_target(from, delta) {
            Some(np) => {
                self.pos = np;
                self.phase = if np < prop_end {
                    DffPhase::SubChunk { prop_end }
                } else {
                    DffPhase::Chunk
                };
            },
            None => {
                self.phase = DffPhase::Finished;
                self.fault = Some(DffFault::BadSeek);
            },
        }
    }
}

} // verus!
