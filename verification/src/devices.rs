//! Output-device vocabulary shared by the playback backends: driver and
//! device descriptions, sample formats, the messages exchanged with the
//! ASIO worker, the backends' errors, and the names shown for the sample
//! format a device runs at.

use vstd::prelude::*;

use crate::text::{decimal, push_padded_decimal, push_str, string_from_chars};

verus! {

/// An installed ASIO driver.
#[derive(Debug, Clone)]
pub struct AsioDriverInfo {
    /// The driver name as registered in the system.
    pub name: String,
}

/// Sample formats the ASIO backend can feed.
#[derive(Debug, Clone, Copy, PartialEq, Eq, Structural)]
pub enum SampleFormat {
    Int32,
    Int32Lsb24,
    Float32,
}

/// Commands sent to the ASIO worker.
#[derive(Debug)]
pub enum AsioCommand {
    /// Load the driver and prepare its streams.
    Load { driver_name: String, sample_rate: u32, channels: u16 },
    /// Start playback.
    Start,
    /// Stop playback.
    Stop,
    /// Open the driver's control panel.
    OpenControlPanel,
    /// Stop the worker.
    Shutdown,
}

/// Answers of the ASIO worker.
#[derive(Debug)]
pub enum AsioResponse {
    /// The driver is loaded; the rate it actually runs at may differ from
    /// the one asked for.
    Loaded { buffer_size: i32, sample_format: SampleFormat, actual_sample_rate: u32 },
    Started,
    Stopped,
    ControlPanelOpened,
    Error(String),
}

/// The content of a command to the ASIO worker.
pub enum CommandView {
    Load { driver_name: Seq<char>, sample_rate: u32, channels: u16 },
    Start,
    Stop,
    OpenControlPanel,
    Shutdown,
}

impl View for AsioCommand {
    type V = CommandView;

    open spec fn view(&self) -> CommandView {
        match self {
            AsioCommand::Load { driver_name, sample_rate, channels } => CommandView::Load {
                driver_name: driver_name@,
                sample_rate: *sample_rate,
                channels: *channels,
            },
            AsioCommand::Start => CommandView::Start,
            AsioCommand::Stop => CommandView::Stop,
            AsioCommand::OpenControlPanel => CommandView::OpenControlPanel,
            AsioCommand::Shutdown => CommandView::Shutdown,
        }
    }
}

/// The content of an answer of the ASIO worker.
pub enum ResponseView {
    Loaded { buffer_size: i32, sample_format: SampleFormat, actual_sample_rate: u32 },
    Started,
    Stopped,
    ControlPanelOpened,
    Error(Seq<char>),
}

impl View for AsioResponse {
    type V = ResponseView;

    open spec fn view(&self) -> ResponseView {
        match self {
            AsioResponse::Loaded { buffer_size, sample_format, actual_sample_rate } =>
                ResponseView::Loaded {
                buffer_size: *buffer_size,
                sample_format: *sample_format,
                actual_sample_rate: *actual_sample_rate,
            },
            AsioResponse::Started => ResponseView::Started,
            AsioResponse::Stopped => ResponseView::Stopped,
            AsioResponse::ControlPanelOpened => ResponseView::ControlPanelOpened,
            AsioResponse::Error(m) => ResponseView::Error(m@),
        }
    }
}

/// Errors of the decoder.
#[derive(Debug)]
pub enum DecodeError {
    Io(std::io::Error),
    UnsupportedFormat,
    NoAudioTrack,
    DecoderError(String),
}

/// What decoding one packet produced.
#[derive(Debug, Clone, Copy)]
pub struct DecodePacketInfo {
    pub frame_count: usize,
    pub decoded: bool,
}

/// Errors of device enumeration.
#[derive(Debug)]
pub enum DeviceError {
    NotFound(String),
    EnumerationFailed(String),
}

/// An output device.
#[derive(Debug, Clone)]
pub struct AudioDeviceInfo {
    pub id: String,
    pub name: String,
    pub is_default: bool,
}

/// Errors of the output backends.
#[derive(Debug)]
pub enum OutputError {
    Wasapi(String),
    DeviceInvalidated,
    BufferUnderrun,
    ExclusiveUnavailable,
    ExclusiveUnsupportedFormat,
    Asio(String),
    AsioDriverNotFound(String),
    AsioDriverLoadFailed(String),
    AsioUnsupportedFormat(String),
}

/// Quality settings of the resampler.
#[derive(Debug, Clone, Copy, PartialEq, Eq, Structural)]
pub enum ResamplerQuality {
    Fast,
    HighQuality,
}

/// Name of the sample format of a WASAPI stream of the given container
/// size.
pub open spec fn spec_wasapi_format_name(bit_depth: u16) -> Seq<char> {
    if bit_depth == 16 {
        "int16"@
    } else if bit_depth == 24 {
        "int24"@
    } else if bit_depth == 32 {
        "float32"@
    } else {
        "unknown"@
    }
}

/// The sample format name shown for a WASAPI stream.
pub fn wasapi_format_name(bit_depth: u16) -> (r: String)
    ensures
        r@ == spec_wasapi_format_name(bit_depth),
{
    let mut out: Vec<char> = Vec::new();
    if bit_depth == 16 {
        push_str(&mut out, "int16");
    } else if bit_depth == 24 {
        push_str(&mut out, "int24");
    } else if bit_depth == 32 {
        push_str(&mut out, "float32");
    } else {
        push_str(&mut out, "unknown");
    }
    string_from_chars(out.as_slice())
}

/// Name of the sample format of an ASIO stream: container size and valid
/// bits.
pub open spec fn spec_asio_format_name(bit_depth: u16, valid_bits: u16) -> Seq<char> {
    if bit_depth == 32 && valid_bits == 24 {
        "int32lsb24"@
    } else if bit_depth == 32 && valid_bits == 32 {
        "float32"@
    } else if bit_depth == 24 && valid_bits == 24 {
        "int24"@
    } else if bit_depth == 16 && valid_bits == 16 {
        "int16"@
    } else {
        "int"@ + decimal(bit_depth as nat) + "v"@ + decimal(valid_bits as nat)
    }
}

/// The sample format name shown for an ASIO stream.
pub fn asio_format_name(bit_depth: u16, valid_bits: u16) -> (r: String)
    ensures
        r@ == spec_asio_format_name(bit_depth, valid_bits),
{
    let mut out: Vec<char> = Vec::new();
    if bit_depth == 32 && valid_bits == 24 {
        push_str(&mut out, "int32lsb24");
    } else if bit_depth == 32 && valid_bits == 32 {
        push_str(&mut out, "float32");
    } else if bit_depth == 24 && valid_bits == 24 {
        push_str(&mut out, "int24");
    } else if bit_depth == 16 && valid_bits == 16 {
        push_str(&mut out, "int16");
    } else {
        push_str(&mut out, "int");
        push_padded_decimal(&mut out, bit_depth as u64, 0);
        push_str(&mut out, "v");
        push_padded_decimal(&mut out, valid_bits as u64, 0);
    }
    string_from_chars(out.as_slice())
}

} // verus!
