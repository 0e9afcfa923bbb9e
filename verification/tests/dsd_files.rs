use sermon::dff::{DffParser, DffRequest};
use sermon::dsd::{
    bit_reverse, dff_next_read, dff_seek_offset, dsd_format_for_extension, dsd_seek_byte_offset,
    dsf_interleave, dsf_next_read, dsf_seek_offset, parse_dsf_header, DsdError, DsdFormat,
    DsdInfo, DSF_BLOCK_SIZE,
};

#[test]
fn test_bit_reverse_table() {
    assert_eq!(bit_reverse(0x00), 0x00);
    assert_eq!(bit_reverse(0xFF), 0xFF);
    assert_eq!(bit_reverse(0x01), 0x80);
    assert_eq!(bit_reverse(0x80), 0x01);
    assert_eq!(bit_reverse(0xAA), 0x55);
    assert_eq!(bit_reverse(0x55), 0xAA);
    assert_eq!(bit_reverse(0x0F), 0xF0);
    assert_eq!(bit_reverse(0xF0), 0x0F);
}

#[test]
fn test_bit_reverse_roundtrip() {
    for i in 0..=255u8 {
        assert_eq!(bit_reverse(bit_reverse(i)), i);
    }
}

#[test]
fn test_dsd_info_format() {
    let dsf_info = DsdInfo {
        format: DsdFormat::Dsf,
        sample_rate: 2_822_400,
        channels: 2,
        total_samples: 1_000_000,
        bits_per_sample: 1,
    };
    assert_eq!(dsf_info.format, DsdFormat::Dsf);

    let dff_info = DsdInfo {
        format: DsdFormat::Dff,
        sample_rate: 5_644_800,
        channels: 2,
        total_samples: 2_000_000,
        bits_per_sample: 1,
    };
    assert_eq!(dff_info.format, DsdFormat::Dff);
}

fn dsf_header(channels: u32, rate: u32, samples: u64, data_bytes: u64) -> Vec<u8> {
    let mut h = Vec::new();
    h.extend_from_slice(b"DSD ");
    h.extend_from_slice(&28u64.to_le_bytes());
    h.extend_from_slice(&0u64.to_le_bytes());
    h.extend_from_slice(&0u64.to_le_bytes());
    h.extend_from_slice(b"fmt ");
    h.extend_from_slice(&52u64.to_le_bytes());
    h.extend_from_slice(&1u32.to_le_bytes());
    h.extend_from_slice(&0u32.to_le_bytes());
    h.extend_from_slice(&2u32.to_le_bytes());
    h.extend_from_slice(&channels.to_le_bytes());
    h.extend_from_slice(&rate.to_le_bytes());
    h.extend_from_slice(&1u32.to_le_bytes());
    h.extend_from_slice(&samples.to_le_bytes());
    h.extend_from_slice(&4096u32.to_le_bytes());
    h.extend_from_slice(&0u32.to_le_bytes());
    h.extend_from_slice(b"data");
    h.extend_from_slice(&(data_bytes + 12).to_le_bytes());
    h
}

#[test]
fn dsf_header_is_parsed() {
    let h = dsf_header(2, 2_822_400, 1_000_000, 8192);
    assert_eq!(h.len(), 92);
    let layout = parse_dsf_header(&h).unwrap();
    assert_eq!(layout.info.format, DsdFormat::Dsf);
    assert_eq!(layout.info.channels, 2);
    assert_eq!(layout.info.sample_rate, 2_822_400);
    assert_eq!(layout.info.total_samples, 1_000_000);
    assert_eq!(layout.info.bits_per_sample, 1);
    assert_eq!(layout.data_offset, 92);
    assert_eq!(layout.data_size, 8192);
}

#[test]
fn dsf_header_errors() {
    let mut bad = [0u8; 28];
    bad[0..4].copy_from_slice(b"NOT ");
    assert!(matches!(parse_dsf_header(&bad), Err(DsdError::InvalidDsf)));
    assert!(matches!(parse_dsf_header(&[0u8; 10]), Err(DsdError::UnexpectedEof)));
    let six = dsf_header(6, 2_822_400, 10, 10);
    assert!(matches!(parse_dsf_header(&six), Err(DsdError::UnsupportedChannels(6))));
}

#[test]
fn dsf_blocks_are_interleaved_and_reversed() {
    let mut block = vec![0u8; 2 * DSF_BLOCK_SIZE];
    block[0] = 0x01;
    block[1] = 0x02;
    block[DSF_BLOCK_SIZE] = 0x80;
    block[DSF_BLOCK_SIZE + 1] = 0x0F;
    let out = dsf_interleave(&block, 2);
    assert_eq!(out.len(), 2 * DSF_BLOCK_SIZE);
    assert_eq!(&out[0..4], &[0x80, 0x01, 0x40, 0xF0]);
    assert_eq!(dsf_next_read(2, 10_000, 0), Some(8192));
    assert_eq!(dsf_next_read(2, 10_000, 8192), Some(1808));
    assert_eq!(dsf_next_read(2, 10_000, 10_000), None);
    assert_eq!(dsf_seek_offset(10_000, 2), 8192);
    assert_eq!(dff_next_read(8192, 10_000, 9_000), Some(1000));
    assert_eq!(dff_seek_offset(20_000, 10_000), 10_000);
}

#[test]
fn dsd_seek_uses_bytes_per_millisecond() {
    let info = DsdInfo {
        format: DsdFormat::Dsf,
        sample_rate: 2_822_400,
        channels: 2,
        total_samples: 0,
        bits_per_sample: 1,
    };
    assert_eq!(dsd_seek_byte_offset(&info, 1000), 705_600);
    assert_eq!(dsd_seek_byte_offset(&info, 1), 705);
    assert_eq!(dsd_seek_byte_offset(&info, 0), 0);
    assert_eq!(dsd_seek_byte_offset(&info, 2500), 1_764_000);
    assert_eq!(dsd_format_for_extension("DsF"), Some(DsdFormat::Dsf));
    assert_eq!(dsd_format_for_extension("dff"), Some(DsdFormat::Dff));
    assert_eq!(dsd_format_for_extension("flac"), None);
}

fn chunk(id: &[u8; 4], body: &[u8]) -> Vec<u8> {
    let mut c = Vec::new();
    c.extend_from_slice(id);
    c.extend_from_slice(&(body.len() as u64).to_be_bytes());
    c.extend_from_slice(body);
    c
}

fn dff_file(rate: u32, channels: u16, compression: &[u8; 4], audio: usize) -> Vec<u8> {
    let mut prop_body = Vec::new();
    prop_body.extend_from_slice(b"SND ");
    prop_body.extend(chunk(b"FS  ", &rate.to_be_bytes()));
    let mut chnl = channels.to_be_bytes().to_vec();
    for _ in 0..channels {
        chnl.extend_from_slice(b"SLFT");
    }
    prop_body.extend(chunk(b"CHNL", &chnl));
    let mut cmpr = compression.to_vec();
    cmpr.extend_from_slice(&[14, b'n', b'o', b't', b' ', b'c', b'o', b'm', b'p', b'r', b'e', b's', b's', b'e', b'd', 0]);
    prop_body.extend(chunk(b"CMPR", &cmpr));
    let mut body = Vec::new();
    body.extend_from_slice(b"DSD ");
    body.extend(chunk(b"FVER", &[1, 5, 0, 0]));
    body.extend(chunk(b"PROP", &prop_body));
    body.extend(chunk(b"DSD ", &vec![0x69u8; audio]));
    let mut file = Vec::new();
    file.extend_from_slice(b"FRM8");
    file.extend_from_slice(&(body.len() as u64).to_be_bytes());
    file.extend(body);
    file
}

fn run_dff(file: &[u8]) -> Result<sermon::dff::DffLayout, DsdError> {
    let mut parser = DffParser::new();
    loop {
        match parser.request() {
            DffRequest::Read { offset, len } => {
                let start = (offset as usize).min(file.len());
                let end = (start + len).min(file.len());
                parser.feed(&file[start..end]);
            }
            DffRequest::Done(result) => return result,
        }
    }
}

#[test]
fn dff_structure_is_followed() {
    let file = dff_file(2_822_400, 2, b"DSD ", 1000);
    let layout = run_dff(&file).unwrap();
    assert_eq!(layout.info.format, DsdFormat::Dff);
    assert_eq!(layout.info.sample_rate, 2_822_400);
    assert_eq!(layout.info.channels, 2);
    assert_eq!(layout.info.total_samples, 4000);
    assert_eq!(layout.info.bits_per_sample, 1);
    assert_eq!(layout.data_size, 1000);
    assert_eq!(layout.data_offset as usize, file.len() - 1000);
}

#[test]
fn dff_errors() {
    assert!(matches!(run_dff(b"NOT_DFF_DATA"), Err(DsdError::InvalidDff)));
    let dst = dff_file(2_822_400, 2, b"DST ", 100);
    assert!(matches!(run_dff(&dst), Err(DsdError::DstNotSupported)));
    let six = dff_file(2_822_400, 6, b"DSD ", 120);
    assert!(matches!(run_dff(&six), Err(DsdError::UnsupportedChannels(6))));
    let file = dff_file(2_822_400, 2, b"DSD ", 100);
    assert!(matches!(run_dff(&file[..50]), Err(DsdError::UnexpectedEof)));
    assert!(matches!(run_dff(&file[..16]), Err(DsdError::InvalidDff)));
}

#[test]
fn dff_chunk_size_that_cannot_be_followed_is_a_bad_seek() {
    let mut file = Vec::new();
    file.extend_from_slice(b"FRM8");
    file.extend_from_slice(&100u64.to_be_bytes());
    file.extend_from_slice(b"DSD ");
    file.extend_from_slice(b"ABCD");
    file.extend_from_slice(&0x8000_0000_0000_0000u64.to_be_bytes());
    let mut parser = DffParser::new();
    loop {
        match parser.request() {
            DffRequest::Read { offset, len } => {
                let start = (offset as usize).min(file.len());
                let end = (start + len).min(file.len());
                parser.feed(&file[start..end]);
            }
            DffRequest::Done(result) => {
                assert!(matches!(result, Err(DsdError::InvalidDff)));
                break;
            }
        }
    }
    assert_eq!(parser.fault, Some(sermon::dff::DffFault::BadSeek));
}
