use sermon::memory_source::{MemoryAudioSource, SeekError, SeekTarget};

#[test]
fn test_memory_source_loads_file() {
    let content = b"Hello, gapless world!";
    let source = MemoryAudioSource::from_bytes(content.to_vec());

    assert_eq!(source.byte_len(), content.len() as u64);
    assert_eq!(source.position(), 0);
}

#[test]
fn test_memory_source_seek_read() {
    let content = b"0123456789ABCDEF";
    let mut source = MemoryAudioSource::from_bytes(content.to_vec());

    let mut buf = [0u8; 4];
    let n = source.read(&mut buf);
    assert_eq!(n, 4);
    assert_eq!(&buf, b"0123");
    assert_eq!(source.position(), 4);

    let pos = source.seek(SeekTarget::Start(8)).expect("seek failed");
    assert_eq!(pos, 8);
    assert_eq!(source.position(), 8);

    let n = source.read(&mut buf);
    assert_eq!(n, 4);
    assert_eq!(&buf, b"89AB");

    let pos = source.seek(SeekTarget::Current(-4)).expect("seek failed");
    assert_eq!(pos, 8);

    let pos = source.seek(SeekTarget::End(-4)).expect("seek failed");
    assert_eq!(pos, 12);

    let n = source.read(&mut buf);
    assert_eq!(n, 4);
    assert_eq!(&buf, b"CDEF");

    let n = source.read(&mut buf);
    assert_eq!(n, 0);
}

#[test]
fn test_memory_source_seek_negative_error() {
    let mut source = MemoryAudioSource::from_bytes(b"test".to_vec());

    let result = source.seek(SeekTarget::Start(0));
    assert!(result.is_ok());

    let result = source.seek(SeekTarget::Current(-1));
    assert_eq!(result, Err(SeekError::NegativePosition));
    assert_eq!(source.position(), 0);
}

#[test]
fn test_memory_source_empty_file() {
    let mut source = MemoryAudioSource::from_bytes(Vec::new());
    assert_eq!(source.byte_len(), 0);

    let mut buf = [0u8; 4];
    let n = source.read(&mut buf);
    assert_eq!(n, 0);
}

#[test]
fn test_memory_source_media_source_trait() {
    let content = b"media source test";
    let source = MemoryAudioSource::from_bytes(content.to_vec());
    assert_eq!(source.byte_len(), content.len() as u64);
}

#[test]
fn short_read_at_the_end_and_past_it() {
    let mut source = MemoryAudioSource::from_bytes(b"abcdef".to_vec());
    source.seek(SeekTarget::End(-2)).unwrap();
    let mut buf = [9u8; 4];
    assert_eq!(source.read(&mut buf), 2);
    assert_eq!(buf, [b'e', b'f', 9, 9]);
    assert_eq!(source.seek(SeekTarget::Start(100)), Ok(100));
    assert_eq!(source.read(&mut buf), 0);
    assert_eq!(source.seek(SeekTarget::Start(u64::MAX)), Err(SeekError::NegativePosition));
}
