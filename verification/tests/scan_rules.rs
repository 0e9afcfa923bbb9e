use sermon::identity::{identity_changed, partial_hash, FileIdentity, IdentitySource, PARTIAL_HASH_BYTES};
use sermon::scan::{
    build_glob_set, effective_extensions, extension_key, is_eligible, is_excluded, unchanged_track,
    FileOutcome, ScanTally,
};

#[test]
fn extension_keys_follow_path_rules() {
    assert_eq!(extension_key("song.FLAC"), ".flac");
    assert_eq!(extension_key("archive.tar.gz"), ".gz");
    assert_eq!(extension_key(".hidden"), "");
    assert_eq!(extension_key("noext"), "");
    assert_eq!(extension_key("trailing."), ".");
    assert_eq!(extension_key("..mp3"), ".mp3");
}

#[test]
fn default_and_custom_extensions() {
    assert_eq!(effective_extensions(&vec![]), vec![".flac", ".mp3", ".m4a", ".wav", ".ogg"]);
    assert_eq!(effective_extensions(&vec![".DSF".to_string(), ".Mp3".to_string()]), vec![".dsf", ".mp3"]);
}

#[test]
fn exclusion_globs() {
    assert!(build_glob_set(&vec![]).is_none());
    let set = build_glob_set(&vec!["**/skip/**".to_string(), "[".to_string()]);
    assert!(set.is_some());
    assert!(is_excluded(&set, "C:\\music\\skip\\a.flac"));
    assert!(is_excluded(&set, "/music/skip/a.flac"));
    assert!(!is_excluded(&set, "/music/keep/a.flac"));
    assert!(!is_excluded(&None, "/music/skip/a.flac"));
    let none_parse = build_glob_set(&vec!["[".to_string(), "a[".to_string()]);
    assert!(none_parse.is_some());
    assert!(!is_excluded(&none_parse, "/music/a.flac"));
}

#[test]
fn eligibility() {
    let exts = effective_extensions(&vec![]);
    let set = build_glob_set(&vec!["**/live/**".to_string()]);
    assert!(is_eligible("a.FLAC", "/m/a.FLAC", &exts, &set));
    assert!(!is_eligible("a.dsf", "/m/a.dsf", &exts, &set));
    assert!(!is_eligible("a.flac", "/m/live/a.flac", &exts, &set));
    assert!(!is_eligible("cover.jpg", "/m/cover.jpg", &exts, &None));
}

#[test]
fn unchanged_files_are_skipped() {
    assert_eq!(unchanged_track(Some((4, 100, 2000)), 100, 2000), Some(4));
    assert_eq!(unchanged_track(Some((4, 100, 2000)), 101, 2000), None);
    assert_eq!(unchanged_track(None, 100, 2000), None);
}

#[test]
fn tally_counts_outcomes() {
    let mut t = ScanTally::new(3);
    let p = t.record(FileOutcome::Scanned(10));
    assert_eq!((p.scanned, p.total, p.errors), (1, 3, 0));
    let p = t.record(FileOutcome::Failed);
    assert_eq!((p.scanned, p.total, p.errors), (1, 3, 1));
    let p = t.record(FileOutcome::Skipped(11));
    assert_eq!((p.scanned, p.total, p.errors), (2, 3, 1));
    assert_eq!(t.seen_track_ids, vec![10, 11]);
    let s = t.summary(99, 1234);
    assert_eq!((s.scan_id, s.scanned, s.skipped, s.errors, s.total, s.elapsed_ms), (99, 1, 1, 1, 3, 1234));
}

fn fallback(mtime: i64, size: i64) -> FileIdentity {
    FileIdentity {
        source: IdentitySource::Fallback,
        volume_serial: None,
        file_id: None,
        mtime_ms: mtime,
        size_bytes: size,
        hash: None,
    }
}

#[test]
fn identity_change_rules() {
    let a = fallback(1, 2);
    assert!(!identity_changed(&a, &a.clone()));
    assert!(identity_changed(&a, &fallback(1, 3)));
    let mut n1 = fallback(1, 2);
    n1.source = IdentitySource::Ntfs;
    n1.volume_serial = Some(7);
    n1.file_id = Some(8);
    let mut n2 = n1.clone();
    n2.file_id = Some(9);
    assert!(identity_changed(&n1, &n2));
    assert!(!identity_changed(&n1, &fallback(1, 2)));
    assert_eq!(IdentitySource::Ntfs.as_str(), "ntfs");
    assert_eq!(IdentitySource::Fallback.as_str(), "fallback");
}

#[test]
fn partial_hash_covers_the_prefix() {
    assert_eq!(partial_hash(b"abc"), blake3::hash(b"abc").to_hex().to_string());
    assert_eq!(
        partial_hash(b""),
        "af1349b9f5f9a1a6a0404dea36dcc9499bcb25c9adc112b7cc9a93cae41f3262"
    );
    let big = vec![7u8; PARTIAL_HASH_BYTES + 10];
    assert_eq!(partial_hash(&big), blake3::hash(&big[..PARTIAL_HASH_BYTES]).to_hex().to_string());
    assert_ne!(partial_hash(b"first content"), partial_hash(b"different content"));
}

#[test]
fn rescan_of_unchanged_files_skips_every_file() {
    let stored = [(7i64, 1_000i64, 4_096i64), (8, 2_000, 8_192)];
    let mut tally = ScanTally::new(stored.len() as u32);
    for (id, mtime, size) in stored {
        let outcome = match unchanged_track(Some((id, mtime, size)), mtime, size) {
            Some(id) => FileOutcome::Skipped(id),
            None => FileOutcome::Scanned(0),
        };
        assert_eq!(outcome, FileOutcome::Skipped(id));
        tally.record(outcome);
    }
    let summary = tally.summary(1, 0);
    assert_eq!((summary.scanned, summary.skipped, summary.errors, summary.total), (0, 2, 0, 2));
    assert_eq!(unchanged_track(Some((7, 1_000, 4_096)), 1_001, 4_096), None);
}
