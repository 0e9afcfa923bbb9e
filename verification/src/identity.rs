//! File identity: how the library recognises a file across renames and
//! edits, and the content hash used where the file system gives no stable id.

use vstd::prelude::*;

verus! {

/// Where a file identity comes from.
#[derive(Debug, Clone, Copy, PartialEq, Eq, Structural)]
pub enum IdentitySource {
    /// NTFS volume serial and file index.
    Ntfs,
    /// Modification time and size only.
    Fallback,
}

impl IdentitySource {
    /// The name stored in the database.
    pub fn as_str(&self) -> (s: &'static str)
        ensures
            s@ == (match self {
                IdentitySource::Ntfs => "ntfs"@,
                IdentitySource::Fallback => "fallback"@,
            }),
    {
        match self {
            IdentitySource::Ntfs => "ntfs",
            IdentitySource::Fallback => "fallback",
        }
    }
}

/// What identifies a file on disk.
#[derive(Debug, Clone)]
pub struct FileIdentity {
    pub source: IdentitySource,
    pub volume_serial: Option<u64>,
    pub file_id: Option<u64>,
    pub mtime_ms: i64,
    pub size_bytes: i64,
    pub hash: Option<String>,
}

/// Whether a file changed between two observations: with NTFS identities
/// on both sides, a different volume, file index, time or size; otherwise
/// a different time or size.
pub open spec fn spec_identity_changed(old: FileIdentity, new: FileIdentity) -> bool {
    if old.source == IdentitySource::Ntfs && new.source == IdentitySource::Ntfs {
        old.volume_serial != new.volume_serial || old.file_id != new.file_id || old.mtime_ms
            != new.mtime_ms || old.size_bytes != new.size_bytes
    } else {
        old.mtime_ms != new.mtime_ms || old.size_bytes != new.size_bytes
    }
}

fn option_u64_eq(a: Option<u64>, b: Option<u64>) -> (r: bool)
    ensures
        r == (a == b),
{
    match (a, b) {
        (Some(x), Some(y)) => x == y,
        (None, None) => true,
        _ => false,
    }
}

/// Whether the file changed between the `old` and `new` observations.
pub fn identity_changed(old: &FileIdentity, new: &FileIdentity) -> (r: bool)
    ensures
        r == spec_identity_changed(*old, *new),
{
    match (&old.source, &new.source) {
        (IdentitySource::Ntfs, IdentitySource::Ntfs) => {
            !option_u64_eq(old.volume_serial, new.volume_serial) || !option_u64_eq(
                old.file_id,
                new.file_id,
            ) || old.mtime_ms != new.mtime_ms || old.size_bytes != new.size_bytes
        },
        _ => old.mtime_ms != new.mtime_ms || old.size_bytes != new.size_bytes,
    }
}

/// An identity compared with itself never counts as changed.
pub proof fn lemma_identity_unchanged_by_itself(id: FileIdentity)
    ensures
        !spec_identity_changed(id, id),
{
}

/// Whether a file changed does not depend on which observation is called
/// old and which new.
pub proof fn lemma_identity_changed_symmetric(a: FileIdentity, b: FileIdentity)
    ensures
        spec_identity_changed(a, b) == spec_identity_changed(b, a),
{
}

/// A file whose modification time or size differs between two
/// observations has changed, whatever the source of either identity; with
/// NTFS identities on both sides, another volume or file index means a
/// changed file too. Nothing else counts: equal time and size (and, for two
/// NTFS identities, equal volume and file index) mean unchanged.
pub proof fn lemma_identity_changed_when(old: FileIdentity, new: FileIdentity)
    ensures
        old.mtime_ms != new.mtime_ms ==> spec_identity_changed(old, new),
        old.size_bytes != new.size_bytes ==> spec_identity_changed(old, new),
        old.source == IdentitySource::Ntfs && new.source == IdentitySource::Ntfs && (
        old.volume_serial != new.volume_serial || old.file_id != new.file_id)
            ==> spec_identity_changed(old, new),
        old.mtime_ms == new.mtime_ms && old.size_bytes == new.size_bytes && !(old.source
            == IdentitySource::Ntfs && new.source == IdentitySource::Ntfs && (old.volume_serial
            != new.volume_serial || old.file_id != new.file_id)) ==> !spec_identity_changed(
            old,
            new,
        ),
{
}

/// The content hash only looks at the start of a file: two files that
/// agree on their first `PARTIAL_HASH_BYTES` bytes (or are equal, when
/// shorter) hash alike, and a file no longer than that is hashed whole.
pub proof fn lemma_hash_covers_only_the_start(a: Seq<u8>, b: Seq<u8>)
    ensures
        a.len() <= PARTIAL_HASH_BYTES ==> hashed_prefix(a) == a,
        a.len() > PARTIAL_HASH_BYTES ==> hashed_prefix(a).len() == PARTIAL_HASH_BYTES
            && hashed_prefix(a) == a.take(PARTIAL_HASH_BYTES as int),
        a.len() >= PARTIAL_HASH_BYTES && b.len() >= PARTIAL_HASH_BYTES && a.take(
            PARTIAL_HASH_BYTES as int,
        ) == b.take(PARTIAL_HASH_BYTES as int) ==> blake3_hex(hashed_prefix(a)) == blake3_hex(
            hashed_prefix(b),
        ),
{
    if a.len() == PARTIAL_HASH_BYTES {
        assert(a.take(PARTIAL_HASH_BYTES as int) =~= a);
    }
    if b.len() == PARTIAL_HASH_BYTES {
        assert(b.take(PARTIAL_HASH_BYTES as int) =~= b);
    }
}

/// Names the lowercase hexadecimal BLAKE3 digest of `data`.
pub uninterp spec fn blake3_hex(data: Seq<u8>) -> Seq<char>;

/// `blake3::hash` followed by `Hash::to_hex`: the digest of `data` as 64
/// lowercase hexadecimal digits. The digest itself is named, not computed,
/// by the contract.
#[verifier::external_body]
fn blake3_hex_digest(data: &[u8]) -> (r: String)
    ensures
        r@ == blake3_hex(data@),
        r@.len() == 64,
        forall|i: int|
            0 <= i < 64 ==> ('0' <= #[trigger] r@[i] <= '9') || ('a' <= r@[i] <= 'f'),
{
    blake3::hash(data).to_hex().to_string()
}

/// Bytes at the start of a file that its content hash covers.
pub const PARTIAL_HASH_BYTES: usize = 262144;

/// The part of `data` that the content hash covers.
pub open spec fn hashed_prefix(data: Seq<u8>) -> Seq<u8> {
    if data.len() <= PARTIAL_HASH_BYTES {
        data
    } else {
        data.take(PARTIAL_HASH_BYTES as int)
    }
}

/// Content hash of a file from the bytes read at its start: the BLAKE3
/// digest of at most the first `PARTIAL_HASH_BYTES` of them, in hex.
pub fn partial_hash(data: &[u8]) -> (r: String)
    ensures
        r@ == blake3_hex(hashed_prefix(data@)),
        r@.len() == 64,
{
    if data.len() <= PARTIAL_HASH_BYTES {
        blake3_hex_digest(data)
    } else {
        let mut prefix: Vec<u8> = Vec::new();
        let mut i: usize = 0;
        while i < PARTIAL_HASH_BYTES
            invariant
                PARTIAL_HASH_BYTES < data@.len(),
                0 <= i <= PARTIAL_HASH_BYTES,
                prefix@ == data@.take(i as int),
            decreases PARTIAL_HASH_BYTES - i,
        {
            prefix.push(data[i]);
            proof {
                assert(data@.take(i + 1) =~= data@.take(i as int).push(data@[i as int]));
            }
            i = i + 1;
        }
        blake3_hex_digest(prefix.as_slice())
    }
}

} // verus!
