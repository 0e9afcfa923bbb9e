//! Library data shapes: folders, scan bookkeeping, browse items, cursors,
//! pages and search results.

use vstd::prelude::*;

verus! {

/// A watched library folder.
#[derive(Debug, Clone)]
pub struct LibraryFolder {
    pub id: i64,
    pub path: String,
    pub enabled: bool,
    pub status: String,
    pub last_error: Option<String>,
    pub options_json: String,
}

/// When a folder was last scanned.
#[derive(Debug, Clone)]
pub struct ScanState {
    pub folder_id: i64,
    pub last_scan_started_ms: Option<i64>,
    pub last_scan_completed_ms: Option<i64>,
}

/// Progress report of a running scan.
#[derive(Debug, Clone)]
pub struct ScanProgress {
    pub scanned: u32,
    pub total: u32,
    pub errors: u32,
}

impl Default for ScanProgress {
    fn default() -> (p: Self)
        ensures
            p.scanned == 0 && p.total == 0 && p.errors == 0,
    {
        ScanProgress { scanned: 0, total: 0, errors: 0 }
    }
}

/// Outcome of a completed scan.
#[derive(Debug, Clone)]
pub struct ScanSummary {
    pub scan_id: u64,
    pub scanned: u32,
    pub total: u32,
    pub skipped: u32,
    pub errors: u32,
    pub elapsed_ms: u64,
}

/// Per-folder scan options.
#[derive(Debug, Clone)]
pub struct FolderOptions {
    pub recursive: bool,
    pub include_extensions: Vec<String>,
    pub exclude_patterns: Vec<String>,
    pub follow_symlinks: bool,
}

/// Value of `recursive` when the stored options leave it out.
pub fn default_recursive() -> (b: bool)
    ensures
        b,
{
    true
}

/// The audio extensions a folder includes when nothing else is configured.
pub open spec fn default_include_extensions() -> Seq<Seq<char>> {
    seq![
        seq!['.', 'f', 'l', 'a', 'c'],
        seq!['.', 'm', 'p', '3'],
        seq!['.', 'm', '4', 'a'],
        seq!['.', 'w', 'a', 'v'],
        seq!['.', 'o', 'g', 'g'],
        seq!['.', 'd', 's', 'f'],
        seq!['.', 'd', 'f', 'f'],
    ]
}

/// A `String` holding exactly `v`.
fn owned(v: &[char]) -> (s: String)
    ensures
        s@ == v@,
{
    crate::text::string_from_chars(v)
}

impl Default for FolderOptions {
    fn default() -> (o: Self)
        ensures
            o.recursive,
            !o.follow_symlinks,
            o.exclude_patterns@.len() == 0,
            o.include_extensions@.len() == default_include_extensions().len(),
            forall|i: int|
                0 <= i < o.include_extensions@.len() ==> (#[trigger] o.include_extensions@[i])@
                    == default_include_extensions()[i],
    {
        let mut include_extensions: Vec<String> = Vec::new();
        include_extensions.push(owned(&['.', 'f', 'l', 'a', 'c']));
        include_extensions.push(owned(&['.', 'm', 'p', '3']));
        include_extensions.push(owned(&['.', 'm', '4', 'a']));
        include_extensions.push(owned(&['.', 'w', 'a', 'v']));
        include_extensions.push(owned(&['.', 'o', 'g', 'g']));
        include_extensions.push(owned(&['.', 'd', 's', 'f']));
        include_extensions.push(owned(&['.', 'd', 'f', 'f']));
        FolderOptions {
            recursive: true,
            include_extensions,
            exclude_patterns: Vec::new(),
            follow_symlinks: false,
        }
    }
}

/// An album, derived from the tracks that name it.
#[derive(Debug, Clone)]
pub struct AlbumListItem {
    pub album_title_display: String,
    pub album_artist_display: String,
    pub album_title_sort: String,
    pub album_artist_sort: String,
    pub year: Option<i32>,
    pub track_count: i64,
}

/// An artist, derived from the tracks that name it.
#[derive(Debug, Clone)]
pub struct ArtistListItem {
    pub artist_display: String,
    pub artist_sort: String,
    pub track_count: i64,
    pub album_count: i64,
}

/// Resume point of the album list: the sort key of the last album shown.
#[derive(Debug, Clone)]
pub struct AlbumCursor {
    pub album_artist_sort: String,
    pub album_title_sort: String,
}

/// Resume point of the artist list.
#[derive(Debug, Clone)]
pub struct ArtistCursor {
    pub artist_sort: String,
}

/// Resume point of an album's track list.
#[derive(Debug, Clone)]
pub struct AlbumTrackCursor {
    pub disc_no: i32,
    pub track_no: i32,
    pub title_sort: String,
    pub id: i64,
}

/// Resume point of an artist's track list.
#[derive(Debug, Clone)]
pub struct ArtistTrackCursor {
    pub album_title_sort: String,
    pub disc_no: i32,
    pub track_no: i32,
    pub title_sort: String,
    pub id: i64,
}

/// One page of results and where the next page starts, if there is one.
#[derive(Debug, Clone)]
pub struct Page<T, C> {
    pub items: Vec<T>,
    pub next_cursor: Option<C>,
}

/// Offset-based resume point.
#[derive(Debug, Clone)]
pub struct OffsetCursor {
    pub offset: i64,
}

/// Library counts.
#[derive(Debug, Clone)]
pub struct LibraryStats {
    pub track_count: i64,
    pub album_count: i64,
    pub artist_count: i64,
    pub db_size_bytes: i64,
    pub last_scan_completed_ms: Option<i64>,
}

/// Outcome of the quick scan run at startup.
#[derive(Debug, Clone)]
pub struct QuickScanSummary {
    pub folders_checked: u32,
    pub files_checked: u32,
    pub files_added: u32,
    pub files_marked_missing: u32,
    pub files_restored: u32,
    pub elapsed_ms: u64,
}

/// A search suggestion: a track, an album or an artist.
#[derive(Debug, Clone)]
pub enum SearchHit {
    Track { track_id: i64, title: Option<String>, artist: Option<String>, album: Option<String> },
    Album {
        album_artist_sort: String,
        album_title_sort: String,
        album_artist_display: String,
        album_title_display: String,
        year: Option<i32>,
    },
    Artist { artist_sort: String, artist_display: String },
}

/// The suggestions for a query.
#[derive(Debug, Clone)]
pub struct SearchSuggestResponse {
    pub results: Vec<SearchHit>,
}

} // verus!
