//! Tag editing: the patches a user asks for, the ordered list of edits they
//! make to a file's primary tag, and the shapes of metadata read back.
//!
//! Reading and saving the tag of a file is done by the caller with the tag
//! library; each `TagEdit` maps to one call on the in-memory tag.

use vstd::prelude::*;

use crate::safe_write::SafeWriteError;
use crate::text::{decimal, push_padded_decimal, push_str, string_from_chars};

verus! {

/// Change to one text field.
#[derive(Debug, PartialEq, Eq)]
pub enum TagPatch {
    /// Leave the field unchanged.
    Leave,
    /// Set the field to a new value.
    SetTo(String),
    /// Remove the field.
    Clear,
}

impl Clone for TagPatch {
    fn clone(&self) -> (r: Self)
        ensures
            r == *self,
    {
        match self {
            TagPatch::Leave => TagPatch::Leave,
            TagPatch::SetTo(v) => TagPatch::SetTo(v.clone()),
            TagPatch::Clear => TagPatch::Clear,
        }
    }
}

impl Default for TagPatch {
    fn default() -> (r: Self)
        ensures
            r == TagPatch::Leave,
    {
        TagPatch::Leave
    }
}

/// Change to one numeric field.
#[derive(Debug, PartialEq, Eq)]
pub enum NumberPatch {
    /// Leave the field unchanged.
    Leave,
    /// Set the field to a new value.
    SetTo(u32),
    /// Remove the field.
    Clear,
}

impl Clone for NumberPatch {
    fn clone(&self) -> (r: Self)
        ensures
            r == *self,
    {
        match self {
            NumberPatch::Leave => NumberPatch::Leave,
            NumberPatch::SetTo(v) => NumberPatch::SetTo(*v),
            NumberPatch::Clear => NumberPatch::Clear,
        }
    }
}

impl Default for NumberPatch {
    fn default() -> (r: Self)
        ensures
            r == NumberPatch::Leave,
    {
        NumberPatch::Leave
    }
}

/// Change to the embedded pictures.
#[derive(Debug, Clone, PartialEq, Eq)]
pub enum PicturePatch {
    /// Leave the pictures unchanged.
    Leave,
    /// Replace the front cover.
    SetCover { bytes: Vec<u8>, mime: String },
    /// Remove every picture.
    ClearAll,
}

impl Default for PicturePatch {
    fn default() -> (r: Self)
        ensures
            r == PicturePatch::Leave,
    {
        PicturePatch::Leave
    }
}

/// The patches for every editable field of a track.
#[derive(Debug, Clone)]
pub struct TagPatches {
    pub title: TagPatch,
    pub artist: TagPatch,
    pub album: TagPatch,
    pub album_artist: TagPatch,
    pub genre: TagPatch,
    pub publisher: TagPatch,
    pub composer: TagPatch,
    pub conductor: TagPatch,
    pub comments: TagPatch,
    pub grouping: TagPatch,
    pub lyricist: TagPatch,
    pub plain_lyrics: TagPatch,
    pub synced_lyrics: TagPatch,
    pub track_no: NumberPatch,
    pub disc_no: NumberPatch,
    pub year: NumberPatch,
    pub picture: PicturePatch,
}

/// Every field left unchanged.
pub open spec fn leave_all() -> TagPatches {
    TagPatches {
        title: TagPatch::Leave,
        artist: TagPatch::Leave,
        album: TagPatch::Leave,
        album_artist: TagPatch::Leave,
        genre: TagPatch::Leave,
        publisher: TagPatch::Leave,
        composer: TagPatch::Leave,
        conductor: TagPatch::Leave,
        comments: TagPatch::Leave,
        grouping: TagPatch::Leave,
        lyricist: TagPatch::Leave,
        plain_lyrics: TagPatch::Leave,
        synced_lyrics: TagPatch::Leave,
        track_no: NumberPatch::Leave,
        disc_no: NumberPatch::Leave,
        year: NumberPatch::Leave,
        picture: PicturePatch::Leave,
    }
}

impl Default for TagPatches {
    fn default() -> (r: Self)
        ensures
            r == leave_all(),
    {
        TagPatches {
            title: TagPatch::Leave,
            artist: TagPatch::Leave,
            album: TagPatch::Leave,
            album_artist: TagPatch::Leave,
            genre: TagPatch::Leave,
            publisher: TagPatch::Leave,
            composer: TagPatch::Leave,
            conductor: TagPatch::Leave,
            comments: TagPatch::Leave,
            grouping: TagPatch::Leave,
            lyricist: TagPatch::Leave,
            plain_lyrics: TagPatch::Leave,
            synced_lyrics: TagPatch::Leave,
            track_no: NumberPatch::Leave,
            disc_no: NumberPatch::Leave,
            year: NumberPatch::Leave,
            picture: PicturePatch::Leave,
        }
    }
}

/// Options of a tag write (none yet).
#[derive(Debug, Clone)]
#[non_exhaustive]
pub struct TagWriteOptions {}

impl TagWriteOptions {
    /// The default options.
    pub fn new() -> (r: Self) {
        TagWriteOptions {  }
    }
}

impl Default for TagWriteOptions {
    fn default() -> (r: Self) {
        TagWriteOptions {  }
    }
}

/// The single lyrics patch written for a plain and a synced lyrics patch:
/// a synced value wins, then a plain one; otherwise any clear clears.
pub open spec fn spec_merge_lyrics(plain: TagPatch, synced: TagPatch) -> TagPatch {
    match (plain, synced) {
        (_, TagPatch::SetTo(v)) => TagPatch::SetTo(v),
        (TagPatch::SetTo(v), _) => TagPatch::SetTo(v),
        (TagPatch::Clear, _) => TagPatch::Clear,
        (_, TagPatch::Clear) => TagPatch::Clear,
        _ => TagPatch::Leave,
    }
}

/// Merge the plain and synced lyrics patches into the one lyrics field.
pub fn merge_lyrics_patches(plain: &TagPatch, synced: &TagPatch) -> (r: TagPatch)
    ensures
        r == spec_merge_lyrics(*plain, *synced),
{
    match (plain, synced) {
        (_, TagPatch::SetTo(value)) => TagPatch::SetTo(value.clone()),
        (TagPatch::SetTo(value), _) => TagPatch::SetTo(value.clone()),
        (TagPatch::Clear, _) | (_, TagPatch::Clear) => TagPatch::Clear,
        _ => TagPatch::Leave,
    }
}

/// Text fields of a tag that the editor writes.
#[derive(Debug, Clone, Copy, PartialEq, Eq, Structural)]
pub enum TextField {
    Title,
    Artist,
    Album,
    Genre,
    AlbumArtist,
    Publisher,
    Composer,
    Conductor,
    Comment,
    ContentGroup,
    Lyricist,
    Lyrics,
}

/// Numeric fields of a tag that the editor writes.
#[derive(Debug, Clone, Copy, PartialEq, Eq, Structural)]
pub enum NumberField {
    Track,
    Disk,
    Year,
}

/// MIME type of a new cover picture.
#[derive(Debug, Clone)]
pub enum CoverMime {
    Jpeg,
    Png,
    Gif,
    Bmp,
    Tiff,
    Unknown(String),
}

/// One change to a tag.
#[derive(Debug, Clone)]
pub enum TagEdit {
    /// Set a text field, replacing its value.
    SetText(TextField, String),
    /// Remove a text field.
    RemoveText(TextField),
    /// Set a numeric field.
    SetNumber(NumberField, u32),
    /// Remove a numeric field.
    RemoveNumber(NumberField),
    /// Remove the front covers, then add this picture as the front cover.
    ReplaceFrontCover { bytes: Vec<u8>, mime: CoverMime },
    /// Remove every picture.
    RemoveAllPictures,
}

/// The MIME type named by `mime`; unrecognised names are kept as they are.
pub open spec fn spec_cover_mime(mime: String) -> CoverMime {
    if mime@ == "image/jpeg"@ {
        CoverMime::Jpeg
    } else if mime@ == "image/png"@ {
        CoverMime::Png
    } else if mime@ == "image/gif"@ {
        CoverMime::Gif
    } else if mime@ == "image/bmp"@ {
        CoverMime::Bmp
    } else if mime@ == "image/tiff"@ {
        CoverMime::Tiff
    } else {
        CoverMime::Unknown(mime)
    }
}

/// Classify a picture MIME type.
pub fn cover_mime(mime: String) -> (r: CoverMime)
    ensures
        r == spec_cover_mime(mime),
{
    if crate::text::str_eq(mime.as_str(), "image/jpeg") {
        CoverMime::Jpeg
    } else if crate::text::str_eq(mime.as_str(), "image/png") {
        CoverMime::Png
    } else if crate::text::str_eq(mime.as_str(), "image/gif") {
        CoverMime::Gif
    } else if crate::text::str_eq(mime.as_str(), "image/bmp") {
        CoverMime::Bmp
    } else if crate::text::str_eq(mime.as_str(), "image/tiff") {
        CoverMime::Tiff
    } else {
        CoverMime::Unknown(mime)
    }
}

/// The edits a text patch makes.
pub open spec fn text_edits(field: TextField, p: TagPatch) -> Seq<TagEdit> {
    match p {
        TagPatch::Leave => Seq::empty(),
        TagPatch::SetTo(v) => seq![TagEdit::SetText(field, v)],
        TagPatch::Clear => seq![TagEdit::RemoveText(field)],
    }
}

/// The edits a numeric patch makes.
pub open spec fn number_edits(field: NumberField, p: NumberPatch) -> Seq<TagEdit> {
    match p {
        NumberPatch::Leave => Seq::empty(),
        NumberPatch::SetTo(v) => seq![TagEdit::SetNumber(field, v)],
        NumberPatch::Clear => seq![TagEdit::RemoveNumber(field)],
    }
}

/// The edits a picture patch makes.
pub open spec fn picture_edits(p: PicturePatch) -> Seq<TagEdit> {
    match p {
        PicturePatch::Leave => Seq::empty(),
        PicturePatch::SetCover { bytes, mime } => seq![
            TagEdit::ReplaceFrontCover { bytes, mime: spec_cover_mime(mime) },
        ],
        PicturePatch::ClearAll => seq![TagEdit::RemoveAllPictures],
    }
}

/// Every edit the patches make, in the order they are applied: title,
/// artist, album, genre, album artist, publisher, composer, conductor,
/// comment, grouping, lyricist, the merged lyrics, track, disc, year, and
/// last the pictures.
pub open spec fn spec_tag_plan(p: TagPatches) -> Seq<TagEdit> {
    text_edits(TextField::Title, p.title) + text_edits(TextField::Artist, p.artist) + text_edits(
        TextField::Album,
        p.album,
    ) + text_edits(TextField::Genre, p.genre) + text_edits(TextField::AlbumArtist, p.album_artist)
        + text_edits(TextField::Publisher, p.publisher) + text_edits(
        TextField::Composer,
        p.composer,
    ) + text_edits(TextField::Conductor, p.conductor) + text_edits(TextField::Comment, p.comments)
        + text_edits(TextField::ContentGroup, p.grouping) + text_edits(
        TextField::Lyricist,
        p.lyricist,
    ) + text_edits(TextField::Lyrics, spec_merge_lyrics(p.plain_lyrics, p.synced_lyrics))
        + number_edits(NumberField::Track, p.track_no) + number_edits(NumberField::Disk, p.disc_no)
        + number_edits(NumberField::Year, p.year) + picture_edits(p.picture)
}

/// Patches that leave every field unchanged edit nothing.
pub proof fn lemma_leave_all_edits_nothing()
    ensures
        spec_tag_plan(leave_all()) == Seq::<TagEdit>::empty(),
{
    assert(spec_tag_plan(leave_all()) =~= Seq::<TagEdit>::empty());
}

/// A set synced lyrics value is what the lyrics field receives, whatever the
/// plain lyrics patch says.
pub proof fn lemma_synced_lyrics_win(plain: TagPatch, v: String)
    ensures
        spec_merge_lyrics(plain, TagPatch::SetTo(v)) == TagPatch::SetTo(v),
{
}

/// The patch that decides text field `f`: each field has its own patch,
/// except the lyrics field, which takes the merged lyrics patches.
pub open spec fn text_patch(p: TagPatches, f: TextField) -> TagPatch {
    match f {
        TextField::Title => p.title,
        TextField::Artist => p.artist,
        TextField::Album => p.album,
        TextField::Genre => p.genre,
        TextField::AlbumArtist => p.album_artist,
        TextField::Publisher => p.publisher,
        TextField::Composer => p.composer,
        TextField::Conductor => p.conductor,
        TextField::Comment => p.comments,
        TextField::ContentGroup => p.grouping,
        TextField::Lyricist => p.lyricist,
        TextField::Lyrics => spec_merge_lyrics(p.plain_lyrics, p.synced_lyrics),
    }
}

/// Whether edit `e` sets or removes text field `f`.
pub open spec fn edits_text_field(e: TagEdit, f: TextField) -> bool {
    match e {
        TagEdit::SetText(g, _) => g == f,
        TagEdit::RemoveText(g) => g == f,
        _ => false,
    }
}

/// The test for an edit of text field `f`.
pub open spec fn on_text_field(f: TextField) -> spec_fn(TagEdit) -> bool {
    |e: TagEdit| edits_text_field(e, f)
}

/// The edits of `plan` that set or remove text field `f`, in order.
pub open spec fn edits_of_field(plan: Seq<TagEdit>, f: TextField) -> Seq<TagEdit> {
    plan.filter(on_text_field(f))
}

proof fn lemma_text_edits_of_field(g: TextField, q: TagPatch, f: TextField)
    ensures
        edits_of_field(text_edits(g, q), f) == (if g == f {
            text_edits(g, q)
        } else {
            Seq::<TagEdit>::empty()
        }),
{
    reveal_with_fuel(Seq::<TagEdit>::filter, 2);
    match q {
        TagPatch::Leave => {},
        TagPatch::SetTo(v) => {
            assert(text_edits(g, q).drop_last() =~= Seq::<TagEdit>::empty());
        },
        TagPatch::Clear => {
            assert(text_edits(g, q).drop_last() =~= Seq::<TagEdit>::empty());
        },
    }
}

proof fn lemma_other_edits_of_field(n: NumberField, q: NumberPatch, c: PicturePatch, f: TextField)
    ensures
        edits_of_field(number_edits(n, q), f) == Seq::<TagEdit>::empty(),
        edits_of_field(picture_edits(c), f) == Seq::<TagEdit>::empty(),
{
    reveal_with_fuel(Seq::<TagEdit>::filter, 2);
    assert(number_edits(n, q).len() > 0 ==> number_edits(n, q).drop_last() =~= Seq::<
        TagEdit,
    >::empty());
    assert(picture_edits(c).len() > 0 ==> picture_edits(c).drop_last() =~= Seq::<
        TagEdit,
    >::empty());
}

/// Each text field is edited exactly as its own patch asks, whatever the
/// other patches say: a value set for field `f` gives the one edit that sets
/// `f` to that value, a cleared field gives the one edit that removes `f`,
/// and a field left alone is named by no edit of the plan.
pub proof fn lemma_tag_plan_edits_each_field_by_its_patch(p: TagPatches, f: TextField)
    ensures
        text_patch(p, f) is Leave ==> edits_of_field(spec_tag_plan(p), f).len() == 0,
        text_patch(p, f) matches TagPatch::SetTo(v) ==> edits_of_field(spec_tag_plan(p), f)
            == seq![TagEdit::SetText(f, v)],
        text_patch(p, f) is Clear ==> edits_of_field(spec_tag_plan(p), f) == seq![
            TagEdit::RemoveText(f),
        ],
{
    broadcast use Seq::filter_distributes_over_add;

    let lyrics = spec_merge_lyrics(p.plain_lyrics, p.synced_lyrics);
    lemma_text_edits_of_field(TextField::Title, p.title, f);
    lemma_text_edits_of_field(TextField::Artist, p.artist, f);
    lemma_text_edits_of_field(TextField::Album, p.album, f);
    lemma_text_edits_of_field(TextField::Genre, p.genre, f);
    lemma_text_edits_of_field(TextField::AlbumArtist, p.album_artist, f);
    lemma_text_edits_of_field(TextField::Publisher, p.publisher, f);
    lemma_text_edits_of_field(TextField::Composer, p.composer, f);
    lemma_text_edits_of_field(TextField::Conductor, p.conductor, f);
    lemma_text_edits_of_field(TextField::Comment, p.comments, f);
    lemma_text_edits_of_field(TextField::ContentGroup, p.grouping, f);
    lemma_text_edits_of_field(TextField::Lyricist, p.lyricist, f);
    lemma_text_edits_of_field(TextField::Lyrics, lyrics, f);
    lemma_other_edits_of_field(NumberField::Track, p.track_no, p.picture, f);
    lemma_other_edits_of_field(NumberField::Disk, p.disc_no, p.picture, f);
    lemma_other_edits_of_field(NumberField::Year, p.year, p.picture, f);
    assert(edits_of_field(spec_tag_plan(p), f) =~= text_edits(f, text_patch(p, f)));
}

fn push_text_edit(plan: &mut Vec<TagEdit>, field: TextField, p: TagPatch)
    ensures
        final(plan)@ == old(plan)@ + text_edits(field, p),
{
    let ghost start = plan@;
    match p {
        TagPatch::Leave => {
            assert(plan@ =~= start + text_edits(field, p));
        },
        TagPatch::SetTo(v) => {
            plan.push(TagEdit::SetText(field, v));
            assert(plan@ =~= start + text_edits(field, p));
        },
        TagPatch::Clear => {
            plan.push(TagEdit::RemoveText(field));
            assert(plan@ =~= start + text_edits(field, p));
        },
    }
}

fn push_number_edit(plan: &mut Vec<TagEdit>, field: NumberField, p: NumberPatch)
    ensures
        final(plan)@ == old(plan)@ + number_edits(field, p),
{
    let ghost start = plan@;
    match p {
        NumberPatch::Leave => {
            assert(plan@ =~= start + number_edits(field, p));
        },
        NumberPatch::SetTo(v) => {
            plan.push(TagEdit::SetNumber(field, v));
            assert(plan@ =~= start + number_edits(field, p));
        },
        NumberPatch::Clear => {
            plan.push(TagEdit::RemoveNumber(field));
            assert(plan@ =~= start + number_edits(field, p));
        },
    }
}

fn push_picture_edit(plan: &mut Vec<TagEdit>, p: PicturePatch)
    ensures
        final(plan)@ == old(plan)@ + picture_edits(p),
{
    let ghost start = plan@;
    let ghost orig = p;
    match p {
        PicturePatch::Leave => {
            assert(plan@ =~= start + picture_edits(orig));
        },
        PicturePatch::SetCover { bytes, mime } => {
            let mime = cover_mime(mime);
            plan.push(TagEdit::ReplaceFrontCover { bytes, mime });
            assert(plan@ =~= start + picture_edits(orig));
        },
        PicturePatch::ClearAll => {
            plan.push(TagEdit::RemoveAllPictures);
            assert(plan@ =~= start + picture_edits(orig));
        },
    }
}

/// The edits that `patches` make to a file's primary tag, in the order the
/// editor applies them (see `spec_tag_plan`).
pub fn plan_tag_edits(patches: TagPatches) -> (plan: Vec<TagEdit>)
    ensures
        plan@ == spec_tag_plan(patches),
{
    let ghost p = patches;
    let lyrics = merge_lyrics_patches(&patches.plain_lyrics, &patches.synced_lyrics);
    let TagPatches {
        title,
        artist,
        album,
        album_artist,
        genre,
        publisher,
        composer,
        conductor,
        comments,
        grouping,
        lyricist,
        plain_lyrics: _,
        synced_lyrics: _,
        track_no,
        disc_no,
        year,
        picture,
    } = patches;
    let mut plan: Vec<TagEdit> = Vec::new();
    push_text_edit(&mut plan, TextField::Title, title);
    push_text_edit(&mut plan, TextField::Artist, artist);
    push_text_edit(&mut plan, TextField::Album, album);
    push_text_edit(&mut plan, TextField::Genre, genre);
    push_text_edit(&mut plan, TextField::AlbumArtist, album_artist);
    push_text_edit(&mut plan, TextField::Publisher, publisher);
    push_text_edit(&mut plan, TextField::Composer, composer);
    push_text_edit(&mut plan, TextField::Conductor, conductor);
    push_text_edit(&mut plan, TextField::Comment, comments);
    push_text_edit(&mut plan, TextField::ContentGroup, grouping);
    push_text_edit(&mut plan, TextField::Lyricist, lyricist);
    push_text_edit(&mut plan, TextField::Lyrics, lyrics);
    push_number_edit(&mut plan, NumberField::Track, track_no);
    push_number_edit(&mut plan, NumberField::Disk, disc_no);
    push_number_edit(&mut plan, NumberField::Year, year);
    push_picture_edit(&mut plan, picture);
    assert(plan@ =~= spec_tag_plan(p));
    plan
}

/// A request to edit the tags of a library track.
#[derive(Debug, Clone)]
pub struct UpdateTagsRequest {
    pub track_id: i64,
    pub create_backup: bool,
    pub title: TagPatch,
    pub artist: TagPatch,
    pub album: TagPatch,
    pub album_artist: TagPatch,
    pub genre: TagPatch,
    pub publisher: TagPatch,
    pub composer: TagPatch,
    pub conductor: TagPatch,
    pub comments: TagPatch,
    pub grouping: TagPatch,
    pub lyricist: TagPatch,
    pub plain_lyrics: TagPatch,
    pub synced_lyrics: TagPatch,
    pub track_no: NumberPatch,
    pub disc_no: NumberPatch,
    pub year: NumberPatch,
}

impl UpdateTagsRequest {
    /// The tag patches of the request; pictures are left unchanged.
    pub fn to_patches(&self) -> (r: TagPatches)
        ensures
            r == (TagPatches {
                title: self.title,
                artist: self.artist,
                album: self.album,
                album_artist: self.album_artist,
                genre: self.genre,
                publisher: self.publisher,
                composer: self.composer,
                conductor: self.conductor,
                comments: self.comments,
                grouping: self.grouping,
                lyricist: self.lyricist,
                plain_lyrics: self.plain_lyrics,
                synced_lyrics: self.synced_lyrics,
                track_no: self.track_no,
                disc_no: self.disc_no,
                year: self.year,
                picture: PicturePatch::Leave,
            }),
    {
        TagPatches {
            title: self.title.clone(),
            artist: self.artist.clone(),
            album: self.album.clone(),
            album_artist: self.album_artist.clone(),
            genre: self.genre.clone(),
            publisher: self.publisher.clone(),
            composer: self.composer.clone(),
            conductor: self.conductor.clone(),
            comments: self.comments.clone(),
            grouping: self.grouping.clone(),
            lyricist: self.lyricist.clone(),
            plain_lyrics: self.plain_lyrics.clone(),
            synced_lyrics: self.synced_lyrics.clone(),
            track_no: self.track_no.clone(),
            disc_no: self.disc_no.clone(),
            year: self.year.clone(),
            picture: PicturePatch::default(),
        }
    }

    /// Whether the request touches the lyricist or either lyrics field (the
    /// lyrics cache is then refreshed).
    pub fn has_lyrics_changes(&self) -> (b: bool)
        ensures
            b == (self.lyricist != TagPatch::Leave || self.plain_lyrics != TagPatch::Leave
                || self.synced_lyrics != TagPatch::Leave),
    {
        !matches!(&self.lyricist, TagPatch::Leave) || !matches!(&self.plain_lyrics, TagPatch::Leave)
            || !matches!(&self.synced_lyrics, TagPatch::Leave)
    }
}

/// Errors of a tag update.
#[derive(Debug)]
pub enum TagUpdateError {
    TrackNotFound(i64),
    FileNotFound(String),
    SafeWriteFailed(SafeWriteError),
    TagWriteFailed(String),
    MetadataReadFailed(String),
    DbUpdateFailed(String),
    DuplicationHazard(String),
}

impl TagUpdateError {
    /// The user-facing message of the error.
    pub fn message(&self) -> (m: String)
        ensures
            match self {
                TagUpdateError::TrackNotFound(id) => m@ == "Track not found: "@ + signed_decimal(
                    *id as int,
                ),
                TagUpdateError::FileNotFound(p) => m@ == "File not found: "@ + p@,
                TagUpdateError::SafeWriteFailed(_) => m@.take(19) == "Safe write failed: "@,
                TagUpdateError::TagWriteFailed(e) => m@ == "Tag write failed: "@ + e@,
                TagUpdateError::MetadataReadFailed(e) => m@ == "Metadata read failed: "@ + e@,
                TagUpdateError::DbUpdateFailed(e) => m@ == "DB update failed: "@ + e@,
                TagUpdateError::DuplicationHazard(e) => m@ == "Duplication hazard: "@ + e@,
            },
    {
        let mut out: Vec<char> = Vec::new();
        match self {
            TagUpdateError::TrackNotFound(id) => {
                push_str(&mut out, "Track not found: ");
                push_signed_decimal(&mut out, *id);
            },
            TagUpdateError::FileNotFound(p) => {
                push_str(&mut out, "File not found: ");
                push_str(&mut out, p.as_str());
            },
            TagUpdateError::SafeWriteFailed(e) => {
                proof {
                    reveal_strlit("Safe write failed: ");
                }
                push_str(&mut out, "Safe write failed: ");
                let inner = e.message();
                push_str(&mut out, inner.as_str());
                assert(out@.take(19) =~= "Safe write failed: "@);
            },
            TagUpdateError::TagWriteFailed(e) => {
                push_str(&mut out, "Tag write failed: ");
                push_str(&mut out, e.as_str());
            },
            TagUpdateError::MetadataReadFailed(e) => {
                push_str(&mut out, "Metadata read failed: ");
                push_str(&mut out, e.as_str());
            },
            TagUpdateError::DbUpdateFailed(e) => {
                push_str(&mut out, "DB update failed: ");
                push_str(&mut out, e.as_str());
            },
            TagUpdateError::DuplicationHazard(e) => {
                push_str(&mut out, "Duplication hazard: ");
                push_str(&mut out, e.as_str());
            },
        }
        string_from_chars(out.as_slice())
    }
}

/// Decimal representation of a signed integer, with `-` for negatives.
pub open spec fn signed_decimal(n: int) -> Seq<char> {
    if n < 0 {
        seq!['-'] + decimal((-n) as nat)
    } else {
        decimal(n as nat)
    }
}

/// Append the decimal representation of `n`.
pub fn push_signed_decimal(out: &mut Vec<char>, n: i64)
    ensures
        final(out)@ == old(out)@ + signed_decimal(n as int),
{
    let ghost start = out@;
    if n < 0 {
        out.push('-');
        let magnitude: u64 = if n == i64::MIN {
            9223372036854775808u64
        } else {
            (-n) as u64
        };
        push_padded_decimal(out, magnitude, 0);
        assert(out@ =~= start + signed_decimal(n as int));
    } else {
        push_padded_decimal(out, n as u64, 0);
    }
}

impl From<SafeWriteError> for TagUpdateError {
    fn from(e: SafeWriteError) -> (r: Self)
        ensures
            r == TagUpdateError::SafeWriteFailed(e),
    {
        TagUpdateError::SafeWriteFailed(e)
    }
}

impl vstd::std_specs::convert::FromSpecImpl<SafeWriteError> for TagUpdateError {
    open spec fn obeys_from_spec() -> bool {
        true
    }

    open spec fn from_spec(v: SafeWriteError) -> Self {
        TagUpdateError::SafeWriteFailed(v)
    }
}

/// Metadata read from an audio file.
#[derive(Debug, Clone)]
pub struct AudioMetadata {
    pub title: Option<String>,
    pub artist: Option<String>,
    pub album: Option<String>,
    pub album_artist: Option<String>,
    pub track_no: Option<u32>,
    pub disc_no: Option<u32>,
    pub year: Option<u32>,
    pub genre: Option<String>,
    pub codec: Option<String>,
    pub container: Option<String>,
    pub sample_rate: Option<u32>,
    pub bit_depth: Option<u8>,
    pub channels: Option<u8>,
    pub duration_ms: Option<u64>,
}

/// Metadata with nothing known.
pub open spec fn empty_metadata() -> AudioMetadata {
    AudioMetadata {
        title: None,
        artist: None,
        album: None,
        album_artist: None,
        track_no: None,
        disc_no: None,
        year: None,
        genre: None,
        codec: None,
        container: None,
        sample_rate: None,
        bit_depth: None,
        channels: None,
        duration_ms: None,
    }
}

impl Default for AudioMetadata {
    fn default() -> (r: Self)
        ensures
            r == empty_metadata(),
    {
        AudioMetadata {
            title: None,
            artist: None,
            album: None,
            album_artist: None,
            track_no: None,
            disc_no: None,
            year: None,
            genre: None,
            codec: None,
            container: None,
            sample_rate: None,
            bit_depth: None,
            channels: None,
            duration_ms: None,
        }
    }
}

/// The metadata of a read, or nothing known when the read failed (a scan
/// goes on with the file's other facts).
pub fn metadata_or_default<E>(read: Result<AudioMetadata, E>) -> (r: AudioMetadata)
    ensures
        match read {
            Ok(m) => r == m,
            Err(_) => r == empty_metadata(),
        },
{
    match read {
        Ok(meta) => meta,
        Err(_) => AudioMetadata::default(),
    }
}

/// One raw tag item, for display.
#[derive(Debug, Clone)]
pub struct RawTagItem {
    pub key: String,
    pub value: String,
}

/// The raw items of one tag of a file.
#[derive(Debug, Clone)]
pub struct RawTags {
    pub tag_type: String,
    pub items: Vec<RawTagItem>,
}

impl Default for RawTags {
    fn default() -> (r: Self)
        ensures
            r.tag_type@.len() == 0,
            r.items@.len() == 0,
    {
        RawTags { tag_type: string_from_chars(&[]), items: Vec::new() }
    }
}

/// The raw tags of every tag type in a file.
#[derive(Debug, Clone)]
pub struct RawTagsResult {
    pub tags: Vec<RawTags>,
}

impl Default for RawTagsResult {
    fn default() -> (r: Self)
        ensures
            r.tags@.len() == 0,
    {
        RawTagsResult { tags: Vec::new() }
    }
}

/// A picture embedded in a file's tags.
#[derive(Debug, Clone)]
pub struct ArtworkPicture {
    pub mime: Option<String>,
    pub picture_type: String,
    pub bytes: Vec<u8>,
}

} // verus!
