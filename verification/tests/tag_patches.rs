use sermon::safe_write::SafeWriteError;
use sermon::tags::{
    cover_mime, merge_lyrics_patches, metadata_or_default, plan_tag_edits, AudioMetadata,
    CoverMime, NumberField, NumberPatch, PicturePatch, TagEdit, TagPatch, TagPatches,
    TagUpdateError, TagWriteOptions, TextField, UpdateTagsRequest,
};

#[test]
fn test_tag_patch_default() {
    assert_eq!(TagPatch::default(), TagPatch::Leave);
}

#[test]
fn test_number_patch_default() {
    assert_eq!(NumberPatch::default(), NumberPatch::Leave);
}

#[test]
fn test_tag_patches_default() {
    let patches = TagPatches::default();
    assert_eq!(patches.title, TagPatch::Leave);
    assert_eq!(patches.artist, TagPatch::Leave);
    assert_eq!(patches.album, TagPatch::Leave);
    assert_eq!(patches.album_artist, TagPatch::Leave);
    assert_eq!(patches.genre, TagPatch::Leave);
    assert_eq!(patches.publisher, TagPatch::Leave);
    assert_eq!(patches.composer, TagPatch::Leave);
    assert_eq!(patches.conductor, TagPatch::Leave);
    assert_eq!(patches.comments, TagPatch::Leave);
    assert_eq!(patches.grouping, TagPatch::Leave);
    assert_eq!(patches.lyricist, TagPatch::Leave);
    assert_eq!(patches.plain_lyrics, TagPatch::Leave);
    assert_eq!(patches.synced_lyrics, TagPatch::Leave);
    assert_eq!(patches.track_no, NumberPatch::Leave);
    assert_eq!(patches.disc_no, NumberPatch::Leave);
    assert_eq!(patches.year, NumberPatch::Leave);
}

#[test]
fn test_merge_lyrics_patches_prefers_synced_set() {
    let plain = TagPatch::SetTo("plain".to_string());
    let synced = TagPatch::SetTo("[00:01.00]synced".to_string());
    assert_eq!(
        merge_lyrics_patches(&plain, &synced),
        TagPatch::SetTo("[00:01.00]synced".to_string())
    );
}

#[test]
fn test_merge_lyrics_patches_uses_plain_when_synced_not_set() {
    let plain = TagPatch::SetTo("plain".to_string());
    assert_eq!(merge_lyrics_patches(&plain, &TagPatch::Leave), TagPatch::SetTo("plain".to_string()));
}

#[test]
fn test_merge_lyrics_patches_clear_when_no_set() {
    assert_eq!(merge_lyrics_patches(&TagPatch::Clear, &TagPatch::Leave), TagPatch::Clear);
    assert_eq!(merge_lyrics_patches(&TagPatch::Leave, &TagPatch::Clear), TagPatch::Clear);
}

#[test]
fn leave_all_plans_no_edit() {
    assert!(plan_tag_edits(TagPatches::default()).is_empty());
}

#[test]
fn plan_follows_field_order() {
    let mut p = TagPatches::default();
    p.year = NumberPatch::SetTo(2024);
    p.title = TagPatch::SetTo("Title".to_string());
    p.comments = TagPatch::Clear;
    p.plain_lyrics = TagPatch::SetTo("words".to_string());
    p.picture = PicturePatch::SetCover { bytes: vec![1, 2, 3], mime: "image/png".to_string() };
    let plan = plan_tag_edits(p);
    assert_eq!(plan.len(), 5);
    assert!(matches!(&plan[0], TagEdit::SetText(TextField::Title, v) if v == "Title"));
    assert!(matches!(&plan[1], TagEdit::RemoveText(TextField::Comment)));
    assert!(matches!(&plan[2], TagEdit::SetText(TextField::Lyrics, v) if v == "words"));
    assert!(matches!(&plan[3], TagEdit::SetNumber(NumberField::Year, 2024)));
    assert!(
        matches!(&plan[4], TagEdit::ReplaceFrontCover { bytes, mime: CoverMime::Png } if bytes == &vec![1u8, 2, 3])
    );
}

#[test]
fn clear_all_pictures() {
    let mut p = TagPatches::default();
    p.picture = PicturePatch::ClearAll;
    p.track_no = NumberPatch::Clear;
    let plan = plan_tag_edits(p);
    assert_eq!(plan.len(), 2);
    assert!(matches!(&plan[0], TagEdit::RemoveNumber(NumberField::Track)));
    assert!(matches!(&plan[1], TagEdit::RemoveAllPictures));
}

#[test]
fn mime_types() {
    assert!(matches!(cover_mime("image/jpeg".to_string()), CoverMime::Jpeg));
    assert!(matches!(cover_mime("image/tiff".to_string()), CoverMime::Tiff));
    assert!(matches!(cover_mime("image/webp".to_string()), CoverMime::Unknown(m) if m == "image/webp"));
}

fn request() -> UpdateTagsRequest {
    UpdateTagsRequest {
        track_id: 7,
        create_backup: true,
        title: TagPatch::SetTo("New".to_string()),
        artist: TagPatch::Leave,
        album: TagPatch::Clear,
        album_artist: TagPatch::Leave,
        genre: TagPatch::Leave,
        publisher: TagPatch::Leave,
        composer: TagPatch::Leave,
        conductor: TagPatch::Leave,
        comments: TagPatch::Leave,
        grouping: TagPatch::Leave,
        lyricist: TagPatch::Leave,
        plain_lyrics: TagPatch::Leave,
        synced_lyrics: TagPatch::Leave,
        track_no: NumberPatch::SetTo(3),
        disc_no: NumberPatch::Leave,
        year: NumberPatch::Leave,
    }
}

#[test]
fn request_to_patches() {
    let r = request();
    let p = r.to_patches();
    assert_eq!(p.title, TagPatch::SetTo("New".to_string()));
    assert_eq!(p.album, TagPatch::Clear);
    assert_eq!(p.track_no, NumberPatch::SetTo(3));
    assert_eq!(p.picture, PicturePatch::Leave);
    assert!(!r.has_lyrics_changes());
    let mut r2 = request();
    r2.synced_lyrics = TagPatch::Clear;
    assert!(r2.has_lyrics_changes());
}

#[test]
fn update_error_messages() {
    assert_eq!(TagUpdateError::TrackNotFound(-5).message(), "Track not found: -5");
    assert_eq!(TagUpdateError::FileNotFound("a.flac".into()).message(), "File not found: a.flac");
    let e: TagUpdateError = SafeWriteError::Other("boom".into()).into();
    assert_eq!(e.message(), "Safe write failed: boom");
    assert_eq!(
        TagUpdateError::DuplicationHazard("x".into()).message(),
        "Duplication hazard: x"
    );
}

#[test]
fn failed_read_gives_empty_metadata() {
    let m = metadata_or_default::<String>(Err("bad".to_string()));
    assert!(m.title.is_none() && m.duration_ms.is_none());
    let mut ok = AudioMetadata::default();
    ok.title = Some("T".into());
    let m = metadata_or_default::<String>(Ok(ok));
    assert_eq!(m.title.as_deref(), Some("T"));
    let _ = TagWriteOptions::new();
}
