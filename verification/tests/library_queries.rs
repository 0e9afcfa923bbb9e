use sermon::settings::{asio_driver_setting, fade_enabled, pending_migrations, setting_or};
use sermon::models::{AlbumListItem, ArtistListItem, FolderOptions, SearchHit};
use sermon::search::{
    albums_page, artists_page, assemble_suggestions, normalize_search_query, offset_page,
    plan_suggest, safe_sort_column, safe_sort_direction, split_page,
};

#[test]
fn normalize_quotes_and_prefixes() {
    assert_eq!(normalize_search_query("hello world").as_deref(), Some("\"hello\"* AND \"world\"*"));
    assert_eq!(normalize_search_query("  a  ").as_deref(), Some("\"a\""));
    assert_eq!(normalize_search_query("é").as_deref(), Some("\"é\"*"));
    assert_eq!(normalize_search_query("say \"hi\"").as_deref(), Some("\"say\"* AND \"\"\"hi\"\"\"*"));
    assert_eq!(normalize_search_query("(rock):*").as_deref(), Some("\"rock\"*"));
    assert_eq!(normalize_search_query("^ :: beat").as_deref(), Some("\"beat\"*"));
}

#[test]
fn normalize_rejects_blank_and_operator_only() {
    assert_eq!(normalize_search_query(""), None);
    assert_eq!(normalize_search_query("   \t\n"), None);
    assert_eq!(normalize_search_query("() ** ^"), None);
}

#[test]
fn sort_parameters_are_whitelisted() {
    assert_eq!(safe_sort_column("title"), "title");
    assert_eq!(safe_sort_column("path"), "path");
    assert_eq!(safe_sort_column("title; DROP TABLE tracks"), "id");
    assert_eq!(safe_sort_column("Title"), "id");
    assert_eq!(safe_sort_direction("desc"), "DESC");
    assert_eq!(safe_sort_direction("DeSc"), "DESC");
    assert_eq!(safe_sort_direction("de\u{17F}c"), "DESC");
    assert_eq!(safe_sort_direction("descending"), "ASC");
    assert_eq!(safe_sort_direction(""), "ASC");
}

fn album(a: &str, t: &str) -> AlbumListItem {
    AlbumListItem {
        album_title_display: t.to_string(),
        album_artist_display: a.to_string(),
        album_title_sort: t.to_lowercase(),
        album_artist_sort: a.to_lowercase(),
        year: None,
        track_count: 1,
    }
}

#[test]
fn pages_split_off_the_extra_row() {
    let (items, extra) = split_page(vec![1, 2, 3], 2);
    assert_eq!(items, vec![1, 2]);
    assert_eq!(extra, Some(3));
    let (items, extra) = split_page(vec![1, 2], 2);
    assert_eq!(items, vec![1, 2]);
    assert_eq!(extra, None);
    let (items, extra) = split_page(vec![1, 2], -1);
    assert_eq!(items, vec![1, 2]);
    assert_eq!(extra, None);

    let page = albums_page(vec![album("A", "X"), album("B", "Y")], 1);
    assert_eq!(page.items.len(), 1);
    let c = page.next_cursor.unwrap();
    assert_eq!(c.album_artist_sort, "b");
    assert_eq!(c.album_title_sort, "y");

    let artists = vec![ArtistListItem {
        artist_display: "A".into(),
        artist_sort: "a".into(),
        track_count: 1,
        album_count: 1,
    }];
    let page = artists_page(artists, 5);
    assert_eq!(page.items.len(), 1);
    assert!(page.next_cursor.is_none());

    let page = offset_page(vec!['a', 'b', 'c'], 2, 40);
    assert_eq!(page.items, vec!['a', 'b']);
    assert_eq!(page.next_cursor.unwrap().offset, 42);
}

#[test]
fn suggestion_budget() {
    let plan = plan_suggest("beat it", 20).unwrap();
    assert_eq!(plan.match_query, "\"beat\"* AND \"it\"*");
    assert_eq!((plan.track_limit, plan.album_limit, plan.artist_limit), (10, 5, 5));
    let plan = plan_suggest("x", 3).unwrap();
    assert_eq!((plan.track_limit, plan.album_limit, plan.artist_limit), (4, 2, 2));
    let plan = plan_suggest("x", -9).unwrap();
    assert_eq!((plan.track_limit, plan.album_limit, plan.artist_limit), (4, 2, 2));
    assert!(plan_suggest("  ", 10).is_none());

    let t = SearchHit::Track { track_id: 1, title: None, artist: None, album: None };
    let a = SearchHit::Artist { artist_sort: "a".into(), artist_display: "A".into() };
    let r = assemble_suggestions(vec![t.clone()], vec![], vec![a.clone()], 10);
    assert_eq!(r.results.len(), 2);
    assert!(matches!(r.results[0], SearchHit::Track { track_id: 1, .. }));
    assert!(matches!(r.results[1], SearchHit::Artist { .. }));
    let r = assemble_suggestions(vec![t.clone(), t.clone()], vec![], vec![a.clone()], 2);
    assert_eq!(r.results.len(), 2);
    assert!(matches!(r.results[1], SearchHit::Track { .. }));
    let r = assemble_suggestions(vec![t], vec![], vec![a], -1);
    assert_eq!(r.results.len(), 2);
    assert_eq!(sermon::search::safe_search_sort_column("path"), "id");
    assert_eq!(sermon::search::safe_search_sort_column("album"), "album");
}

#[test]
fn folder_defaults() {
    let o = FolderOptions::default();
    assert!(o.recursive);
    assert!(!o.follow_symlinks);
    assert!(o.exclude_patterns.is_empty());
    assert_eq!(o.include_extensions, vec![".flac", ".mp3", ".m4a", ".wav", ".ogg", ".dsf", ".dff"]);
    assert!(sermon::models::default_recursive());
}

#[test]
fn migrations_still_needed() {
    assert_eq!(pending_migrations(0), vec![1, 2, 3, 4, 5, 6, 7, 8, 9]);
    assert_eq!(pending_migrations(-3), vec![1, 2, 3, 4, 5, 6, 7, 8, 9]);
    assert_eq!(pending_migrations(7), vec![8, 9]);
    assert_eq!(pending_migrations(9), Vec::<u8>::new());
    assert_eq!(pending_migrations(42), Vec::<u8>::new());
}

#[test]
fn settings_defaults() {
    assert_eq!(setting_or(None, "exclusive"), "exclusive");
    assert_eq!(setting_or(Some("shared".into()), "exclusive"), "shared");
    assert!(fade_enabled(Some("on".into())));
    assert!(!fade_enabled(Some("ON".into())));
    assert!(!fade_enabled(None));
    assert_eq!(asio_driver_setting(Some("FlexASIO".into())), Some("FlexASIO".to_string()));
    assert_eq!(asio_driver_setting(Some(String::new())), None);
    assert_eq!(asio_driver_setting(None), None);
}
