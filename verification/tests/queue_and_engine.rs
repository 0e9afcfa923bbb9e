use sermon::engine::EngineState;
use sermon::queue::{PlaybackQueue, PreviousAction};
use sermon::types::{PlaybackState, TrackInfo};

fn make_track(id: i64) -> TrackInfo {
    TrackInfo {
        id,
        path: format!("/test/{}.flac", id),
        title: Some(format!("Track {}", id)),
        artist: Some("Test Artist".to_string()),
        album: Some("Test Album".to_string()),
        duration_ms: Some(180000),
        sample_rate: Some(44100),
        channels: Some(2),
        bit_depth: Some(16),
        codec: Some("flac".to_string()),
        container: Some("flac".to_string()),
        dsd_rate_hz: None,
        dsd_channels: None,
    }
}

fn track(id: i64) -> TrackInfo {
    TrackInfo {
        id,
        path: format!("C:/music/{}.flac", id),
        title: None,
        artist: None,
        album: None,
        duration_ms: None,
        sample_rate: None,
        bit_depth: None,
        channels: None,
        codec: None,
        container: None,
        dsd_rate_hz: None,
        dsd_channels: None,
    }
}

fn ids(queue: &PlaybackQueue) -> Vec<i64> {
    queue.items().iter().map(|i| i.track.id).collect()
}

#[test]
fn test_insert_next_with_current_index() {
    let mut queue = PlaybackQueue::new();
    queue.add_to_queue(make_track(1));
    queue.add_to_queue(make_track(2));
    queue.add_to_queue(make_track(3));

    queue.insert_next(vec![make_track(10), make_track(11)]);

    assert_eq!(ids(&queue), vec![1, 10, 11, 2, 3]);
    assert_eq!(queue.current_index(), Some(0));
}

#[test]
fn test_insert_next_empty_queue() {
    let mut queue = PlaybackQueue::new();
    queue.insert_next(vec![make_track(1), make_track(2)]);

    assert_eq!(ids(&queue), vec![1, 2]);
    assert_eq!(queue.current_index(), Some(0));
}

#[test]
fn test_insert_next_empty_tracks() {
    let mut queue = PlaybackQueue::new();
    queue.add_to_queue(make_track(1));
    queue.insert_next(vec![]);

    assert_eq!(queue.items().len(), 1);
}

#[test]
fn test_insert_next_mid_queue() {
    let mut queue = PlaybackQueue::new();
    queue.add_to_queue(make_track(1));
    queue.add_to_queue(make_track(2));
    queue.add_to_queue(make_track(3));
    queue.next();

    queue.insert_next(vec![make_track(20)]);

    assert_eq!(ids(&queue), vec![1, 2, 20, 3]);
    assert_eq!(queue.current_index(), Some(1));
}

#[test]
fn queue_previous_decisions() {
    let mut queue = PlaybackQueue::new();
    queue.set_and_play(vec![make_track(1), make_track(2), make_track(3)], 1);
    assert_eq!(queue.current().map(|i| i.track.id), Some(2));
    assert_eq!(queue.previous(3500), PreviousAction::RestartCurrent);
    assert_eq!(queue.current_index(), Some(1));
    assert_eq!(queue.previous(1000), PreviousAction::MoveToPrevious(0));
    assert_eq!(queue.current_index(), Some(0));
    assert_eq!(queue.previous(0), PreviousAction::AtStart);
    queue.clear();
    assert!(queue.current().is_none());
    assert_eq!(queue.items().len(), 0);
}

#[test]
fn insert_next_then_next_plays_first_inserted() {
    let mut queue = PlaybackQueue::new();
    queue.play_now(make_track(1));
    queue.add_to_queue(make_track(2));
    queue.insert_next(vec![make_track(7), make_track(8)]);
    assert_eq!(queue.next().map(|i| i.track.id), Some(7));
}

#[test]
fn play_pause_time_accounting_increments_only_while_playing() {
    let mut engine = EngineState::new();
    engine.play_now_at(track(1), 0);

    let start = engine.session.as_ref().unwrap().started_at;

    engine.update_time_at(start + 1500);
    assert_eq!(engine.session.as_ref().unwrap().played_ms, 1500);
    assert_eq!(engine.session.as_ref().unwrap().position_ms, 1500);

    engine.pause_at(start + 1500);
    let played_at_pause = engine.session.as_ref().unwrap().played_ms;

    engine.update_time_at(start + 5000);
    assert_eq!(engine.session.as_ref().unwrap().played_ms, played_at_pause);

    engine.resume_at(start + 5000);
    let resume_time = engine.session.as_ref().unwrap().last_play_start.unwrap();
    engine.update_time_at(resume_time + 700);

    assert_eq!(engine.session.as_ref().unwrap().played_ms, played_at_pause + 700);
}

#[test]
fn seek_updates_position_without_incrementing_played_ms() {
    let mut engine = EngineState::new();
    engine.play_now_at(track(1), 0);

    let start = engine.session.as_ref().unwrap().started_at;
    engine.update_time_at(start + 1000);

    let played_before = engine.session.as_ref().unwrap().played_ms;
    engine.seek_at(10_000, start + 1000);

    assert_eq!(engine.session.as_ref().unwrap().played_ms, played_before);
    assert_eq!(engine.session.as_ref().unwrap().position_ms, 10_000);
}

#[test]
fn play_now_generates_new_play_id() {
    let mut engine = EngineState::new();
    engine.play_now(track(1));

    let first_id = engine.session.as_ref().unwrap().play_id;
    engine.play_now(track(2));
    let second_id = engine.session.as_ref().unwrap().play_id;

    assert_ne!(first_id, second_id);
    assert_eq!(engine.session.as_ref().unwrap().track.id, 2);
}

#[test]
fn queue_operations_add_next_and_stop_at_end() {
    let mut engine = EngineState::new();
    engine.play_now(track(1));
    engine.add_to_queue(track(2));
    engine.add_to_queue(track(3));

    assert_eq!(engine.queue.items().len(), 3);
    assert_eq!(engine.queue.current_index(), Some(0));

    engine.next();
    assert_eq!(engine.session.as_ref().unwrap().track.id, 2);

    engine.next();
    assert_eq!(engine.session.as_ref().unwrap().track.id, 3);

    engine.next();
    assert_eq!(engine.state, PlaybackState::Stopped);
    assert!(engine.session.is_none());
    assert_eq!(engine.queue.current_index(), None);
}

#[test]
fn previous_restarts_when_position_over_3s() {
    let mut engine = EngineState::new();
    engine.play_now_at(track(1), 0);
    engine.add_to_queue(track(2));

    engine.seek_at(3500, 0);
    engine.pause_at(0);
    engine.previous_at(0);

    assert_eq!(engine.session.as_ref().unwrap().track.id, 1);
    assert_eq!(engine.session.as_ref().unwrap().position_ms, 0);
    assert_eq!(engine.state, PlaybackState::Playing);
}

#[test]
fn previous_moves_to_previous_when_position_under_3s() {
    let mut engine = EngineState::new();
    engine.play_now_at(track(1), 0);
    engine.add_to_queue(track(2));

    engine.next_at(0);
    let play_id_on_second = engine.session.as_ref().unwrap().play_id;

    engine.seek_at(2000, 0);
    engine.pause_at(0);
    engine.previous_at(0);

    assert_eq!(engine.session.as_ref().unwrap().track.id, 1);
    assert_eq!(engine.state, PlaybackState::Playing);
    assert_ne!(engine.session.as_ref().unwrap().play_id, play_id_on_second);
}

#[test]
fn next_while_paused_starts_playback() {
    let mut engine = EngineState::new();
    engine.play_now(track(1));
    engine.add_to_queue(track(2));
    engine.pause();

    engine.next();
    assert_eq!(engine.session.as_ref().unwrap().track.id, 2);
    assert_eq!(engine.state, PlaybackState::Playing);
}

#[test]
fn next_changes_play_id() {
    let mut engine = EngineState::new();
    engine.play_now(track(1));
    engine.add_to_queue(track(2));

    let first = engine.session.as_ref().unwrap().play_id;
    engine.next();
    let second = engine.session.as_ref().unwrap().play_id;

    assert_ne!(first, second);
}

#[test]
fn previous_at_start_restarts_current() {
    let mut engine = EngineState::new();
    engine.play_now_at(track(1), 0);
    engine.seek_at(2000, 0);
    engine.pause_at(0);

    engine.previous_at(0);
    assert_eq!(engine.session.as_ref().unwrap().track.id, 1);
    assert_eq!(engine.session.as_ref().unwrap().position_ms, 0);
    assert_eq!(engine.state, PlaybackState::Playing);
    assert_eq!(engine.queue.current_index(), Some(0));
}

#[test]
fn stop_ends_the_session() {
    let mut engine = EngineState::new();
    engine.play_now_at(track(1), 0);
    engine.stop_at(10);
    assert_eq!(engine.state, PlaybackState::Stopped);
    assert!(engine.session.is_none());
}

#[test]
fn dsd_tracks_are_recognised() {
    let mut t = track(1);
    assert!(!t.is_dsd());
    t.dsd_rate_hz = Some(2_822_400);
    assert!(t.is_dsd());
    t.dsd_rate_hz = Some(0);
    assert!(!t.is_dsd());
}

#[test]
fn restart_keeps_the_play_and_pause_seek_resume_keep_it_too() {
    let mut engine = EngineState::new();
    engine.play_now_at(track(1), 0);
    let id = engine.session.as_ref().unwrap().play_id;
    engine.seek_at(5000, 10);
    engine.pause_at(20);
    engine.resume_at(30);
    assert_eq!(engine.session.as_ref().unwrap().play_id, id);
    engine.previous_at(40);
    assert_eq!(engine.session.as_ref().unwrap().play_id, id);
    assert_eq!(engine.session.as_ref().unwrap().track.id, 1);
    assert_eq!(engine.session.as_ref().unwrap().position_ms, 0);
}
