use tunebox::engine::{AudioCommand, AudioEngine, AudioEvent, EngineAction, StreamInfo};
use tunebox::library::Track;
use tunebox::modes::{PlaybackSpeed, RepeatMode, Theme};
use tunebox::player::{App, MAX_VOLUME};

fn track(path: &str, title: &str, artist: &str, duration_ms: u64) -> Track {
    Track {
        path: path.to_string(),
        title: title.to_string(),
        artist: artist.to_string(),
        album: "Album".to_string(),
        duration_ms,
        track_number: None,
        bitrate: None,
        sample_rate: None,
        channels: None,
        format: "MP3".to_string(),
        file_size: 0,
    }
}

fn app(n: usize) -> App {
    let lib = (0..n)
        .map(|i| track(&format!("t{i}.mp3"), &format!("Song {i}"), "Artist", 200_000))
        .collect();
    App::new(lib)
}

fn play(i: usize) -> Option<AudioCommand> {
    Some(AudioCommand::Play(format!("t{i}.mp3")))
}

#[test]
fn new_app_defaults() {
    let a = app(3);
    assert_eq!(a.filtered_indices, vec![0, 1, 2]);
    assert_eq!(a.playing_index, None);
    assert_eq!(a.volume, 800);
    assert_eq!(a.repeat, RepeatMode::Off);
    assert_eq!(a.speed, PlaybackSpeed::Normal);
    assert_eq!(a.theme, Theme::Default);
}

#[test]
fn play_track_sets_state() {
    let mut a = app(3);
    a.progress_ms = 1234;
    assert_eq!(a.play_track(2), play(2));
    assert_eq!(a.playing_index, Some(2));
    assert!(a.is_playing);
    assert_eq!(a.progress_ms, 0);
    assert_eq!(a.duration_ms, 200_000);
    assert_eq!(a.play_track(3), None);
    assert_eq!(a.playing_index, Some(2));
}

#[test]
fn repeat_off_stays_in_list() {
    let mut a = app(3);
    let steps = [true, true, true, true, false, false, false, false, true];
    for &forward in &steps {
        if forward {
            a.next_track();
        } else {
            a.prev_track();
        }
        let i = a.playing_index.unwrap();
        assert!(i < 3);
    }
    a.play_track(2);
    assert_eq!(a.next_track(), None);
    assert_eq!(a.playing_index, Some(2));
}

#[test]
fn next_from_nothing_starts_first() {
    let mut a = app(2);
    assert_eq!(a.next_track(), play(0));
    let mut b = app(0);
    assert_eq!(b.next_track(), None);
    assert_eq!(b.prev_track(), None);
}

#[test]
fn repeat_all_wraps_both_ways() {
    let mut a = app(4);
    a.repeat = RepeatMode::All;
    a.play_track(3);
    assert_eq!(a.next_track(), play(0));
    assert_eq!(a.playing_index, Some(0));
    assert_eq!(a.prev_track(), play(3));
    assert_eq!(a.playing_index, Some(3));
}

#[test]
fn prev_clamps_without_repeat_all() {
    let mut a = app(4);
    a.play_track(0);
    assert_eq!(a.prev_track(), play(0));
    a.play_track(2);
    assert_eq!(a.prev_track(), play(1));
}

#[test]
fn prev_restarts_after_three_seconds() {
    let mut a = app(4);
    a.play_track(2);
    a.progress_ms = 3001;
    assert_eq!(a.prev_track(), play(2));
    assert_eq!(a.progress_ms, 0);
    a.progress_ms = 3000;
    assert_eq!(a.prev_track(), play(1));
}

#[test]
fn repeat_one_replays_on_finish() {
    let mut a = app(3);
    a.repeat = RepeatMode::One;
    for i in 0..3 {
        a.play_track(i);
        assert_eq!(a.handle_track_finished(), play(i));
        assert_eq!(a.playing_index, Some(i));
    }
}

#[test]
fn repeat_one_next_at_end_replays() {
    let mut a = app(3);
    a.repeat = RepeatMode::One;
    a.play_track(2);
    assert_eq!(a.next_track(), play(2));
    a.play_track(0);
    assert_eq!(a.next_track(), play(1));
}

#[test]
fn shuffle_order_is_permutation() {
    for n in [1usize, 2, 5, 17] {
        let mut a = app(n);
        for _ in 0..5 {
            a.toggle_shuffle();
            if a.shuffle {
                let mut o = a.shuffle_order.clone();
                o.sort();
                assert_eq!(o, (0..n).collect::<Vec<_>>());
            }
        }
    }
}

#[test]
fn shuffle_next_follows_order() {
    let mut a = app(5);
    a.toggle_shuffle();
    let order = a.shuffle_order.clone();
    assert_eq!(a.next_track(), play(order[0]));
    for k in 1..5 {
        assert_eq!(a.next_track(), play(order[k]));
    }
    // Past the end with repeat off the current track plays again.
    assert_eq!(a.next_track(), play(order[4]));
    a.repeat = RepeatMode::All;
    let cmd = a.next_track();
    let mut o = a.shuffle_order.clone();
    assert_eq!(cmd, play(o[0]));
    o.sort();
    assert_eq!(o, vec![0, 1, 2, 3, 4]);
}

#[test]
fn track_finished_advances_or_stops() {
    let mut a = app(2);
    a.play_track(0);
    assert_eq!(a.on_audio_event(AudioEvent::TrackFinished), play(1));
    assert_eq!(a.playing_index, Some(1));
    assert_eq!(a.on_audio_event(AudioEvent::TrackFinished), None);
    assert_eq!(a.playing_index, Some(1));
}

#[test]
fn events_update_state() {
    let mut a = app(2);
    a.play_track(0);
    a.on_audio_event(AudioEvent::Playing { duration_ms: 0 });
    assert_eq!(a.duration_ms, 200_000);
    a.on_audio_event(AudioEvent::Playing { duration_ms: 180_500 });
    assert_eq!(a.duration_ms, 180_500);
    a.on_audio_event(AudioEvent::Progress(42_000));
    assert_eq!(a.progress_ms, 42_000);
    a.on_audio_event(AudioEvent::Error("one".to_string()));
    a.on_audio_event(AudioEvent::Error("two".to_string()));
    assert_eq!(a.error_message, Some("two".to_string()));
}

#[test]
fn volume_steps_clamp() {
    let mut a = app(1);
    for _ in 0..10 {
        a.volume_up();
    }
    assert_eq!(a.volume, MAX_VOLUME);
    assert_eq!(a.volume_up(), AudioCommand::SetVolume(1000));
    for _ in 0..30 {
        a.volume_down();
    }
    assert_eq!(a.volume, 0);
    assert_eq!(a.set_volume(1500), AudioCommand::SetVolume(1500));
    assert_eq!(a.volume_down(), AudioCommand::SetVolume(1000));
    a.set_volume(1500);
    assert_eq!(a.volume_up(), AudioCommand::SetVolume(1000));
}

#[test]
fn seek_steps_stay_in_track() {
    let mut a = app(1);
    a.play_track(0);
    a.progress_ms = 198_000;
    assert_eq!(a.seek_forward(), AudioCommand::Seek(200_000));
    a.progress_ms = 3000;
    assert_eq!(a.seek_backward(), AudioCommand::Seek(0));
    a.progress_ms = 10_000;
    assert_eq!(a.seek_forward(), AudioCommand::Seek(15_000));
    assert_eq!(a.seek_backward(), AudioCommand::Seek(5000));
}

#[test]
fn sleep_timer_fades_and_restores() {
    let mut a = app(1);
    a.play_track(0);
    assert_eq!(a.cycle_sleep_timer(0), None);
    let t = a.sleep_timer.unwrap();
    assert_eq!((t.end_ms, t.fade_start_ms, t.original_volume, t.duration_mins), (900_000, 840_000, 800, 15));
    assert!(a.update_sleep_timer(839_999).is_empty());
    assert_eq!(a.update_sleep_timer(840_000), vec![AudioCommand::SetVolume(800)]);
    assert_eq!(a.update_sleep_timer(870_000), vec![AudioCommand::SetVolume(400)]);
    assert_eq!(a.update_sleep_timer(899_999), vec![AudioCommand::SetVolume(0)]);
    assert_eq!(a.sleep_timer_remaining(899_000), Some(1000));
    assert_eq!(
        a.update_sleep_timer(900_000),
        vec![AudioCommand::SetVolume(0), AudioCommand::Pause, AudioCommand::SetVolume(800)]
    );
    assert_eq!(a.volume, 800);
    assert!(a.sleep_timer.is_none());
    assert!(!a.is_playing);
}

#[test]
fn sleep_timer_ladder() {
    let mut a = app(1);
    let mut mins = Vec::new();
    for _ in 0..4 {
        a.cycle_sleep_timer(1000);
        mins.push(a.sleep_timer.unwrap().duration_mins);
    }
    assert_eq!(mins, vec![15, 30, 45, 60]);
    a.volume = 100;
    assert_eq!(a.cycle_sleep_timer(1000), Some(AudioCommand::SetVolume(800)));
    assert!(a.sleep_timer.is_none());
    assert_eq!(a.volume, 800);
    assert_eq!(a.sleep_timer_remaining(5), None);
}

#[test]
fn search_filters_by_title_or_artist() {
    let lib = vec![
        track("a.mp3", "Blue Sky", "Alpha", 1),
        track("b.mp3", "Red", "Beta Band", 1),
        track("c.mp3", "Green", "Gamma", 1),
    ];
    let mut a = App::new(lib);
    a.toggle_search();
    assert!(a.search_mode);
    a.move_selection_down();
    a.move_selection_down();
    assert_eq!(a.selected_index, 2);
    a.search_input('B');
    assert_eq!(a.filtered_indices, vec![0, 1]);
    assert_eq!(a.selected_index, 1);
    a.search_input('a');
    assert_eq!(a.filtered_indices, vec![1]);
    assert_eq!(a.selected_index, 0);
    a.search_input('z');
    assert!(a.filtered_indices.is_empty());
    assert_eq!(a.play_selected(), None);
    a.search_backspace();
    assert_eq!(a.filtered_indices, vec![1]);
    assert_eq!(a.play_selected(), Some(AudioCommand::Play("b.mp3".to_string())));
    a.toggle_search();
    assert!(!a.search_mode);
    assert_eq!(a.search_query, "");
    assert_eq!(a.filtered_indices, vec![0, 1, 2]);
}

#[test]
fn toggle_pause_and_stop() {
    let mut a = app(2);
    assert_eq!(a.toggle_pause(), play(0));
    assert_eq!(a.toggle_pause(), Some(AudioCommand::Pause));
    assert!(!a.is_playing);
    assert_eq!(a.toggle_pause(), Some(AudioCommand::Resume));
    assert_eq!(a.stop(), AudioCommand::Stop);
    assert_eq!(a.playing_index, None);
    assert_eq!(a.duration_ms, 0);
}

#[test]
fn selection_moves_within_list() {
    let mut a = app(2);
    a.move_selection_up();
    assert_eq!(a.selected_index, 0);
    a.move_selection_down();
    a.move_selection_down();
    assert_eq!(a.selected_index, 1);
}

#[test]
fn speed_and_settings_cycle() {
    let mut a = app(1);
    assert_eq!(a.speed_up(), AudioCommand::SetSpeed(125));
    a.speed_up();
    a.speed_up();
    assert_eq!(a.speed_up(), AudioCommand::SetSpeed(200));
    for _ in 0..6 {
        a.speed_down();
    }
    assert_eq!(a.speed, PlaybackSpeed::Slow50);
    a.cycle_repeat();
    assert_eq!(a.repeat, RepeatMode::All);
    a.cycle_theme();
    assert_eq!(a.theme, Theme::Dracula);
    a.toggle_mini_mode();
    assert!(a.mini_mode);
}

#[test]
fn snapshot_reflects_state() {
    let mut a = app(2);
    let s = a.playback_state();
    assert_eq!(s.track_title, None);
    a.play_track(1);
    a.volume_up();
    let s = a.playback_state();
    assert_eq!(s.track_title, Some("Song 1".to_string()));
    assert_eq!(s.track_artist, Some("Artist".to_string()));
    assert_eq!(s.volume, 850);
    assert!(s.is_playing);
    assert_eq!(s.repeat, "Off");
    assert_eq!(s.theme, "Default");
    assert_eq!(s.visualizer_mode, "Spectrum");
    assert_eq!(s.visualizer_bars.len(), 64);
    assert_eq!(a.current_track().unwrap().path, "t1.mp3");
}

#[test]
fn visual_tick_decays_without_chunk() {
    let mut a = app(1);
    a.visualizer.bars[0] = 1000;
    assert!(!a.visual_tick(None));
    assert_eq!(a.visualizer.bars[0], 850);
    a.play_track(0);
    assert!(!a.visual_tick(None));
    assert_eq!(a.visualizer.bars[0], 722);
    assert!(a.visual_tick(Some(&[1, 2, 3])));
    assert_eq!(a.visualizer.bars[0], 722);
}

#[test]
fn regenerated_order_and_step() {
    let mut a = app(6);
    a.regenerate_shuffle();
    let order = a.shuffle_order.clone();
    let mut sorted = order.clone();
    sorted.sort();
    assert_eq!(sorted, (0..6).collect::<Vec<_>>());
    a.play_track(order[2]);
    assert_eq!(a.get_shuffle_next(), order[3]);
    a.play_track(order[5]);
    a.repeat = RepeatMode::All;
    let next = a.get_shuffle_next();
    assert_eq!(next, a.shuffle_order[0]);
}

#[test]
fn finished_track_under_shuffle_follows_order() {
    let mut a = app(4);
    a.toggle_shuffle();
    let order = a.shuffle_order.clone();
    a.play_track(order[1]);
    assert_eq!(a.on_audio_event(AudioEvent::TrackFinished), play(order[2]));
    assert_eq!(a.playing_index, Some(order[2]));
    assert_eq!(a.progress_ms, 0);
}

/// Drives the engine and the player together: the commands the player
/// issues go to the engine, and the events the engine emits come back.
fn run_to_end(app: &mut App, engine: &mut AudioEngine, start: usize) -> Vec<Option<AudioCommand>> {
    let mut after_finish = Vec::new();
    let cmd = app.play_track(start).unwrap();
    for act in engine.handle_command(cmd) {
        if let EngineAction::OpenTrack(_) = act {
            engine.track_opened(Ok(StreamInfo { sample_rate: 44100, channels: 2, duration_ms: Some(200_000) }));
        }
    }
    let mut finished = false;
    let mut counter: u64 = 0;
    let mut finishes = 0;
    for step in 1..=300u64 {
        // One simulated second per step; the stream runs out after 205 seconds.
        counter += 88_200;
        if step == 205 {
            finished = true;
        }
        for act in engine.tick(step * 1000, counter, finished, true) {
            match act {
                EngineAction::StoreFinished(f) => finished = f,
                EngineAction::Emit(ev) => {
                    if ev == AudioEvent::TrackFinished {
                        finishes += 1;
                        after_finish.push(app.on_audio_event(ev));
                    } else {
                        app.on_audio_event(ev);
                    }
                }
                _ => {}
            }
        }
    }
    assert_eq!(finishes, 1);
    after_finish
}

#[test]
fn end_to_end_finish_advances_or_stops() {
    let mut a = app(2);
    let mut engine = AudioEngine::new();
    assert_eq!(run_to_end(&mut a, &mut engine, 0), vec![play(1)]);
    assert_eq!(a.playing_index, Some(1));

    let mut b = app(2);
    let mut engine = AudioEngine::new();
    assert_eq!(run_to_end(&mut b, &mut engine, 1), vec![None]);
    assert_eq!(b.playing_index, Some(1));
}

#[test]
fn search_ignores_case() {
    let lib = vec![track("a.mp3", "RED Light", "X", 1), track("b.mp3", "blue", "Y", 1)];
    let mut a = App::new(lib);
    a.search_input('r');
    a.search_input('E');
    assert_eq!(a.filtered_indices, vec![0]);
}
