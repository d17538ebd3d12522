use tunebox::display::{calculate_scroll, format_file_size, format_time, truncate_str};
use tunebox::library::{
    cache_is_fresh, format_from_extension, is_audio_extension, is_audio_file, track_from_metadata,
    TrackMetadata,
};
use tunebox::modes::{PlaybackSpeed, RepeatMode, Theme, VisualizerMode};
use tunebox::remote::{clamp_volume, parse_query_param, route, Method, Route};
use tunebox::text::matches_folded;

#[test]
fn times_are_minutes_and_seconds() {
    assert_eq!(format_time(0), "0:00");
    assert_eq!(format_time(125), "2:05");
    assert_eq!(format_time(3600), "60:00");
    assert_eq!(format_time(59), "0:59");
}

#[test]
fn file_sizes_pick_a_unit() {
    assert_eq!(format_file_size(0), "0 B");
    assert_eq!(format_file_size(1023), "1023 B");
    assert_eq!(format_file_size(1024), "1.0 KB");
    assert_eq!(format_file_size(1536), "1.5 KB");
    assert_eq!(format_file_size(1126), "1.1 KB");
    assert_eq!(format_file_size(3 * 1_048_576), "3.0 MB");
    assert_eq!(format_file_size(1_073_741_824), "1.0 GB");
    assert_eq!(format_file_size(5_400_000_000), "5.0 GB");
}

#[test]
fn names_fit_their_column() {
    assert_eq!(truncate_str("abc", 5), "abc  ");
    assert_eq!(truncate_str("abcd", 4), "abcd");
    assert_eq!(truncate_str("abcdef", 4), "abc…");
    assert_eq!(truncate_str("", 0), "");
    assert_eq!(truncate_str("xy", 1), "…");
}

#[test]
fn scroll_follows_selection() {
    assert_eq!(calculate_scroll(5, 0, 3), 0);
    assert_eq!(calculate_scroll(2, 10, 5), 2);
    assert_eq!(calculate_scroll(20, 10, 5), 11);
    assert_eq!(calculate_scroll(7, 10, 5), 5);
    assert_eq!(calculate_scroll(14, 10, 5), 5);
    assert_eq!(calculate_scroll(15, 10, 5), 6);
}

#[test]
fn query_params_are_read() {
    assert_eq!(parse_query_param("/api/volume?v=0.5", "v"), Some("0.5".to_string()));
    assert_eq!(parse_query_param("/api/seek?t=12&x=1", "x"), Some("1".to_string()));
    assert_eq!(parse_query_param("/api/seek?t=12&x=1", "t"), Some("12".to_string()));
    assert_eq!(parse_query_param("/api/volume", "v"), None);
    assert_eq!(parse_query_param("/a?v", "v"), None);
    assert_eq!(parse_query_param("/a?x=1", "v"), None);
    assert_eq!(parse_query_param("/a?v=1=2", "v"), Some("1=2".to_string()));
    assert_eq!(parse_query_param("/a?v=", "v"), Some(String::new()));
    assert_eq!(parse_query_param("/a?x=1?v=2", "v"), None);
}

#[test]
fn requests_are_routed() {
    assert_eq!(route(Method::Get, "/"), Route::Page);
    assert_eq!(route(Method::Get, "/api/status"), Route::Status);
    assert_eq!(route(Method::Post, "/"), Route::NotFound);
    assert_eq!(route(Method::Post, "/api/toggle"), Route::Toggle);
    assert_eq!(route(Method::Post, "/api/next"), Route::Next);
    assert_eq!(route(Method::Post, "/api/prev"), Route::Prev);
    assert_eq!(route(Method::Post, "/api/theme"), Route::Theme);
    assert_eq!(route(Method::Post, "/api/visualizer"), Route::Visualizer);
    assert_eq!(route(Method::Post, "/api/shuffle"), Route::Shuffle);
    assert_eq!(route(Method::Post, "/api/volume?v=1"), Route::Volume);
    assert_eq!(route(Method::Post, "/api/seek?t=3"), Route::Seek);
    assert_eq!(route(Method::Get, "/api/seek?t=3"), Route::NotFound);
    assert_eq!(route(Method::Other, "/"), Route::NotFound);
}

#[test]
fn remote_volume_is_clamped() {
    assert_eq!(clamp_volume(-5), 0);
    assert_eq!(clamp_volume(1500), 1000);
    assert_eq!(clamp_volume(420), 420);
}

#[test]
fn audio_files_by_extension() {
    assert!(is_audio_file("/music/a.MP3"));
    assert!(is_audio_file("b.flac"));
    assert!(!is_audio_file("notes.txt"));
    assert!(!is_audio_file("noext"));
    assert!(!is_audio_file(".mp3"));
    assert!(is_audio_extension("ogg"));
    assert!(!is_audio_extension("OGG"));
}

#[test]
fn formats_come_from_extension() {
    assert_eq!(format_from_extension("x/a.flac"), "FLAC");
    assert_eq!(format_from_extension("x/a.M4a"), "M4A");
    assert_eq!(format_from_extension("x/a"), "UNKNOWN");
}

#[test]
fn tracks_fill_missing_tags() {
    let t = track_from_metadata("p/x.mp3".to_string(), Some("x".to_string()), None, "MP3".to_string(), 7);
    assert_eq!(t.title, "x");
    assert_eq!(t.artist, "Unknown Artist");
    assert_eq!(t.album, "Unknown Album");
    assert_eq!(t.duration_ms, 0);
    let meta = TrackMetadata {
        title: None,
        artist: Some("Band".to_string()),
        album: None,
        track_number: Some(3),
        duration_ms: Some(61_000),
        bitrate: Some(320),
        sample_rate: Some(44100),
        channels: Some(2),
        album_art: None,
    };
    let t = track_from_metadata("p/y.mp3".to_string(), None, Some(meta), "MP3".to_string(), 9);
    assert_eq!(t.title, "Unknown");
    assert_eq!(t.artist, "Band");
    assert_eq!(t.album, "Unknown Album");
    assert_eq!(t.duration_ms, 61_000);
    assert_eq!(t.track_number, Some(3));
    assert_eq!(t.file_size, 9);
}

#[test]
fn cache_freshness() {
    assert!(cache_is_fresh("/m", "/m", 100, 100));
    assert!(!cache_is_fresh("/m", "/m", 100, 101));
    assert!(!cache_is_fresh("/m", "/n", 100, 50));
}

#[test]
fn folded_matching() {
    assert!(matches_folded("ba", "red", "beta band"));
    assert!(matches_folded("", "x", "y"));
    assert!(!matches_folded("zz", "red", "beta"));
}

#[test]
fn modes_cycle_and_label() {
    assert_eq!(RepeatMode::Off.cycle(), RepeatMode::All);
    assert_eq!(RepeatMode::One.cycle(), RepeatMode::Off);
    assert_eq!(RepeatMode::All.label(), "All");
    assert_eq!(Theme::Neon.cycle(), Theme::Default);
    assert_eq!(Theme::Nord.name(), "Nord");
    assert_eq!(Theme::default(), Theme::Default);
    assert_eq!(PlaybackSpeed::Fast200.cycle_up(), PlaybackSpeed::Fast200);
    assert_eq!(PlaybackSpeed::Slow50.cycle_down(), PlaybackSpeed::Slow50);
    assert_eq!(PlaybackSpeed::Slow75.label(), "0.75x");
    assert_eq!(PlaybackSpeed::Fast150.percent(), 150);
    assert_eq!(VisualizerMode::Off.cycle(), VisualizerMode::FrequencyBars);
    assert_eq!(VisualizerMode::FrequencyBars.label(), "Spectrum");
}
