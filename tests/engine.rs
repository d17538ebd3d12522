use tunebox::capture::{downmix_to_mono, SampleCapture};
use tunebox::engine::{
    position_ms, seek_counter, AudioCommand, AudioEngine, AudioEvent, EngineAction, StreamInfo,
};

fn playing_engine(duration_ms: Option<u64>) -> AudioEngine {
    let mut e = AudioEngine::new();
    e.handle_command(AudioCommand::Play("a.mp3".to_string()));
    e.track_opened(Ok(StreamInfo { sample_rate: 44100, channels: 2, duration_ms }));
    e
}

#[test]
fn play_resets_and_opens() {
    let mut e = AudioEngine::new();
    let acts = e.handle_command(AudioCommand::Play("song.flac".to_string()));
    assert_eq!(
        acts,
        vec![
            EngineAction::StopOutput,
            EngineAction::StoreCounter(0),
            EngineAction::StoreFinished(false),
            EngineAction::OpenTrack("song.flac".to_string()),
        ]
    );
    assert!(!e.active);
    let acts = e.track_opened(Ok(StreamInfo { sample_rate: 48000, channels: 1, duration_ms: None }));
    assert_eq!(acts, vec![EngineAction::Emit(AudioEvent::Playing { duration_ms: 0 })]);
    assert!(e.active);
    assert_eq!(e.sample_rate, 48000);
    assert_eq!(e.channels, 1);
}

#[test]
fn open_failure_reports_and_stays_idle() {
    let mut e = AudioEngine::new();
    e.handle_command(AudioCommand::Play("bad.mp3".to_string()));
    let acts = e.track_opened(Err("cannot decode".to_string()));
    assert_eq!(acts, vec![EngineAction::Emit(AudioEvent::Error("cannot decode".to_string()))]);
    assert!(!e.active);
}

#[test]
fn seek_rewrites_counter_at_once() {
    let mut e = playing_engine(Some(200_000));
    let acts = e.handle_command(AudioCommand::Seek(30_000));
    assert_eq!(
        acts,
        vec![EngineAction::SeekOutput(30_000), EngineAction::StoreCounter(2_646_000)]
    );
    assert_eq!(position_ms(2_646_000, 44100, 2), 30_000);
}

#[test]
fn seek_is_clamped_to_duration() {
    let mut e = playing_engine(Some(200_000));
    let acts = e.handle_command(AudioCommand::Seek(250_000));
    assert_eq!(
        acts,
        vec![EngineAction::SeekOutput(200_000), EngineAction::StoreCounter(17_640_000)]
    );
}

#[test]
fn seek_while_idle_does_nothing() {
    let mut e = AudioEngine::new();
    assert!(e.handle_command(AudioCommand::Seek(1000)).is_empty());
}

#[test]
fn seek_reads_back_within_one_sample() {
    for &(t, rate, ch) in &[(1234u64, 44100u32, 2u16), (999_999, 48000, 1), (7, 22050, 6)] {
        let c = seek_counter(t, rate, ch);
        let k = rate as u64 * ch as u64;
        assert!(c * 1000 <= t * k && t * k < c * 1000 + 1000);
        let p = position_ms(c, rate, ch);
        assert!(p <= t && p + 1 >= t);
    }
}

#[test]
fn set_volume_passes_through_unclamped() {
    let mut e = playing_engine(None);
    assert_eq!(
        e.handle_command(AudioCommand::SetVolume(1500)),
        vec![EngineAction::SetOutputVolume(1500)]
    );
    assert_eq!(e.handle_command(AudioCommand::SetSpeed(125)), vec![EngineAction::SetOutputSpeed(125)]);
    assert_eq!(e.handle_command(AudioCommand::Pause), vec![EngineAction::PauseOutput]);
    assert_eq!(e.handle_command(AudioCommand::Resume), vec![EngineAction::ResumeOutput]);
}

#[test]
fn stop_resets_shared_state() {
    let mut e = playing_engine(Some(1000));
    assert_eq!(
        e.handle_command(AudioCommand::Stop),
        vec![
            EngineAction::StopOutput,
            EngineAction::StoreCounter(0),
            EngineAction::StoreFinished(false),
        ]
    );
    assert!(!e.active);
}

#[test]
fn track_finishes_exactly_once() {
    let mut e = playing_engine(Some(200_000));
    let counter = 205 * 88_200;
    // Stream exhausted but audio still buffered: no end yet.
    let acts = e.tick(10, counter, true, false);
    assert!(!acts.contains(&EngineAction::Emit(AudioEvent::TrackFinished)));
    let acts = e.tick(50, counter, true, true);
    assert_eq!(
        acts,
        vec![
            EngineAction::StoreFinished(false),
            EngineAction::Emit(AudioEvent::TrackFinished),
            EngineAction::Emit(AudioEvent::Progress(205_000)),
        ]
    );
    assert!(!e.active);
    // Even if the flag were still seen set, the idle engine reports no second end.
    let acts = e.tick(100, counter, true, true);
    assert_eq!(acts, vec![EngineAction::Emit(AudioEvent::Progress(205_000))]);
}

#[test]
fn progress_is_paced() {
    let mut e = playing_engine(None);
    assert_eq!(e.tick(33, 44_100, false, false), vec![EngineAction::Emit(AudioEvent::Progress(500))]);
    assert!(e.tick(40, 44_100, false, false).is_empty());
    assert_eq!(e.tick(66, 88_200, false, false), vec![EngineAction::Emit(AudioEvent::Progress(1000))]);
}

#[test]
fn position_of_empty_format_is_zero() {
    assert_eq!(position_ms(12345, 0, 2), 0);
    assert_eq!(position_ms(u64::MAX, 1, 1), u64::MAX);
}

#[test]
fn capture_hands_on_mono_chunks() {
    let mut c = SampleCapture::new(90, 2);
    assert_eq!(c.capacity, 6);
    let samples = [10, 20, 30, 40, -50, -61];
    for (i, s) in samples.iter().enumerate() {
        let out = c.push_sample(*s);
        if i < 5 {
            assert!(out.is_none());
        } else {
            assert_eq!(out, Some(vec![15, 35, -55]));
        }
    }
    assert!(c.buffer.is_empty());
}

#[test]
fn downmix_keeps_mono_and_averages_short_frame() {
    assert_eq!(downmix_to_mono(&[1, -2, 3], 1), vec![1, -2, 3]);
    assert_eq!(downmix_to_mono(&[3, 5, 7, 9, 10], 2), vec![4, 8, 10]);
    assert_eq!(downmix_to_mono(&[], 2), Vec::<i32>::new());
}
