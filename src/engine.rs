//! The playback engine's decisions: what to do with each command, and when to
//! report progress or the end of a track.
//!
//! The engine itself runs beside the output device; it hands each command and
//! each poll of the device to [`AudioEngine`] and carries out the
//! [`EngineAction`]s that come back, in order.
use vstd::prelude::*;

verus! {

/// How often progress is reported, in milliseconds (about thirty times a second).
pub const PROGRESS_INTERVAL_MS: u64 = 33;

/// Sample rate assumed until a track has been opened.
pub const DEFAULT_SAMPLE_RATE: u32 = 44100;

/// Channel count assumed until a track has been opened.
pub const DEFAULT_CHANNELS: u16 = 2;

/// An intent sent to the engine.
///
/// Positions are in milliseconds, volume in thousandths (1000 is full volume)
/// and speed in percent (100 is normal speed).
#[derive(Debug, Clone, PartialEq)]
pub enum AudioCommand {
    Play(String),
    Pause,
    Resume,
    Stop,
    Seek(u64),
    SetVolume(u32),
    SetSpeed(u32),
}

/// A report from the engine. Durations and positions are in milliseconds.
#[derive(Debug, Clone, PartialEq)]
pub enum AudioEvent {
    Playing { duration_ms: u64 },
    Progress(u64),
    TrackFinished,
    Error(String),
}

/// What the decoder reports about a stream it has opened.
#[derive(Debug, Clone, Copy, PartialEq, Eq, Structural)]
pub struct StreamInfo {
    pub sample_rate: u32,
    pub channels: u16,
    pub duration_ms: Option<u64>,
}

/// One step for the engine's host to carry out.
#[derive(Debug, Clone, PartialEq)]
pub enum EngineAction {
    /// Stop the output and drop what it holds.
    StopOutput,
    PauseOutput,
    ResumeOutput,
    /// Reposition the output, in milliseconds.
    SeekOutput(u64),
    /// Set the output volume, in thousandths, exactly as given.
    SetOutputVolume(u32),
    /// Set the output speed, in percent, exactly as given.
    SetOutputSpeed(u32),
    /// Write the shared position counter.
    StoreCounter(u64),
    /// Write the shared finished flag.
    StoreFinished(bool),
    /// Open the track at this path and report back through `track_opened`.
    OpenTrack(String),
    Emit(AudioEvent),
}

/// Samples that make up one second of audio.
pub open spec fn samples_per_second(sample_rate: u32, channels: u16) -> int {
    sample_rate * channels
}

/// Elapsed milliseconds for a counter of interleaved samples.
pub open spec fn position_of(counter: u64, sample_rate: u32, channels: u16) -> int {
    let k = samples_per_second(sample_rate, channels);
    if k == 0 {
        0
    } else {
        (counter * 1000) / k
    }
}

/// The counter value that stands for a position in milliseconds.
pub open spec fn counter_for(pos_ms: u64, sample_rate: u32, channels: u16) -> int {
    (pos_ms * samples_per_second(sample_rate, channels)) / 1000
}

proof fn lemma_rate_fits(sample_rate: u32, channels: u16)
    ensures
        0 <= samples_per_second(sample_rate, channels) <= u32::MAX * u16::MAX,
{
    assert(0 <= sample_rate * channels <= u32::MAX * u16::MAX) by (nonlinear_arith)
        requires
            sample_rate <= u32::MAX,
            channels <= u16::MAX,
    ;
}

pub open spec fn saturate(x: int) -> u64 {
    if x <= u64::MAX {
        x as u64
    } else {
        u64::MAX
    }
}

/// Elapsed milliseconds for a sample counter; 0 when the stream has no
/// samples per second, and `u64::MAX` where the true value is larger.
pub fn position_ms(counter: u64, sample_rate: u32, channels: u16) -> (r: u64)
    ensures
        r == saturate(position_of(counter, sample_rate, channels)),
{
    proof {
        lemma_rate_fits(sample_rate, channels);
    }
    let k: u64 = sample_rate as u64 * channels as u64;
    if k == 0 {
        return 0;
    }
    let p: u128 = (counter as u128 * 1000) / k as u128;
    if p <= u64::MAX as u128 {
        p as u64
    } else {
        u64::MAX
    }
}

/// The sample counter for a position in milliseconds, `u64::MAX` where the
/// true value is larger.
pub fn seek_counter(pos_ms: u64, sample_rate: u32, channels: u16) -> (r: u64)
    ensures
        r == saturate(counter_for(pos_ms, sample_rate, channels)),
{
    proof {
        lemma_rate_fits(sample_rate, channels);
    }
    let k: u64 = sample_rate as u64 * channels as u64;
    assert(pos_ms * k <= u64::MAX * u64::MAX) by (nonlinear_arith)
        requires
            0 <= pos_ms <= u64::MAX,
            0 <= k <= u64::MAX,
    ;
    let c: u128 = (pos_ms as u128 * k as u128) / 1000;
    if c <= u64::MAX as u128 {
        c as u64
    } else {
        u64::MAX
    }
}

/// A seek lands on the counter value of its target, and the counter then
/// reads back as that target: never later, and, at a thousand samples per
/// second or more, at most one millisecond earlier. The counter itself is
/// within one sample of the target.
pub proof fn lemma_seek_reads_back(pos_ms: u64, sample_rate: u32, channels: u16)
    requires
        samples_per_second(sample_rate, channels) > 0,
        counter_for(pos_ms, sample_rate, channels) <= u64::MAX,
    ensures
        ({
            let c = saturate(counter_for(pos_ms, sample_rate, channels));
            let k = samples_per_second(sample_rate, channels);
            &&& c * 1000 <= pos_ms * k < c * 1000 + 1000
            &&& position_of(c, sample_rate, channels) <= pos_ms
            &&& k >= 1000 ==> position_of(c, sample_rate, channels) >= pos_ms - 1
        }),
{
    let k = samples_per_second(sample_rate, channels);
    let c = counter_for(pos_ms, sample_rate, channels);
    let t = pos_ms as int;
    assert(c * 1000 <= t * k < c * 1000 + 1000) by (nonlinear_arith)
        requires
            c == (t * k) / 1000,
    ;
    let p = (c * 1000) / k;
    assert(p <= t) by (nonlinear_arith)
        requires
            p == (c * 1000) / k,
            c * 1000 <= t * k,
            k > 0,
    ;
    if k >= 1000 {
        assert(p >= t - 1) by (nonlinear_arith)
            requires
                p == (c * 1000) / k,
                t * k < c * 1000 + 1000,
                k >= 1000,
        ;
    }
}

/// The engine's own state between commands.
pub struct AudioEngine {
    /// A track is loaded in the output and may still finish.
    pub active: bool,
    pub sample_rate: u32,
    pub channels: u16,
    /// Duration of the loaded track in milliseconds; 0 when unknown.
    pub duration_ms: u64,
    /// When progress was last reported, in the host's milliseconds.
    pub last_progress_ms: u64,
}

/// Where a seek to `pos_ms` lands: at most the duration, when it is known.
pub open spec fn seek_target(pos_ms: u64, duration_ms: u64) -> u64 {
    if duration_ms > 0 && pos_ms > duration_ms {
        duration_ms
    } else {
        pos_ms
    }
}

impl AudioEngine {
    /// An idle engine, with no track loaded.
    pub fn new() -> (r: Self)
        ensures
            !r.active,
            r.sample_rate == DEFAULT_SAMPLE_RATE,
            r.channels == DEFAULT_CHANNELS,
            r.duration_ms == 0,
            r.last_progress_ms == 0,
    {
        AudioEngine {
            active: false,
            sample_rate: DEFAULT_SAMPLE_RATE,
            channels: DEFAULT_CHANNELS,
            duration_ms: 0,
            last_progress_ms: 0,
        }
    }

    /// The steps for one command.
    ///
    /// `Play` stops the current output, zeroes the counter, clears the finished
    /// flag and asks for the track to be opened; `Stop` does the same without
    /// opening anything. `Seek` repositions the output and rewrites the counter
    /// at once, and is ignored while nothing is loaded. Volume and speed are
    /// passed on exactly as given.
    pub fn handle_command(&mut self, cmd: AudioCommand) -> (r: Vec<EngineAction>)
        ensures
            final(self).sample_rate == old(self).sample_rate,
            final(self).channels == old(self).channels,
            final(self).last_progress_ms == old(self).last_progress_ms,
            cmd is Play ==> {
                &&& r@ == seq![
                    EngineAction::StopOutput,
                    EngineAction::StoreCounter(0),
                    EngineAction::StoreFinished(false),
                    EngineAction::OpenTrack(cmd->Play_0),
                ]
                &&& !final(self).active
                &&& final(self).duration_ms == 0
            },
            cmd is Stop ==> {
                &&& r@ == seq![
                    EngineAction::StopOutput,
                    EngineAction::StoreCounter(0),
                    EngineAction::StoreFinished(false),
                ]
                &&& !final(self).active
                &&& final(self).duration_ms == 0
            },
            !(cmd is Play) && !(cmd is Stop) ==> final(self).active == old(self).active
                && final(self).duration_ms == old(self).duration_ms,
            cmd is Pause ==> r@ == seq![EngineAction::PauseOutput],
            cmd is Resume ==> r@ == seq![EngineAction::ResumeOutput],
            cmd is Seek && old(self).active ==> {
                let t = seek_target(cmd->Seek_0, old(self).duration_ms);
                r@ == seq![
                    EngineAction::SeekOutput(t),
                    EngineAction::StoreCounter(
                        saturate(counter_for(t, old(self).sample_rate, old(self).channels)),
                    ),
                ]
            },
            cmd is Seek && !old(self).active ==> r@.len() == 0,
            cmd is SetVolume ==> r@ == seq![EngineAction::SetOutputVolume(cmd->SetVolume_0)],
            cmd is SetSpeed ==> r@ == seq![EngineAction::SetOutputSpeed(cmd->SetSpeed_0)],
    {
        let mut out: Vec<EngineAction> = Vec::new();
        match cmd {
            AudioCommand::Play(path) => {
                self.active = false;
                self.duration_ms = 0;
                out.push(EngineAction::StopOutput);
                out.push(EngineAction::StoreCounter(0));
                out.push(EngineAction::StoreFinished(false));
                out.push(EngineAction::OpenTrack(path));
            },
            AudioCommand::Pause => {
                out.push(EngineAction::PauseOutput);
            },
            AudioCommand::Resume => {
                out.push(EngineAction::ResumeOutput);
            },
            AudioCommand::Stop => {
                self.active = false;
                self.duration_ms = 0;
                out.push(EngineAction::StopOutput);
                out.push(EngineAction::StoreCounter(0));
                out.push(EngineAction::StoreFinished(false));
            },
            AudioCommand::Seek(pos) => {
                if self.active {
                    let target = if self.duration_ms > 0 && pos > self.duration_ms {
                        self.duration_ms
                    } else {
                        pos
                    };
                    out.push(EngineAction::SeekOutput(target));
                    out.push(
                        EngineAction::StoreCounter(
                            seek_counter(target, self.sample_rate, self.channels),
                        ),
                    );
                }
            },
            AudioCommand::SetVolume(v) => {
                out.push(EngineAction::SetOutputVolume(v));
            },
            AudioCommand::SetSpeed(s) => {
                out.push(EngineAction::SetOutputSpeed(s));
            },
        }
        out
    }

    /// The steps once the decoder has tried to open the track that `Play` asked
    /// for: on success the stream's format is taken over and `Playing` is
    /// reported with the duration (0 when unknown); on failure the message is
    /// reported and the engine stays idle.
    pub fn track_opened(&mut self, opened: Result<StreamInfo, String>) -> (r: Vec<EngineAction>)
        ensures
            final(self).last_progress_ms == old(self).last_progress_ms,
            opened is Ok ==> {
                let info = opened->Ok_0;
                let d = match info.duration_ms {
                    Some(d) => d,
                    None => 0,
                };
                &&& final(self).active
                &&& final(self).sample_rate == info.sample_rate
                &&& final(self).channels == info.channels
                &&& final(self).duration_ms == d
                &&& r@ == seq![EngineAction::Emit(AudioEvent::Playing { duration_ms: d })]
            },
            opened is Err ==> {
                &&& !final(self).active
                &&& final(self).sample_rate == old(self).sample_rate
                &&& final(self).channels == old(self).channels
                &&& final(self).duration_ms == old(self).duration_ms
                &&& r@ == seq![EngineAction::Emit(AudioEvent::Error(opened->Err_0))]
            },
    {
        let mut out: Vec<EngineAction> = Vec::new();
        match opened {
            Ok(info) => {
                let d = match info.duration_ms {
                    Some(d) => d,
                    None => 0,
                };
                self.active = true;
                self.sample_rate = info.sample_rate;
                self.channels = info.channels;
                self.duration_ms = d;
                out.push(EngineAction::Emit(AudioEvent::Playing { duration_ms: d }));
            },
            Err(msg) => {
                self.active = false;
                out.push(EngineAction::Emit(AudioEvent::Error(msg)));
            },
        }
        out
    }

    /// The steps for one poll, at `now_ms` on the host's clock, given the
    /// shared counter and finished flag and whether the output has drained.
    ///
    /// The end of the track is reported once the stream is exhausted and the
    /// output holds no more audio; the flag is then cleared and the engine goes
    /// idle, so it is reported once. Progress is reported when at least
    /// [`PROGRESS_INTERVAL_MS`] have passed since the last report.
    pub fn tick(&mut self, now_ms: u64, counter: u64, finished: bool, output_empty: bool) -> (r:
        Vec<EngineAction>)
        ensures
            ({
                let ends = old(self).active && finished && output_empty;
                let reports = now_ms >= old(self).last_progress_ms + PROGRESS_INTERVAL_MS;
                let end_part = if ends {
                    seq![EngineAction::StoreFinished(false), EngineAction::Emit(AudioEvent::TrackFinished)]
                } else {
                    Seq::<EngineAction>::empty()
                };
                let progress = EngineAction::Emit(
                    AudioEvent::Progress(
                        saturate(position_of(counter, old(self).sample_rate, old(self).channels)),
                    ),
                );
                &&& r@ == if reports { end_part.push(progress) } else { end_part }
                &&& final(self).active == (old(self).active && !ends)
                &&& final(self).last_progress_ms == if reports { now_ms } else { old(self).last_progress_ms }
            }),
            final(self).sample_rate == old(self).sample_rate,
            final(self).channels == old(self).channels,
            final(self).duration_ms == old(self).duration_ms,
    {
        let mut out: Vec<EngineAction> = Vec::new();
        if self.active && finished && output_empty {
            self.active = false;
            out.push(EngineAction::StoreFinished(false));
            out.push(EngineAction::Emit(AudioEvent::TrackFinished));
        }
        if now_ms >= self.last_progress_ms && now_ms - self.last_progress_ms >= PROGRESS_INTERVAL_MS {
            let pos = position_ms(counter, self.sample_rate, self.channels);
            out.push(EngineAction::Emit(AudioEvent::Progress(pos)));
            self.last_progress_ms = now_ms;
        }
        proof {
            let ends = old(self).active && finished && output_empty;
            if ends {
                assert(out@.subrange(0, 2) =~= seq![EngineAction::StoreFinished(false), EngineAction::Emit(AudioEvent::TrackFinished)]);
            }
        }
        out
    }
}

} // verus!
