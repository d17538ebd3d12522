//! The playback orchestrator: playlist, selection, shuffle order, repeat
//! policy, speed, volume and sleep timer. Each operation updates the state
//! and returns the commands for the engine, which the caller sends.
use vstd::prelude::*;
use rand::seq::SliceRandom;
use crate::engine::{AudioCommand, AudioEvent};
use crate::library::Track;
use crate::modes::{PlaybackSpeed, RepeatMode, Theme, speed_percent};
use crate::text::{is_substring, lower_of, lowercase, matches_folded, pop_char, push_char};
use crate::visualizer::Visualizer;

verus! {

/// Full volume, in thousandths.
pub const MAX_VOLUME: u32 = 1000;

/// Volume at start, in thousandths.
pub const DEFAULT_VOLUME: u32 = 800;

/// Change of one volume step, in thousandths.
pub const VOLUME_STEP: u32 = 50;

/// Jump of one seek step, in milliseconds.
pub const SEEK_STEP_MS: u64 = 5000;

/// Past this point a step back restarts the track, in milliseconds.
pub const RESTART_THRESHOLD_MS: u64 = 3000;

/// Length of the sleep timer's fade, in milliseconds.
pub const FADE_MS: u64 = 60_000;

/// An armed sleep timer; times are on the caller's millisecond clock.
#[derive(Debug, Clone, Copy, PartialEq, Eq, Structural)]
pub struct SleepTimer {
    pub end_ms: u64,
    pub fade_start_ms: u64,
    /// The volume to return to, in thousandths.
    pub original_volume: u32,
    pub duration_mins: u32,
}

/// The order holds each index below `n` exactly once.
pub open spec fn is_permutation(order: Seq<usize>, n: int) -> bool {
    &&& order.len() == n
    &&& order.no_duplicates()
    &&& forall|i: int| 0 <= i < n ==> #[trigger] order[i] < n
    &&& forall|k: usize| k < n ==> #[trigger] order.contains(k)
}

/// `0, 1, ..., n - 1`.
pub open spec fn identity_order(n: nat) -> Seq<usize> {
    Seq::new(n, |i: int| i as usize)
}

/// Relies on rand's `SliceRandom::shuffle` with the thread-local generator,
/// which only swaps elements: the same elements come back, in some order.
#[verifier::external_body]
fn shuffled(v: Vec<usize>) -> (r: Vec<usize>)
    ensures
        r@.to_multiset() == v@.to_multiset(),
{
    let mut v = v;
    v.shuffle(&mut rand::thread_rng());
    v
}

/// Whatever order the shuffle hands back is a permutation of the track
/// indices: every index appears, none twice, and nothing else.
pub proof fn lemma_shuffle_is_permutation(order: Seq<usize>, n: nat)
    requires
        n <= usize::MAX,
        order.to_multiset() == identity_order(n).to_multiset(),
    ensures
        is_permutation(order, n as int),
{
    let base = identity_order(n);
    broadcast use vstd::seq_lib::group_to_multiset_ensures;
    assert forall|i: int, j: int| 0 <= i < base.len() && 0 <= j < base.len() && i != j implies base[i]
        != base[j] by {}
    assert(base.no_duplicates());
    base.lemma_multiset_has_no_duplicates();
    order.lemma_multiset_has_no_duplicates_conv();
    assert(order.to_multiset().len() == base.to_multiset().len());
    assert(order.len() == base.len());
    assert forall|i: int| 0 <= i < n implies #[trigger] order[i] < n by {
        assert(order.contains(order[i]));
        assert(base.to_multiset().count(order[i]) > 0);
        assert(base.contains(order[i]));
    }
    assert forall|k: usize| k < n implies #[trigger] order.contains(k) by {
        assert(base[k as int] == k);
        assert(base.contains(k));
        assert(base.to_multiset().count(k) > 0);
        assert(order.to_multiset().count(k) > 0);
    }
}

/// `0, 1, ..., n - 1` as a vector.
fn index_range(n: usize) -> (r: Vec<usize>)
    ensures
        r@ == identity_order(n as nat),
{
    let mut v: Vec<usize> = Vec::new();
    let mut i: usize = 0;
    while i < n
        invariant
            i <= n,
            v@ == identity_order(i as nat),
        decreases n - i,
    {
        v.push(i);
        i = i + 1;
        assert(v@ =~= identity_order(i as nat));
    }
    v
}

/// Where a step forward goes without shuffle; `None` when it stays put.
pub open spec fn sequential_next(current: Option<usize>, n: int, repeat: RepeatMode) -> Option<usize> {
    match current {
        None => Some(0),
        Some(c) => if c + 1 >= n {
            match repeat {
                RepeatMode::All => Some(0),
                RepeatMode::Off => None,
                RepeatMode::One => Some(c),
            }
        } else {
            Some((c + 1) as usize)
        },
    }
}

/// Where a step back goes when it does not restart the current track.
pub open spec fn previous_index(current: Option<usize>, n: int, repeat: RepeatMode) -> usize {
    match current {
        None => 0,
        Some(c) => if c == 0 {
            if repeat == RepeatMode::All {
                (n - 1) as usize
            } else {
                0
            }
        } else {
            (c - 1) as usize
        },
    }
}

/// One step along the shuffle order `o`, leaving the order `f` and choosing
/// `idx`: the entry after the current one; past the end of the order, under
/// repeat-all, the first entry of a fresh order, and otherwise the current
/// track again; with nothing playing, the first entry.
pub open spec fn shuffle_step(
    o: Seq<usize>,
    f: Seq<usize>,
    current: Option<usize>,
    repeat: RepeatMode,
    idx: usize,
) -> bool {
    match current {
        None => idx == o[0] && f == o,
        Some(c) => forall|p: int|
            0 <= p < o.len() && #[trigger] o[p] == c ==> {
                &&& p + 1 < o.len() ==> idx == o[p + 1] && f == o
                &&& p + 1 == o.len() && repeat == RepeatMode::All ==> is_permutation(f, o.len() as int)
                    && idx == f[0]
                &&& p + 1 == o.len() && repeat != RepeatMode::All ==> idx == c && f == o
            },
    }
}

/// A timer's fade ends at its end time and lasts [`FADE_MS`].
pub open spec fn timer_wf(t: SleepTimer) -> bool {
    t.fade_start_ms + FADE_MS == t.end_ms
}

/// The volume during the fade: the original volume scaled by the share of
/// the fade that is still to come, rounded down.
pub open spec fn faded_volume(t: SleepTimer, now_ms: u64) -> int {
    t.original_volume * (t.end_ms - now_ms) / (FADE_MS as int)
}

/// The ladder of sleep-timer lengths: off, 15, 30, 45, 60 minutes, off.
pub open spec fn next_timer_minutes(t: Option<SleepTimer>) -> Option<u32> {
    match t {
        None => Some(15),
        Some(t) => if t.duration_mins == 15 {
            Some(30)
        } else if t.duration_mins == 30 {
            Some(45)
        } else if t.duration_mins == 45 {
            Some(60)
        } else {
            None
        },
    }
}

pub open spec fn sat_add(a: u64, b: u64) -> u64 {
    if a + b > u64::MAX {
        u64::MAX
    } else {
        (a + b) as u64
    }
}

/// One volume step up, kept within full volume.
pub open spec fn volume_raised(v: u32) -> u32 {
    if v + VOLUME_STEP >= MAX_VOLUME {
        MAX_VOLUME
    } else {
        (v + VOLUME_STEP) as u32
    }
}

/// One volume step down, kept within silence and full volume.
pub open spec fn volume_lowered(v: u32) -> u32 {
    if v <= VOLUME_STEP {
        0
    } else if v - VOLUME_STEP >= MAX_VOLUME {
        MAX_VOLUME
    } else {
        (v - VOLUME_STEP) as u32
    }
}

/// A track matches a folded query when the query stands in its folded title
/// or its folded artist.
pub open spec fn track_matches(t: Track, q: Seq<char>) -> bool {
    is_substring(q, lower_of(t.title@)) || is_substring(q, lower_of(t.artist@))
}

/// The indices below `n` of the tracks that match, in library order.
pub open spec fn matching_indices(lib: Seq<Track>, q: Seq<char>, n: nat) -> Seq<usize>
    decreases n,
{
    if n == 0 {
        Seq::empty()
    } else {
        let prev = matching_indices(lib, q, (n - 1) as nat);
        if track_matches(lib[n - 1], q) {
            prev.push((n - 1) as usize)
        } else {
            prev
        }
    }
}

/// The list shown for a search query: every track for an empty query, else
/// those that match it case-insensitively.
pub open spec fn filter_for(lib: Seq<Track>, query: Seq<char>) -> Seq<usize> {
    if query.len() == 0 {
        identity_order(lib.len())
    } else {
        matching_indices(lib, lower_of(query), lib.len())
    }
}

/// The highlight after the list changed to `len` entries: kept if still in
/// the list, else moved to the last entry.
pub open spec fn clamped_selection(selected: usize, len: nat) -> usize {
    if selected >= len {
        if len == 0 {
            0
        } else {
            (len - 1) as usize
        }
    } else {
        selected
    }
}

/// What the remote control reads of the player.
#[derive(Debug, Clone)]
pub struct PlaybackState {
    pub track_title: Option<String>,
    pub track_artist: Option<String>,
    pub track_album: Option<String>,
    pub progress_ms: u64,
    pub duration_ms: u64,
    pub is_playing: bool,
    pub volume: u32,
    pub shuffle: bool,
    pub repeat: String,
    pub theme: String,
    pub visualizer_mode: String,
    pub visualizer_bars: Vec<u32>,
}

pub struct App {
    pub library: Vec<Track>,
    /// Library indices that match the search, in library order.
    pub filtered_indices: Vec<usize>,
    /// Position in `filtered_indices` of the highlighted entry.
    pub selected_index: usize,
    pub playing_index: Option<usize>,
    pub is_playing: bool,
    /// Volume in thousandths.
    pub volume: u32,
    pub shuffle: bool,
    pub repeat: RepeatMode,
    pub progress_ms: u64,
    pub duration_ms: u64,
    pub visualizer: Visualizer,
    pub search_mode: bool,
    pub search_query: String,
    pub show_info: bool,
    pub scroll_offset: usize,
    pub should_quit: bool,
    /// The latest error, replacing any earlier one.
    pub error_message: Option<String>,
    pub shuffle_order: Vec<usize>,
    pub theme: Theme,
    pub sleep_timer: Option<SleepTimer>,
    pub speed: PlaybackSpeed,
    pub mini_mode: bool,
}

pub open spec fn theme_name(t: Theme) -> Seq<char> {
    match t {
        Theme::Default => "Default"@,
        Theme::Dracula => "Dracula"@,
        Theme::Nord => "Nord"@,
        Theme::Gruvbox => "Gruvbox"@,
        Theme::Neon => "Neon"@,
    }
}

pub open spec fn mode_label(m: crate::modes::VisualizerMode) -> Seq<char> {
    match m {
        crate::modes::VisualizerMode::FrequencyBars => "Spectrum"@,
        crate::modes::VisualizerMode::Waveform => "Waveform"@,
        crate::modes::VisualizerMode::Off => "Off"@,
    }
}

/// The state right after track `index` has been started.
pub open spec fn started(a: App, index: usize) -> App {
    App {
        playing_index: Some(index),
        is_playing: true,
        progress_ms: 0,
        duration_ms: a.library@[index as int].duration_ms,
        ..a
    }
}

/// A step forward under shuffle went from `a` to `b`: the next track was
/// chosen along the shuffle order (see [`shuffle_step`]; an empty order is
/// first replaced by a fresh one) and started, and nothing else changed but
/// the order.
pub open spec fn shuffled_next(a: App, b: App) -> bool {
    let i = b.playing_index->Some_0;
    let o = a.shuffle_order@;
    let f = b.shuffle_order@;
    &&& b.playing_index is Some
    &&& b == started(App { shuffle_order: b.shuffle_order, ..a }, i)
    &&& o.len() > 0 ==> shuffle_step(o, f, a.playing_index, a.repeat, i)
    &&& o.len() == 0 ==> exists|g: Seq<usize>|
        is_permutation(g, a.library@.len() as int) && shuffle_step(g, f, a.playing_index, a.repeat, i)
}

/// The command that starts track `index`.
pub open spec fn play_command(a: App, index: usize) -> AudioCommand {
    AudioCommand::Play(a.library@[index as int].path)
}

impl App {
    pub open spec fn wf(&self) -> bool {
        &&& self.visualizer.wf()
        &&& self.library@.len() <= usize::MAX
        &&& (self.playing_index is Some ==> self.playing_index->Some_0 < self.library@.len())
        &&& (self.shuffle_order@.len() == 0 || is_permutation(
            self.shuffle_order@,
            self.library@.len() as int,
        ))
        &&& forall|k: int|
            0 <= k < self.filtered_indices@.len() ==> #[trigger] self.filtered_indices@[k]
                < self.library@.len()
        &&& (self.selected_index < self.filtered_indices@.len() || (self.filtered_indices@.len() == 0
            && self.selected_index == 0))
        &&& (self.sleep_timer is Some ==> timer_wf(self.sleep_timer->Some_0))
    }

    /// A player over `library`, with nothing playing, every track listed and
    /// the first one highlighted.
    pub fn new(library: Vec<Track>) -> (r: Self)
        ensures
            r.wf(),
            r.library@ == library@,
            r.filtered_indices@ == identity_order(library@.len()),
            r.selected_index == 0,
            r.playing_index is None,
            !r.is_playing,
            r.volume == DEFAULT_VOLUME,
            !r.shuffle,
            r.repeat == RepeatMode::Off,
            r.progress_ms == 0,
            r.duration_ms == 0,
            r.search_query@.len() == 0,
            !r.search_mode,
            r.error_message is None,
            r.shuffle_order@.len() == 0,
            r.theme == Theme::Default,
            r.sleep_timer is None,
            r.speed == PlaybackSpeed::Normal,
            !r.mini_mode,
            !r.show_info,
            !r.should_quit,
            r.scroll_offset == 0,
    {
        let n = library.len();
        let filtered_indices = index_range(n);
        App {
            library,
            filtered_indices,
            selected_index: 0,
            playing_index: None,
            is_playing: false,
            volume: DEFAULT_VOLUME,
            shuffle: false,
            repeat: RepeatMode::Off,
            progress_ms: 0,
            duration_ms: 0,
            visualizer: Visualizer::new(),
            search_mode: false,
            search_query: String::new(),
            show_info: false,
            scroll_offset: 0,
            should_quit: false,
            error_message: None,
            shuffle_order: Vec::new(),
            theme: Theme::Default,
            sleep_timer: None,
            speed: PlaybackSpeed::Normal,
            mini_mode: false,
        }
    }

    /// Start track `index`: it becomes the playing track, progress starts
    /// over and the duration is the track's known one. An index past the
    /// library changes nothing.
    pub fn play_track(&mut self, index: usize) -> (r: Option<AudioCommand>)
        requires
            old(self).wf(),
        ensures
            final(self).wf(),
            index < old(self).library@.len() ==> *final(self) == started(*old(self), index) && r
                == Some(play_command(*old(self), index)),
            index >= old(self).library@.len() ==> *final(self) == *old(self) && (r is None),
    {
        if index >= self.library.len() {
            return None;
        }
        let path = self.library[index].path.clone();
        self.playing_index = Some(index);
        self.is_playing = true;
        self.progress_ms = 0;
        self.duration_ms = self.library[index].duration_ms;
        Some(AudioCommand::Play(path))
    }

    /// Start the highlighted entry of the list, if the list is not empty.
    pub fn play_selected(&mut self) -> (r: Option<AudioCommand>)
        requires
            old(self).wf(),
        ensures
            final(self).wf(),
            old(self).filtered_indices@.len() == 0 ==> *final(self) == *old(self) && (r is None),
            old(self).filtered_indices@.len() > 0 ==> {
                let i = old(self).filtered_indices@[old(self).selected_index as int];
                *final(self) == started(*old(self), i) && r == Some(play_command(*old(self), i))
            },
    {
        if self.filtered_indices.len() == 0 {
            return None;
        }
        let lib_index = self.filtered_indices[self.selected_index];
        self.play_track(lib_index)
    }

    /// Pause or resume; with nothing playing, start the highlighted entry.
    pub fn toggle_pause(&mut self) -> (r: Option<AudioCommand>)
        requires
            old(self).wf(),
        ensures
            final(self).wf(),
            old(self).playing_index is None && old(self).filtered_indices@.len() == 0 ==> *final(self)
                == *old(self) && (r is None),
            old(self).playing_index is None && old(self).filtered_indices@.len() > 0 ==> {
                let i = old(self).filtered_indices@[old(self).selected_index as int];
                *final(self) == started(*old(self), i) && r == Some(play_command(*old(self), i))
            },
            old(self).playing_index is Some ==> {
                &&& *final(self) == (App { is_playing: !old(self).is_playing, ..*old(self) })
                &&& r == Some(
                    if old(self).is_playing {
                        AudioCommand::Pause
                    } else {
                        AudioCommand::Resume
                    },
                )
            },
    {
        if self.playing_index.is_none() {
            return self.play_selected();
        }
        self.is_playing = !self.is_playing;
        if self.is_playing {
            Some(AudioCommand::Resume)
        } else {
            Some(AudioCommand::Pause)
        }
    }

    /// Stop: nothing is playing any more, and progress and duration are zero.
    pub fn stop(&mut self) -> (r: AudioCommand)
        requires
            old(self).wf(),
        ensures
            final(self).wf(),
            r == AudioCommand::Stop,
            *final(self) == (App {
                is_playing: false,
                playing_index: None,
                progress_ms: 0,
                duration_ms: 0,
                ..*old(self)
            }),
    {
        self.is_playing = false;
        self.playing_index = None;
        self.progress_ms = 0;
        self.duration_ms = 0;
        AudioCommand::Stop
    }

    /// Draw a fresh shuffle order: a permutation of all track indices.
    pub fn regenerate_shuffle(&mut self)
        requires
            old(self).wf(),
        ensures
            final(self).wf(),
            is_permutation(final(self).shuffle_order@, old(self).library@.len() as int),
            *final(self) == (App { shuffle_order: final(self).shuffle_order, ..*old(self) }),
    {
        let n = self.library.len();
        let order = shuffled(index_range(n));
        proof {
            lemma_shuffle_is_permutation(order@, n as nat);
        }
        self.shuffle_order = order;
    }

    /// The next index along the shuffle order (see [`shuffle_step`]), drawing
    /// an order first when there is none.
    pub fn get_shuffle_next(&mut self) -> (idx: usize)
        requires
            old(self).wf(),
            old(self).library@.len() > 0,
        ensures
            final(self).wf(),
            idx < old(self).library@.len(),
            *final(self) == (App { shuffle_order: final(self).shuffle_order, ..*old(self) }),
            old(self).shuffle_order@.len() > 0 ==> shuffle_step(
                old(self).shuffle_order@,
                final(self).shuffle_order@,
                old(self).playing_index,
                old(self).repeat,
                idx,
            ),
            old(self).shuffle_order@.len() == 0 ==> exists|g: Seq<usize>|
                is_permutation(g, old(self).library@.len() as int) && shuffle_step(
                    g,
                    final(self).shuffle_order@,
                    old(self).playing_index,
                    old(self).repeat,
                    idx,
                ),
    {
        if self.shuffle_order.len() == 0 {
            self.regenerate_shuffle();
        }
        let ghost g = self.shuffle_order@;
        let n = self.shuffle_order.len();
        assert(n == self.library@.len());
        let idx = match self.playing_index {
            None => self.shuffle_order[0],
            Some(current) => {
                let mut pos: usize = 0;
                while pos < n && self.shuffle_order[pos] != current
                    invariant
                        n == self.shuffle_order@.len(),
                        pos <= n,
                        forall|q: int| 0 <= q < pos ==> self.shuffle_order@[q] != current,
                    decreases n - pos,
                {
                    pos = pos + 1;
                }
                if pos == n {
                    self.shuffle_order[0]
                } else {
                    proof {
                        assert forall|p: int| 0 <= p < n && #[trigger] g[p] == current implies p
                            == pos by {
                            if p != pos {
                                assert(g.no_duplicates());
                            }
                        }
                    }
                    let next_pos = pos + 1;
                    if next_pos >= n {
                        match self.repeat {
                            RepeatMode::All => {
                                self.regenerate_shuffle();
                                self.shuffle_order[0]
                            },
                            _ => current,
                        }
                    } else {
                        self.shuffle_order[next_pos]
                    }
                }
            },
        };
        idx
    }

    /// Step forward. Without shuffle the next track in library order; past
    /// the last one repeat-all wraps to the first, repeat-one plays the last
    /// again, and with repeat off nothing changes and no command is issued.
    /// With shuffle, the next entry of the shuffle order (see
    /// [`shuffle_step`]). With nothing playing, the first track.
    pub fn next_track(&mut self) -> (r: Option<AudioCommand>)
        requires
            old(self).wf(),
        ensures
            final(self).wf(),
            old(self).library@.len() == 0 ==> *final(self) == *old(self) && (r is None),
            old(self).library@.len() > 0 && !old(self).shuffle ==> match sequential_next(
                old(self).playing_index,
                old(self).library@.len() as int,
                old(self).repeat,
            ) {
                None => *final(self) == *old(self) && (r is None),
                Some(i) => *final(self) == started(*old(self), i) && r == Some(
                    play_command(*old(self), i),
                ),
            },
            old(self).library@.len() > 0 && old(self).shuffle ==> shuffled_next(*old(self), *final(self))
                && r == Some(play_command(*old(self), final(self).playing_index->Some_0)),
    {
        if self.library.len() == 0 {
            return None;
        }
        let next_index = if self.shuffle {
            self.get_shuffle_next()
        } else {
            match self.playing_index {
                Some(current) => {
                    if current + 1 >= self.library.len() {
                        match self.repeat {
                            RepeatMode::All => 0,
                            RepeatMode::Off => {
                                return None;
                            },
                            RepeatMode::One => current,
                        }
                    } else {
                        current + 1
                    }
                },
                None => 0,
            }
        };
        self.play_track(next_index)
    }

    /// Step back. More than three seconds into a track, restart it;
    /// otherwise go to the previous track, wrapping from the first to the
    /// last only under repeat-all. With nothing playing, the first track.
    pub fn prev_track(&mut self) -> (r: Option<AudioCommand>)
        requires
            old(self).wf(),
        ensures
            final(self).wf(),
            old(self).library@.len() == 0 ==> *final(self) == *old(self) && (r is None),
            old(self).library@.len() > 0 ==> {
                let i = if old(self).progress_ms > RESTART_THRESHOLD_MS && old(self).playing_index is Some {
                    old(self).playing_index->Some_0
                } else {
                    previous_index(
                        old(self).playing_index,
                        old(self).library@.len() as int,
                        old(self).repeat,
                    )
                };
                *final(self) == started(*old(self), i) && r == Some(play_command(*old(self), i))
            },
    {
        if self.library.len() == 0 {
            return None;
        }
        if self.progress_ms > RESTART_THRESHOLD_MS {
            if let Some(idx) = self.playing_index {
                return self.play_track(idx);
            }
        }
        let prev_index = match self.playing_index {
            Some(current) => {
                if current == 0 {
                    match self.repeat {
                        RepeatMode::All => self.library.len() - 1,
                        _ => 0,
                    }
                } else {
                    current - 1
                }
            },
            None => 0,
        };
        self.play_track(prev_index)
    }

    /// The current track has ended: under repeat-one it plays again,
    /// otherwise this is a step forward.
    pub fn handle_track_finished(&mut self) -> (r: Option<AudioCommand>)
        requires
            old(self).wf(),
        ensures
            final(self).wf(),
            old(self).repeat == RepeatMode::One && old(self).playing_index is Some ==> {
                let i = old(self).playing_index->Some_0;
                *final(self) == started(*old(self), i) && r == Some(play_command(*old(self), i))
            },
            old(self).repeat == RepeatMode::One && old(self).playing_index is None ==> *final(self)
                == *old(self) && (r is None),
            old(self).repeat != RepeatMode::One && old(self).library@.len() > 0
                && !old(self).shuffle ==> match sequential_next(
                old(self).playing_index,
                old(self).library@.len() as int,
                old(self).repeat,
            ) {
                None => *final(self) == *old(self) && (r is None),
                Some(i) => *final(self) == started(*old(self), i) && r == Some(
                    play_command(*old(self), i),
                ),
            },
            old(self).repeat != RepeatMode::One && old(self).shuffle && old(self).library@.len() > 0
                ==> shuffled_next(*old(self), *final(self)) && r == Some(
                play_command(*old(self), final(self).playing_index->Some_0),
            ),
            old(self).library@.len() == 0 ==> *final(self) == *old(self) && (r is None),
    {
        match self.repeat {
            RepeatMode::One => {
                match self.playing_index {
                    Some(idx) => self.play_track(idx),
                    None => None,
                }
            },
            _ => self.next_track(),
        }
    }

    /// Jump five seconds ahead, not past the end of the track.
    pub fn seek_forward(&self) -> (r: AudioCommand)
        ensures
            r == AudioCommand::Seek(
                if self.progress_ms + SEEK_STEP_MS <= self.duration_ms {
                    (self.progress_ms + SEEK_STEP_MS) as u64
                } else {
                    self.duration_ms
                },
            ),
    {
        if self.duration_ms >= SEEK_STEP_MS && self.progress_ms <= self.duration_ms - SEEK_STEP_MS {
            AudioCommand::Seek(self.progress_ms + SEEK_STEP_MS)
        } else {
            AudioCommand::Seek(self.duration_ms)
        }
    }

    /// Jump five seconds back, not before the start.
    pub fn seek_backward(&self) -> (r: AudioCommand)
        ensures
            r == AudioCommand::Seek(
                if self.progress_ms >= SEEK_STEP_MS {
                    (self.progress_ms - SEEK_STEP_MS) as u64
                } else {
                    0
                },
            ),
    {
        if self.progress_ms >= SEEK_STEP_MS {
            AudioCommand::Seek(self.progress_ms - SEEK_STEP_MS)
        } else {
            AudioCommand::Seek(0)
        }
    }

    /// One volume step up, never past full volume.
    pub fn volume_up(&mut self) -> (r: AudioCommand)
        requires
            old(self).wf(),
        ensures
            final(self).wf(),
            *final(self) == (App { volume: volume_raised(old(self).volume), ..*old(self) }),
            r == AudioCommand::SetVolume(volume_raised(old(self).volume)),
            final(self).volume <= MAX_VOLUME,
    {
        self.volume = if self.volume >= MAX_VOLUME - VOLUME_STEP {
            MAX_VOLUME
        } else {
            self.volume + VOLUME_STEP
        };
        AudioCommand::SetVolume(self.volume)
    }

    /// One volume step down, never below silence nor above full volume.
    pub fn volume_down(&mut self) -> (r: AudioCommand)
        requires
            old(self).wf(),
        ensures
            final(self).wf(),
            *final(self) == (App { volume: volume_lowered(old(self).volume), ..*old(self) }),
            r == AudioCommand::SetVolume(volume_lowered(old(self).volume)),
            final(self).volume <= MAX_VOLUME,
    {
        self.volume = if self.volume <= VOLUME_STEP {
            0
        } else if self.volume - VOLUME_STEP >= MAX_VOLUME {
            MAX_VOLUME
        } else {
            self.volume - VOLUME_STEP
        };
        AudioCommand::SetVolume(self.volume)
    }

    /// Take a volume chosen elsewhere (the remote control), as given.
    pub fn set_volume(&mut self, volume: u32) -> (r: AudioCommand)
        requires
            old(self).wf(),
        ensures
            final(self).wf(),
            *final(self) == (App { volume, ..*old(self) }),
            r == AudioCommand::SetVolume(volume),
    {
        self.volume = volume;
        AudioCommand::SetVolume(volume)
    }

    /// Turn shuffle on or off; turning it on draws a fresh order.
    pub fn toggle_shuffle(&mut self)
        requires
            old(self).wf(),
        ensures
            final(self).wf(),
            *final(self) == (App {
                shuffle: !old(self).shuffle,
                shuffle_order: final(self).shuffle_order,
                ..*old(self)
            }),
            !old(self).shuffle ==> is_permutation(
                final(self).shuffle_order@,
                old(self).library@.len() as int,
            ),
            old(self).shuffle ==> final(self).shuffle_order == old(self).shuffle_order,
    {
        self.shuffle = !self.shuffle;
        if self.shuffle {
            self.regenerate_shuffle();
        }
    }

    pub fn cycle_repeat(&mut self)
        requires
            old(self).wf(),
        ensures
            final(self).wf(),
            *final(self) == (App { repeat: final(self).repeat, ..*old(self) }),
            old(self).repeat == RepeatMode::Off ==> final(self).repeat == RepeatMode::All,
            old(self).repeat == RepeatMode::All ==> final(self).repeat == RepeatMode::One,
            old(self).repeat == RepeatMode::One ==> final(self).repeat == RepeatMode::Off,
    {
        self.repeat = self.repeat.cycle();
    }

    pub fn move_selection_up(&mut self)
        requires
            old(self).wf(),
        ensures
            final(self).wf(),
            *final(self) == (App {
                selected_index: if old(self).selected_index > 0 {
                    (old(self).selected_index - 1) as usize
                } else {
                    0
                },
                ..*old(self)
            }),
    {
        if self.selected_index > 0 {
            self.selected_index = self.selected_index - 1;
        }
    }

    pub fn move_selection_down(&mut self)
        requires
            old(self).wf(),
        ensures
            final(self).wf(),
            *final(self) == (App {
                selected_index: if old(self).selected_index + 1 < old(self).filtered_indices@.len() {
                    (old(self).selected_index + 1) as usize
                } else {
                    old(self).selected_index
                },
                ..*old(self)
            }),
    {
        let n = self.filtered_indices.len();
        if n > 0 && self.selected_index < n - 1 {
            self.selected_index = self.selected_index + 1;
        }
    }

    /// Recompute the list for the current query and keep the highlight in it.
    fn update_filter(&mut self)
        requires
            old(self).wf(),
        ensures
            final(self).wf(),
            final(self).filtered_indices@ == filter_for(old(self).library@, old(self).search_query@),
            *final(self) == (App {
                filtered_indices: final(self).filtered_indices,
                selected_index: clamped_selection(
                    old(self).selected_index,
                    final(self).filtered_indices@.len(),
                ),
                ..*old(self)
            }),
    {
        let n = self.library.len();
        if self.search_query.as_str().is_empty() {
            self.filtered_indices = index_range(n);
        } else {
            let query = lowercase(self.search_query.as_str());
            let mut found: Vec<usize> = Vec::new();
            let mut i: usize = 0;
            while i < n
                invariant
                    n == self.library@.len(),
                    i <= n,
                    query@ == lower_of(self.search_query@),
                    found@ == matching_indices(self.library@, query@, i as nat),
                    forall|k: int| 0 <= k < found@.len() ==> #[trigger] found@[k] < i,
                decreases n - i,
            {
                let title = lowercase(self.library[i].title.as_str());
                let artist = lowercase(self.library[i].artist.as_str());
                if matches_folded(query.as_str(), title.as_str(), artist.as_str()) {
                    found.push(i);
                }
                i = i + 1;
            }
            self.filtered_indices = found;
        }
        if self.selected_index >= self.filtered_indices.len() {
            self.selected_index = if self.filtered_indices.len() == 0 {
                0
            } else {
                self.filtered_indices.len() - 1
            };
        }
    }

    /// Enter or leave search; leaving clears the query and lists every track.
    pub fn toggle_search(&mut self)
        requires
            old(self).wf(),
        ensures
            final(self).wf(),
            final(self).search_mode == !old(self).search_mode,
            old(self).search_mode ==> {
                &&& final(self).search_query@.len() == 0
                &&& final(self).filtered_indices@ == identity_order(old(self).library@.len())
                &&& *final(self) == (App {
                    search_mode: false,
                    search_query: final(self).search_query,
                    filtered_indices: final(self).filtered_indices,
                    selected_index: clamped_selection(old(self).selected_index, old(self).library@.len()),
                    ..*old(self)
                })
            },
            !old(self).search_mode ==> *final(self) == (App { search_mode: true, ..*old(self) }),
    {
        self.search_mode = !self.search_mode;
        if !self.search_mode {
            self.search_query = String::new();
            self.update_filter();
        }
    }

    /// Add a character to the query and filter again.
    pub fn search_input(&mut self, c: char)
        requires
            old(self).wf(),
        ensures
            final(self).wf(),
            final(self).search_query@ == old(self).search_query@.push(c),
            final(self).filtered_indices@ == filter_for(old(self).library@, final(self).search_query@),
            *final(self) == (App {
                search_query: final(self).search_query,
                filtered_indices: final(self).filtered_indices,
                selected_index: clamped_selection(
                    old(self).selected_index,
                    final(self).filtered_indices@.len(),
                ),
                ..*old(self)
            }),
    {
        push_char(&mut self.search_query, c);
        self.update_filter();
    }

    /// Remove the last character of the query, if any, and filter again.
    pub fn search_backspace(&mut self)
        requires
            old(self).wf(),
        ensures
            final(self).wf(),
            final(self).search_query@ == if old(self).search_query@.len() == 0 {
                old(self).search_query@
            } else {
                old(self).search_query@.drop_last()
            },
            final(self).filtered_indices@ == filter_for(old(self).library@, final(self).search_query@),
            *final(self) == (App {
                search_query: final(self).search_query,
                filtered_indices: final(self).filtered_indices,
                selected_index: clamped_selection(
                    old(self).selected_index,
                    final(self).filtered_indices@.len(),
                ),
                ..*old(self)
            }),
    {
        let _ = pop_char(&mut self.search_query);
        self.update_filter();
    }

    /// Take in one event from the engine: a known duration replaces the
    /// track's, progress is taken as reported, the end of a track leads to
    /// the next one (see [`App::handle_track_finished`]), and an error
    /// replaces the previous message.
    pub fn on_audio_event(&mut self, event: AudioEvent) -> (r: Option<AudioCommand>)
        requires
            old(self).wf(),
        ensures
            final(self).wf(),
            event is Playing ==> (r is None) && *final(self) == (App {
                duration_ms: if event->duration_ms > 0 {
                    event->duration_ms
                } else {
                    old(self).duration_ms
                },
                ..*old(self)
            }),
            event is Progress ==> (r is None) && *final(self) == (App {
                progress_ms: event->Progress_0,
                ..*old(self)
            }),
            event is Error ==> (r is None) && *final(self) == (App {
                error_message: Some(event->Error_0),
                ..*old(self)
            }),
            event is TrackFinished && old(self).repeat == RepeatMode::One
                && old(self).playing_index is Some ==> {
                let i = old(self).playing_index->Some_0;
                *final(self) == started(*old(self), i) && r == Some(play_command(*old(self), i))
            },
            event is TrackFinished && old(self).repeat != RepeatMode::One && old(self).shuffle
                && old(self).library@.len() > 0 ==> shuffled_next(*old(self), *final(self)) && r
                == Some(play_command(*old(self), final(self).playing_index->Some_0)),
            event is TrackFinished && (old(self).library@.len() == 0 || (old(self).repeat
                == RepeatMode::One && old(self).playing_index is None)) ==> *final(self) == *old(self)
                && (r is None),
            event is TrackFinished && old(self).repeat != RepeatMode::One && old(self).library@.len()
                > 0 && !old(self).shuffle ==> match sequential_next(
                old(self).playing_index,
                old(self).library@.len() as int,
                old(self).repeat,
            ) {
                None => *final(self) == *old(self) && (r is None),
                Some(i) => *final(self) == started(*old(self), i) && r == Some(
                    play_command(*old(self), i),
                ),
            },
    {
        match event {
            AudioEvent::Playing { duration_ms } => {
                if duration_ms > 0 {
                    self.duration_ms = duration_ms;
                }
                None
            },
            AudioEvent::Progress(pos) => {
                self.progress_ms = pos;
                None
            },
            AudioEvent::TrackFinished => self.handle_track_finished(),
            AudioEvent::Error(msg) => {
                self.error_message = Some(msg);
                None
            },
        }
    }

    /// One display tick: the latest chunk of samples goes to the visualizer
    /// (`true` asks for a spectrum of its window); with no chunk, the display
    /// decays.
    pub fn visual_tick(&mut self, latest: Option<&[i32]>) -> (needs_spectrum: bool)
        requires
            old(self).wf(),
        ensures
            final(self).wf(),
            latest is None ==> !needs_spectrum,
            latest is Some ==> needs_spectrum == (old(self).visualizer.mode
                == crate::modes::VisualizerMode::FrequencyBars),
            *final(self) == (App { visualizer: final(self).visualizer, ..*old(self) }),
            latest is None ==> crate::visualizer::decay_step(
                old(self).visualizer,
                final(self).visualizer,
            ),
            latest is Some && old(self).visualizer.mode
                == crate::modes::VisualizerMode::FrequencyBars ==> final(self).visualizer.history@
                == crate::visualizer::window_after(old(self).visualizer.history@, latest->Some_0@),
            latest is Some && old(self).visualizer.mode == crate::modes::VisualizerMode::Waveform
                ==> final(self).visualizer.waveform@ == crate::visualizer::waveform_of(
                latest->Some_0@,
            ),
            latest is Some ==> final(self).visualizer.bars == old(self).visualizer.bars
                && final(self).visualizer.peak_bars == old(self).visualizer.peak_bars
                && final(self).visualizer.mode == old(self).visualizer.mode,
    {
        match latest {
            Some(samples) => self.visualizer.process_samples(samples),
            None => {
                self.visualizer.decay();
                false
            },
        }
    }

    /// The track that is playing, if any.
    pub fn current_track(&self) -> (r: Option<&Track>)
        requires
            self.wf(),
        ensures
            self.playing_index is None ==> (r is None),
            self.playing_index is Some ==> r == Some(
                &self.library@[self.playing_index->Some_0 as int],
            ),
    {
        match self.playing_index {
            Some(i) => Some(&self.library[i]),
            None => None,
        }
    }

    pub fn cycle_theme(&mut self)
        requires
            old(self).wf(),
        ensures
            final(self).wf(),
            *final(self) == (App { theme: final(self).theme, ..*old(self) }),
            old(self).theme == Theme::Default ==> final(self).theme == Theme::Dracula,
            old(self).theme == Theme::Dracula ==> final(self).theme == Theme::Nord,
            old(self).theme == Theme::Nord ==> final(self).theme == Theme::Gruvbox,
            old(self).theme == Theme::Gruvbox ==> final(self).theme == Theme::Neon,
            old(self).theme == Theme::Neon ==> final(self).theme == Theme::Default,
    {
        self.theme = self.theme.cycle();
    }

    pub fn toggle_mini_mode(&mut self)
        requires
            old(self).wf(),
        ensures
            final(self).wf(),
            *final(self) == (App { mini_mode: !old(self).mini_mode, ..*old(self) }),
    {
        self.mini_mode = !self.mini_mode;
    }

    /// One rung faster on the speed ladder.
    pub fn speed_up(&mut self) -> (r: AudioCommand)
        requires
            old(self).wf(),
        ensures
            final(self).wf(),
            *final(self) == (App { speed: final(self).speed, ..*old(self) }),
            crate::modes::speed_rank(final(self).speed) == if crate::modes::speed_rank(
                old(self).speed,
            ) == 5 {
                5
            } else {
                crate::modes::speed_rank(old(self).speed) + 1
            },
            r == AudioCommand::SetSpeed(speed_percent(final(self).speed)),
    {
        self.speed = self.speed.cycle_up();
        AudioCommand::SetSpeed(self.speed.percent())
    }

    /// One rung slower on the speed ladder.
    pub fn speed_down(&mut self) -> (r: AudioCommand)
        requires
            old(self).wf(),
        ensures
            final(self).wf(),
            *final(self) == (App { speed: final(self).speed, ..*old(self) }),
            crate::modes::speed_rank(final(self).speed) == if crate::modes::speed_rank(
                old(self).speed,
            ) == 0 {
                0
            } else {
                crate::modes::speed_rank(old(self).speed) - 1
            },
            r == AudioCommand::SetSpeed(speed_percent(final(self).speed)),
    {
        self.speed = self.speed.cycle_down();
        AudioCommand::SetSpeed(self.speed.percent())
    }

    /// Arm, lengthen or cancel the sleep timer, along the ladder off, 15, 30,
    /// 45, 60 minutes, off. A new timer ends that many minutes after `now_ms`,
    /// fades over its last minute, and remembers the volume now; cancelling a
    /// timer restores that volume.
    pub fn cycle_sleep_timer(&mut self, now_ms: u64) -> (r: Option<AudioCommand>)
        requires
            old(self).wf(),
        ensures
            final(self).wf(),
            next_timer_minutes(old(self).sleep_timer) is Some ==> {
                let mins = next_timer_minutes(old(self).sleep_timer)->Some_0;
                let end = sat_add(now_ms, (mins * 60_000) as u64);
                &&& (r is None)
                &&& *final(self) == (App {
                    sleep_timer: Some(
                        SleepTimer {
                            end_ms: end,
                            fade_start_ms: (end - FADE_MS) as u64,
                            original_volume: old(self).volume,
                            duration_mins: mins,
                        },
                    ),
                    ..*old(self)
                })
            },
            next_timer_minutes(old(self).sleep_timer) is None ==> {
                let v = old(self).sleep_timer->Some_0.original_volume;
                &&& r == Some(AudioCommand::SetVolume(v))
                &&& *final(self) == (App { sleep_timer: None, volume: v, ..*old(self) })
            },
    {
        let new_duration: Option<u32> = match self.sleep_timer {
            None => Some(15),
            Some(t) => {
                if t.duration_mins == 15 {
                    Some(30)
                } else if t.duration_mins == 30 {
                    Some(45)
                } else if t.duration_mins == 45 {
                    Some(60)
                } else {
                    None
                }
            },
        };
        match new_duration {
            Some(mins) => {
                let total: u64 = mins as u64 * 60_000;
                let end: u64 = if now_ms > u64::MAX - total {
                    u64::MAX
                } else {
                    now_ms + total
                };
                self.sleep_timer = Some(
                    SleepTimer {
                        end_ms: end,
                        fade_start_ms: end - FADE_MS,
                        original_volume: self.volume,
                        duration_mins: mins,
                    },
                );
                None
            },
            None => {
                let v = match self.sleep_timer {
                    Some(t) => t.original_volume,
                    None => self.volume,
                };
                self.volume = v;
                self.sleep_timer = None;
                Some(AudioCommand::SetVolume(v))
            },
        }
    }

    /// Advance the sleep timer to `now_ms`. At or after its end: the fade
    /// reaches zero volume, then playback pauses, the original volume is
    /// restored and the timer cleared. During the fade: set
    /// the faded volume (see [`faded_volume`]). Before the fade, or with no
    /// timer: nothing.
    pub fn update_sleep_timer(&mut self, now_ms: u64) -> (r: Vec<AudioCommand>)
        requires
            old(self).wf(),
        ensures
            final(self).wf(),
            old(self).sleep_timer is None ==> *final(self) == *old(self) && r@.len() == 0,
            old(self).sleep_timer is Some ==> {
                let t = old(self).sleep_timer->Some_0;
                &&& now_ms >= t.end_ms ==> {
                    &&& r@ == seq![
                        AudioCommand::SetVolume(0),
                        AudioCommand::Pause,
                        AudioCommand::SetVolume(t.original_volume),
                    ]
                    &&& *final(self) == (App {
                        is_playing: false,
                        volume: t.original_volume,
                        sleep_timer: None,
                        ..*old(self)
                    })
                }
                &&& t.fade_start_ms <= now_ms < t.end_ms ==> {
                    &&& r@ == seq![AudioCommand::SetVolume(faded_volume(t, now_ms) as u32)]
                    &&& *final(self) == (App {
                        volume: faded_volume(t, now_ms) as u32,
                        ..*old(self)
                    })
                }
                &&& now_ms < t.fade_start_ms ==> *final(self) == *old(self) && r@.len() == 0
            },
    {
        let mut out: Vec<AudioCommand> = Vec::new();
        if let Some(t) = self.sleep_timer {
            if now_ms >= t.end_ms {
                out.push(AudioCommand::SetVolume(0));
                out.push(AudioCommand::Pause);
                self.is_playing = false;
                self.volume = t.original_volume;
                out.push(AudioCommand::SetVolume(self.volume));
                self.sleep_timer = None;
            } else if now_ms >= t.fade_start_ms {
                let remaining: u64 = t.end_ms - now_ms;
                assert(t.original_volume * remaining / (FADE_MS as int) <= t.original_volume)
                    by (nonlinear_arith)
                    requires
                        0 <= remaining <= FADE_MS,
                        0 <= t.original_volume,
                ;
                let faded: u32 = ((t.original_volume as u64 * remaining) / FADE_MS) as u32;
                self.volume = faded;
                out.push(AudioCommand::SetVolume(faded));
            }
        }
        out
    }

    /// Time left on the sleep timer at `now_ms`, if one is armed.
    pub fn sleep_timer_remaining(&self, now_ms: u64) -> (r: Option<u64>)
        ensures
            self.sleep_timer is None ==> (r is None),
            self.sleep_timer is Some ==> r == Some(
                if now_ms < self.sleep_timer->Some_0.end_ms {
                    (self.sleep_timer->Some_0.end_ms - now_ms) as u64
                } else {
                    0
                },
            ),
    {
        match self.sleep_timer {
            Some(t) => {
                if now_ms < t.end_ms {
                    Some(t.end_ms - now_ms)
                } else {
                    Some(0)
                }
            },
            None => None,
        }
    }

    /// A snapshot of the playback state for the remote control.
    pub fn playback_state(&self) -> (r: PlaybackState)
        requires
            self.wf(),
        ensures
            self.playing_index is None ==> (r.track_title is None) && (r.track_artist is None) && (
            r.track_album is None),
            self.playing_index is Some ==> {
                let t = self.library@[self.playing_index->Some_0 as int];
                &&& r.track_title == Some(t.title)
                &&& r.track_artist == Some(t.artist)
                &&& r.track_album == Some(t.album)
            },
            r.progress_ms == self.progress_ms,
            r.duration_ms == self.duration_ms,
            r.is_playing == self.is_playing,
            r.volume == self.volume,
            r.shuffle == self.shuffle,
            self.repeat == RepeatMode::Off ==> r.repeat@ == "Off"@,
            self.repeat == RepeatMode::All ==> r.repeat@ == "All"@,
            self.repeat == RepeatMode::One ==> r.repeat@ == "One"@,
            r.theme@ == theme_name(self.theme),
            r.visualizer_mode@ == mode_label(self.visualizer.mode),
            r.visualizer_bars@ == self.visualizer.bars@,
    {
        let (title, artist, album) = match self.playing_index {
            Some(i) => {
                let t = &self.library[i];
                (Some(t.title.clone()), Some(t.artist.clone()), Some(t.album.clone()))
            },
            None => (None, None, None),
        };
        PlaybackState {
            track_title: title,
            track_artist: artist,
            track_album: album,
            progress_ms: self.progress_ms,
            duration_ms: self.duration_ms,
            is_playing: self.is_playing,
            volume: self.volume,
            shuffle: self.shuffle,
            repeat: self.repeat.label().to_owned(),
            theme: self.theme.name().to_owned(),
            visualizer_mode: self.visualizer.mode.label().to_owned(),
            visualizer_bars: self.visualizer.bars.clone(),
        }
    }
}

/// With repeat off on a list of `n` tracks, every step forward or back from a
/// track of the list lands on a track of the list, and a step forward from
/// the last track goes nowhere.
pub proof fn lemma_repeat_off_stays_in_list(current: Option<usize>, n: int)
    requires
        0 < n <= usize::MAX,
        current is Some ==> current->Some_0 < n,
    ensures
        sequential_next(current, n, RepeatMode::Off) is Some ==> sequential_next(
            current,
            n,
            RepeatMode::Off,
        )->Some_0 < n,
        previous_index(current, n, RepeatMode::Off) < n,
        current == Some((n - 1) as usize) ==> sequential_next(current, n, RepeatMode::Off) is None,
{
}

/// With repeat-all on a list of `n` tracks, a step forward from the last
/// track wraps to the first, and a step back from the first to the last.
pub proof fn lemma_repeat_all_wraps(n: int)
    requires
        0 < n <= usize::MAX,
    ensures
        sequential_next(Some((n - 1) as usize), n, RepeatMode::All) == Some(0usize),
        previous_index(Some(0usize), n, RepeatMode::All) == (n - 1) as usize,
{
}

/// The sleep timer's fade starts at the original volume and reaches zero
/// at the end time, never rising in between; at the end the timer sets zero
/// volume, pauses, restores the original volume and clears itself (see
/// [`App::update_sleep_timer`]).
pub proof fn lemma_sleep_fade_endpoints(t: SleepTimer, a: u64, b: u64)
    requires
        timer_wf(t),
        t.fade_start_ms <= a <= b <= t.end_ms,
    ensures
        faded_volume(t, t.fade_start_ms) == t.original_volume,
        faded_volume(t, t.end_ms) == 0,
        0 <= faded_volume(t, b) <= faded_volume(t, a) <= t.original_volume,
{
    let v = t.original_volume as int;
    assert(t.end_ms - t.fade_start_ms == 60000);
    assert(v * 60000 / 60000 == v) by (nonlinear_arith);
    assert(v * 0 / 60000 == 0) by (nonlinear_arith);
    assert(0 <= v * (t.end_ms - b) / 60000 <= v * (t.end_ms - a) / 60000 <= v) by (nonlinear_arith)
        requires
            0 <= t.end_ms - b <= t.end_ms - a <= 60000,
            0 <= v,
    ;
}

} // verus!
