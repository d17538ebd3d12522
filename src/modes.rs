//! The small enumerated settings of the player and how they cycle.
use vstd::prelude::*;

verus! {

/// What happens when the end of the playlist is reached.
#[derive(Debug, Clone, Copy, PartialEq, Eq, Structural)]
pub enum RepeatMode {
    Off,
    All,
    One,
}

impl RepeatMode {
    /// Off, then All, then One, then Off again.
    pub fn cycle(self) -> (r: Self)
        ensures
            self == RepeatMode::Off ==> r == RepeatMode::All,
            self == RepeatMode::All ==> r == RepeatMode::One,
            self == RepeatMode::One ==> r == RepeatMode::Off,
    {
        match self {
            RepeatMode::Off => RepeatMode::All,
            RepeatMode::All => RepeatMode::One,
            RepeatMode::One => RepeatMode::Off,
        }
    }

    pub fn label(self) -> (r: &'static str)
        ensures
            self == RepeatMode::Off ==> r@ == "Off"@,
            self == RepeatMode::All ==> r@ == "All"@,
            self == RepeatMode::One ==> r@ == "One"@,
    {
        match self {
            RepeatMode::Off => "Off",
            RepeatMode::All => "All",
            RepeatMode::One => "One",
        }
    }
}

/// Colour scheme of the interface.
#[derive(Debug, Clone, Copy, PartialEq, Eq, Structural)]
pub enum Theme {
    Default,
    Dracula,
    Nord,
    Gruvbox,
    Neon,
}

impl Theme {
    /// Default, Dracula, Nord, Gruvbox, Neon, and back to Default.
    pub fn cycle(self) -> (r: Self)
        ensures
            self == Theme::Default ==> r == Theme::Dracula,
            self == Theme::Dracula ==> r == Theme::Nord,
            self == Theme::Nord ==> r == Theme::Gruvbox,
            self == Theme::Gruvbox ==> r == Theme::Neon,
            self == Theme::Neon ==> r == Theme::Default,
    {
        match self {
            Theme::Default => Theme::Dracula,
            Theme::Dracula => Theme::Nord,
            Theme::Nord => Theme::Gruvbox,
            Theme::Gruvbox => Theme::Neon,
            Theme::Neon => Theme::Default,
        }
    }

    pub fn name(self) -> (r: &'static str)
        ensures
            self == Theme::Default ==> r@ == "Default"@,
            self == Theme::Dracula ==> r@ == "Dracula"@,
            self == Theme::Nord ==> r@ == "Nord"@,
            self == Theme::Gruvbox ==> r@ == "Gruvbox"@,
            self == Theme::Neon ==> r@ == "Neon"@,
    {
        match self {
            Theme::Default => "Default",
            Theme::Dracula => "Dracula",
            Theme::Nord => "Nord",
            Theme::Gruvbox => "Gruvbox",
            Theme::Neon => "Neon",
        }
    }
}

impl Default for Theme {
    fn default() -> (r: Self)
        ensures
            r == Theme::Default,
    {
        Theme::Default
    }
}

/// The fixed ladder of playback speeds, slowest first.
#[derive(Debug, Clone, Copy, PartialEq, Eq, Structural)]
pub enum PlaybackSpeed {
    Slow50,
    Slow75,
    Normal,
    Fast125,
    Fast150,
    Fast200,
}

/// The speed multiplier of each rung, in percent.
pub open spec fn speed_percent(s: PlaybackSpeed) -> u32 {
    match s {
        PlaybackSpeed::Slow50 => 50,
        PlaybackSpeed::Slow75 => 75,
        PlaybackSpeed::Normal => 100,
        PlaybackSpeed::Fast125 => 125,
        PlaybackSpeed::Fast150 => 150,
        PlaybackSpeed::Fast200 => 200,
    }
}

/// Position of a rung on the ladder, from 0 (slowest) to 5 (fastest).
pub open spec fn speed_rank(s: PlaybackSpeed) -> int {
    match s {
        PlaybackSpeed::Slow50 => 0,
        PlaybackSpeed::Slow75 => 1,
        PlaybackSpeed::Normal => 2,
        PlaybackSpeed::Fast125 => 3,
        PlaybackSpeed::Fast150 => 4,
        PlaybackSpeed::Fast200 => 5,
    }
}

impl PlaybackSpeed {
    /// One rung faster; the fastest rung stays where it is.
    pub fn cycle_up(self) -> (r: Self)
        ensures
            speed_rank(r) == if speed_rank(self) == 5 { 5 } else { speed_rank(self) + 1 },
    {
        match self {
            PlaybackSpeed::Slow50 => PlaybackSpeed::Slow75,
            PlaybackSpeed::Slow75 => PlaybackSpeed::Normal,
            PlaybackSpeed::Normal => PlaybackSpeed::Fast125,
            PlaybackSpeed::Fast125 => PlaybackSpeed::Fast150,
            PlaybackSpeed::Fast150 => PlaybackSpeed::Fast200,
            PlaybackSpeed::Fast200 => PlaybackSpeed::Fast200,
        }
    }

    /// One rung slower; the slowest rung stays where it is.
    pub fn cycle_down(self) -> (r: Self)
        ensures
            speed_rank(r) == if speed_rank(self) == 0 { 0 } else { speed_rank(self) - 1 },
    {
        match self {
            PlaybackSpeed::Slow50 => PlaybackSpeed::Slow50,
            PlaybackSpeed::Slow75 => PlaybackSpeed::Slow50,
            PlaybackSpeed::Normal => PlaybackSpeed::Slow75,
            PlaybackSpeed::Fast125 => PlaybackSpeed::Normal,
            PlaybackSpeed::Fast150 => PlaybackSpeed::Fast125,
            PlaybackSpeed::Fast200 => PlaybackSpeed::Fast150,
        }
    }

    /// The multiplier in percent: 50 for half speed, 200 for double.
    pub fn percent(self) -> (r: u32)
        ensures
            r == speed_percent(self),
    {
        match self {
            PlaybackSpeed::Slow50 => 50,
            PlaybackSpeed::Slow75 => 75,
            PlaybackSpeed::Normal => 100,
            PlaybackSpeed::Fast125 => 125,
            PlaybackSpeed::Fast150 => 150,
            PlaybackSpeed::Fast200 => 200,
        }
    }

    pub fn label(self) -> (r: &'static str)
        ensures
            self == PlaybackSpeed::Slow50 ==> r@ == "0.5x"@,
            self == PlaybackSpeed::Slow75 ==> r@ == "0.75x"@,
            self == PlaybackSpeed::Normal ==> r@ == "1x"@,
            self == PlaybackSpeed::Fast125 ==> r@ == "1.25x"@,
            self == PlaybackSpeed::Fast150 ==> r@ == "1.5x"@,
            self == PlaybackSpeed::Fast200 ==> r@ == "2x"@,
    {
        match self {
            PlaybackSpeed::Slow50 => "0.5x",
            PlaybackSpeed::Slow75 => "0.75x",
            PlaybackSpeed::Normal => "1x",
            PlaybackSpeed::Fast125 => "1.25x",
            PlaybackSpeed::Fast150 => "1.5x",
            PlaybackSpeed::Fast200 => "2x",
        }
    }
}

/// What the visualizer shows.
#[derive(Debug, Clone, Copy, PartialEq, Eq, Structural)]
pub enum VisualizerMode {
    FrequencyBars,
    Waveform,
    Off,
}

impl VisualizerMode {
    /// FrequencyBars, then Waveform, then Off, then FrequencyBars again.
    pub fn cycle(self) -> (r: Self)
        ensures
            self == VisualizerMode::FrequencyBars ==> r == VisualizerMode::Waveform,
            self == VisualizerMode::Waveform ==> r == VisualizerMode::Off,
            self == VisualizerMode::Off ==> r == VisualizerMode::FrequencyBars,
    {
        match self {
            VisualizerMode::FrequencyBars => VisualizerMode::Waveform,
            VisualizerMode::Waveform => VisualizerMode::Off,
            VisualizerMode::Off => VisualizerMode::FrequencyBars,
        }
    }

    pub fn label(self) -> (r: &'static str)
        ensures
            self == VisualizerMode::FrequencyBars ==> r@ == "Spectrum"@,
            self == VisualizerMode::Waveform ==> r@ == "Waveform"@,
            self == VisualizerMode::Off ==> r@ == "Off"@,
    {
        match self {
            VisualizerMode::FrequencyBars => "Spectrum",
            VisualizerMode::Waveform => "Waveform",
            VisualizerMode::Off => "Off",
        }
    }
}

} // verus!
