//! Display state of the visualizer: smoothed frequency bars with peak hold,
//! a waveform, and their decay when no audio arrives.
//!
//! Values are fixed-point: [`UNIT`] stands for 1.0. Samples are signed in the
//! same scale. The transform from the analysis window to bin magnitudes is
//! done by the caller, which hands the magnitudes to
//! [`Visualizer::apply_spectrum`].
use vstd::prelude::*;
use vstd::arithmetic::power::lemma_pow_strictly_increases;
use vstd::arithmetic::power2::{pow2, lemma2_to64, lemma_pow2_unfold};
use crate::bands::{is_log_bin_start, log_bin_start, lemma_pow_base_increases};
use crate::modes::VisualizerMode;
use crate::sums::{div_trunc, mean_i32, mean_u32, mean_range_i32, mean_range_u32};

verus! {

/// Fixed-point 1.0.
pub const UNIT: u32 = 1_000_000;

/// Number of frequency bands.
pub const NUM_BANDS: usize = 64;

/// Length of the analysis window in samples.
pub const FFT_SIZE: usize = 2048;

/// Number of positive-frequency bins that the magnitudes cover.
pub const NUM_BINS: usize = 1024;

/// Number of waveform points.
pub const WAVEFORM_WIDTH: usize = 200;

/// Below this maximum (0.001) the bars are left unnormalized.
pub const NORMALIZE_FLOOR: u32 = 1000;

/// Weight of a new band value in the smoothing, in percent.
pub const SMOOTHING_PERCENT: u32 = 35;

/// What is kept of bars and waveform at each decay step, in percent.
pub const DECAY_PERCENT: u32 = 85;

/// What is kept of peak-hold values at each decay step, in percent.
pub const PEAK_DECAY_PERCENT: u32 = 92;

/// First bin of band `b`.
pub open spec fn band_lo(starts: Seq<usize>, b: int) -> int {
    starts[b] as int
}

/// One past the last bin of band `b`: the next band's start, kept within the
/// bins and at least one bin past this band's start.
pub open spec fn band_hi(starts: Seq<usize>, b: int) -> int {
    let next = if starts[b + 1] < NUM_BINS {
        starts[b + 1] as int
    } else {
        NUM_BINS as int
    };
    if next > starts[b] + 1 {
        next
    } else {
        starts[b] + 1
    }
}

/// Mean magnitude of the bins of band `b`.
pub open spec fn band_value(mags: Seq<u32>, starts: Seq<usize>, b: int) -> int {
    mean_u32(mags, band_lo(starts, b), band_hi(starts, b))
}

/// Exponential smoothing: 65% of the previous value and 35% of the new one.
pub open spec fn smooth(prev: int, new: int) -> int {
    (prev * (100 - SMOOTHING_PERCENT) + new * SMOOTHING_PERCENT) / 100
}

pub open spec fn seq_max(s: Seq<u32>) -> int
    decreases s.len(),
{
    if s.len() == 0 {
        0
    } else if seq_max(s.drop_last()) >= s.last() {
        seq_max(s.drop_last())
    } else {
        s.last() as int
    }
}

/// A bar scaled by the largest bar, unless that is below the floor.
pub open spec fn normalize(v: int, max: int) -> int {
    if max >= NORMALIZE_FLOOR {
        let q = v * UNIT / max;
        if q < UNIT {
            q
        } else {
            UNIT as int
        }
    } else {
        v
    }
}

pub open spec fn max_of(a: int, b: int) -> int {
    if a >= b {
        a
    } else {
        b
    }
}

/// `v` times `percent`/100, rounded down.
pub open spec fn scaled(v: int, percent: int) -> int {
    v * percent / 100
}

/// The smoothed band values for new magnitudes.
pub open spec fn smoothed_bands(prev: Seq<u32>, mags: Seq<u32>, starts: Seq<usize>) -> Seq<u32> {
    Seq::new(NUM_BANDS as nat, |i: int| smooth(prev[i] as int, band_value(mags, starts, i)) as u32)
}

/// The bars shown for smoothed band values.
pub open spec fn normalized(sm: Seq<u32>) -> Seq<u32> {
    Seq::new(sm.len(), |i: int| normalize(sm[i] as int, seq_max(sm)) as u32)
}

/// Band starts that cut the bins into non-empty bands.
pub open spec fn valid_starts(starts: Seq<usize>) -> bool {
    &&& starts.len() == NUM_BANDS + 1
    &&& forall|b: int| 0 <= b < NUM_BANDS ==> 1 <= #[trigger] starts[b] < NUM_BINS
}

/// Every value scaled down by one decay step.
pub open spec fn decay_step(a: Visualizer, b: Visualizer) -> bool {
    &&& b.bars@ == scaled_all(a.bars@, DECAY_PERCENT as int)
    &&& b.left_bars@ == scaled_all(a.left_bars@, DECAY_PERCENT as int)
    &&& b.right_bars@ == scaled_all(a.right_bars@, DECAY_PERCENT as int)
    &&& b.peak_bars@ == scaled_all(a.peak_bars@, PEAK_DECAY_PERCENT as int)
    &&& b.waveform@ == Seq::new(
        a.waveform@.len(),
        |i: int| div_trunc(a.waveform@[i] * DECAY_PERCENT, 100) as i32,
    )
}

pub open spec fn scaled_all(s: Seq<u32>, percent: int) -> Seq<u32> {
    Seq::new(s.len(), |i: int| scaled(s[i] as int, percent) as u32)
}

/// The analysis window after a chunk: the last [`FFT_SIZE`] samples of all
/// that came so far, with zeros standing for samples before the first.
pub open spec fn window_after(history: Seq<i32>, chunk: Seq<i32>) -> Seq<i32> {
    (history + chunk).subrange(chunk.len() as int, chunk.len() + FFT_SIZE)
}

/// Waveform point `i`: the mean of its share of the chunk, 0 when the share
/// is empty.
pub open spec fn wave_point(s: Seq<i32>, i: int) -> int {
    let start = i * s.len() / (WAVEFORM_WIDTH as int);
    let end = (i + 1) * s.len() / (WAVEFORM_WIDTH as int);
    if end > start {
        mean_i32(s, start, end)
    } else {
        0
    }
}

pub open spec fn waveform_of(s: Seq<i32>) -> Seq<i32> {
    Seq::new(WAVEFORM_WIDTH as nat, |i: int| wave_point(s, i) as i32)
}

pub struct Visualizer {
    pub mode: VisualizerMode,
    /// Smoothed, normalized band values.
    pub bars: Vec<u32>,
    pub left_bars: Vec<u32>,
    pub right_bars: Vec<u32>,
    pub waveform: Vec<i32>,
    /// Per-band maximum, shrinking only in [`Visualizer::decay`].
    pub peak_bars: Vec<u32>,
    /// Smoothed band values before normalization.
    pub prev_bars: Vec<u32>,
    pub prev_left: Vec<u32>,
    pub prev_right: Vec<u32>,
    /// The last [`FFT_SIZE`] samples, oldest first.
    pub history: Vec<i32>,
    /// Where each band starts, and where the last one ends.
    pub band_starts: Vec<usize>,
}

impl Visualizer {
    pub open spec fn wf(&self) -> bool {
        &&& self.bars@.len() == NUM_BANDS
        &&& self.left_bars@.len() == NUM_BANDS
        &&& self.right_bars@.len() == NUM_BANDS
        &&& self.peak_bars@.len() == NUM_BANDS
        &&& self.prev_bars@.len() == NUM_BANDS
        &&& self.prev_left@.len() == NUM_BANDS
        &&& self.prev_right@.len() == NUM_BANDS
        &&& self.waveform@.len() == WAVEFORM_WIDTH
        &&& self.history@.len() == FFT_SIZE
        &&& self.band_starts@.len() == NUM_BANDS + 1
        &&& forall|b: int|
            0 <= b <= NUM_BANDS ==> is_log_bin_start(
                #[trigger] self.band_starts@[b] as int,
                b as nat,
                NUM_BANDS as nat,
                NUM_BINS as nat,
            )
        &&& valid_starts(self.band_starts@)
    }

    /// A visualizer showing frequency bars, with every value at zero.
    pub fn new() -> (r: Self)
        ensures
            r.wf(),
            r.mode == VisualizerMode::FrequencyBars,
            forall|i: int| 0 <= i < NUM_BANDS ==> r.bars@[i] == 0 && r.peak_bars@[i] == 0
                && r.prev_bars@[i] == 0 && r.left_bars@[i] == 0 && r.right_bars@[i] == 0,
            forall|i: int| 0 <= i < WAVEFORM_WIDTH ==> r.waveform@[i] == 0,
            forall|i: int| 0 <= i < FFT_SIZE ==> r.history@[i] == 0,
    {
        let mut band_starts: Vec<usize> = Vec::new();
        let mut b: usize = 0;
        while b <= NUM_BANDS
            invariant
                b <= NUM_BANDS + 1,
                band_starts@.len() == b,
                forall|k: int|
                    0 <= k < b ==> is_log_bin_start(
                        #[trigger] band_starts@[k] as int,
                        k as nat,
                        NUM_BANDS as nat,
                        NUM_BINS as nat,
                    ),
                forall|k: int| 0 <= k < b && k < NUM_BANDS ==> 1 <= #[trigger] band_starts@[k] < NUM_BINS,
            decreases NUM_BANDS + 1 - b,
        {
            let s = log_bin_start(b, NUM_BANDS, NUM_BINS);
            proof {
                if 0 < b < NUM_BANDS {
                    lemma_bin_start_below(s as int, b as nat);
                }
            }
            band_starts.push(s);
            b = b + 1;
        }
        Visualizer {
            mode: VisualizerMode::FrequencyBars,
            bars: zeros_u32(NUM_BANDS),
            left_bars: zeros_u32(NUM_BANDS),
            right_bars: zeros_u32(NUM_BANDS),
            waveform: zeros_i32(WAVEFORM_WIDTH),
            peak_bars: zeros_u32(NUM_BANDS),
            prev_bars: zeros_u32(NUM_BANDS),
            prev_left: zeros_u32(NUM_BANDS),
            prev_right: zeros_u32(NUM_BANDS),
            history: zeros_i32(FFT_SIZE),
            band_starts,
        }
    }
}

impl Visualizer {
    /// The samples the spectrum is computed from, oldest first.
    pub fn analysis_window(&self) -> (r: &[i32])
        ensures
            r@ == self.history@,
    {
        self.history.as_slice()
    }

    /// Take in a chunk of mono samples. Showing frequency bars, the chunk
    /// joins the analysis window and `true` asks the caller for a spectrum of
    /// it; showing the waveform, the waveform is recomputed from the chunk;
    /// switched off, nothing changes.
    pub fn process_samples(&mut self, samples: &[i32]) -> (needs_spectrum: bool)
        requires
            old(self).wf(),
        ensures
            final(self).wf(),
            final(self).mode == old(self).mode,
            final(self).bars == old(self).bars,
            final(self).peak_bars == old(self).peak_bars,
            final(self).prev_bars == old(self).prev_bars,
            final(self).left_bars == old(self).left_bars,
            final(self).right_bars == old(self).right_bars,
            final(self).prev_left == old(self).prev_left,
            final(self).prev_right == old(self).prev_right,
            final(self).band_starts == old(self).band_starts,
            needs_spectrum == (old(self).mode == VisualizerMode::FrequencyBars),
            old(self).mode == VisualizerMode::FrequencyBars ==> {
                &&& final(self).history@ == window_after(old(self).history@, samples@)
                &&& final(self).waveform == old(self).waveform
            },
            old(self).mode == VisualizerMode::Waveform ==> {
                &&& final(self).waveform@ == waveform_of(samples@)
                &&& final(self).history == old(self).history
            },
            old(self).mode == VisualizerMode::Off ==> {
                &&& final(self).waveform == old(self).waveform
                &&& final(self).history == old(self).history
            },
    {
        match self.mode {
            VisualizerMode::FrequencyBars => {
                self.push_history(samples);
                true
            },
            VisualizerMode::Waveform => {
                self.process_waveform(samples);
                false
            },
            VisualizerMode::Off => false,
        }
    }

    fn push_history(&mut self, samples: &[i32])
        requires
            old(self).history@.len() == FFT_SIZE,
        ensures
            final(self).history@ == window_after(old(self).history@, samples@),
            final(self).mode == old(self).mode,
            final(self).bars == old(self).bars,
            final(self).peak_bars == old(self).peak_bars,
            final(self).prev_bars == old(self).prev_bars,
            final(self).left_bars == old(self).left_bars,
            final(self).right_bars == old(self).right_bars,
            final(self).prev_left == old(self).prev_left,
            final(self).prev_right == old(self).prev_right,
            final(self).band_starts == old(self).band_starts,
            final(self).waveform == old(self).waveform,
    {
        let c = samples.len();
        let ghost all = self.history@ + samples@;
        let mut next: Vec<i32> = Vec::new();
        let mut i: usize = 0;
        while i < FFT_SIZE
            invariant
                i <= FFT_SIZE,
                c == samples@.len(),
                self.history@.len() == FFT_SIZE,
                all == self.history@ + samples@,
                next@.len() == i,
                forall|k: int| 0 <= k < i ==> #[trigger] next@[k] == all[c + k],
            decreases FFT_SIZE - i,
        {
            let x = if c >= FFT_SIZE {
                samples[c - FFT_SIZE + i]
            } else if i < FFT_SIZE - c {
                self.history[c + i]
            } else {
                samples[i - (FFT_SIZE - c)]
            };
            next.push(x);
            i = i + 1;
        }
        assert(next@ =~= window_after(self.history@, samples@));
        self.history = next;
    }

    /// Recompute the waveform from a chunk (see [`waveform_of`]).
    fn process_waveform(&mut self, samples: &[i32])
        requires
            old(self).wf(),
        ensures
            final(self).wf(),
            final(self).waveform@ == waveform_of(samples@),
            final(self).mode == old(self).mode,
            final(self).bars == old(self).bars,
            final(self).peak_bars == old(self).peak_bars,
            final(self).prev_bars == old(self).prev_bars,
            final(self).left_bars == old(self).left_bars,
            final(self).right_bars == old(self).right_bars,
            final(self).prev_left == old(self).prev_left,
            final(self).prev_right == old(self).prev_right,
            final(self).band_starts == old(self).band_starts,
            final(self).history == old(self).history,
    {
        let len = samples.len();
        let mut wave: Vec<i32> = Vec::new();
        let mut i: usize = 0;
        while i < WAVEFORM_WIDTH
            invariant
                i <= WAVEFORM_WIDTH,
                len == samples@.len(),
                wave@.len() == i,
                forall|k: int| 0 <= k < i ==> #[trigger] wave@[k] == wave_point(samples@, k) as i32,
            decreases WAVEFORM_WIDTH - i,
        {
            assert(i * len <= (i + 1) * len <= 200 * 0xffff_ffff_ffff_ffff) by (nonlinear_arith)
                requires
                    i < 200,
                    0 <= len <= 0xffff_ffff_ffff_ffff,
            ;
            let s128: u128 = (i as u128 * len as u128) / WAVEFORM_WIDTH as u128;
            let e128: u128 = ((i + 1) as u128 * len as u128) / WAVEFORM_WIDTH as u128;
            assert(s128 <= e128 <= len) by (nonlinear_arith)
                requires
                    s128 == (i * len) / 200,
                    e128 == ((i + 1) * len) / 200,
                    0 <= i < 200,
                    0 <= len,
            ;
            let start: usize = s128 as usize;
            let end: usize = e128 as usize;
            let v: i32 = if end > start {
                mean_range_i32(samples, start, end)
            } else {
                0
            };
            wave.push(v);
            i = i + 1;
        }
        assert(wave@ =~= waveform_of(samples@));
        self.waveform = wave;
    }

    /// Take in the magnitudes of the window's [`NUM_BINS`] positive-frequency
    /// bins: average them into bands, smooth each band with its previous value,
    /// scale the bands by their maximum (unless it is below
    /// [`NORMALIZE_FLOOR`]), and raise the peaks to the new bars.
    pub fn apply_spectrum(&mut self, magnitudes: &[u32])
        requires
            old(self).wf(),
            magnitudes@.len() == NUM_BINS,
        ensures
            final(self).wf(),
            ({
                let sm = smoothed_bands(old(self).prev_bars@, magnitudes@, old(self).band_starts@);
                &&& final(self).prev_bars@ == sm
                &&& final(self).bars@ == normalized(sm)
                &&& final(self).peak_bars@ == Seq::new(
                    NUM_BANDS as nat,
                    |i: int| max_of(old(self).peak_bars@[i] as int, final(self).bars@[i] as int) as u32,
                )
            }),
            final(self).mode == old(self).mode,
            final(self).left_bars == old(self).left_bars,
            final(self).right_bars == old(self).right_bars,
            final(self).prev_left == old(self).prev_left,
            final(self).prev_right == old(self).prev_right,
            final(self).waveform == old(self).waveform,
            final(self).history == old(self).history,
            final(self).band_starts == old(self).band_starts,
    {
        let ghost sm = Seq::new(
            NUM_BANDS as nat,
            |i: int|
                smooth(
                    self.prev_bars@[i] as int,
                    band_value(magnitudes@, self.band_starts@, i),
                ) as u32,
        );
        let mut smoothed: Vec<u32> = Vec::new();
        let mut mx: u32 = 0;
        let mut b: usize = 0;
        while b < NUM_BANDS
            invariant
                self.wf(),
                magnitudes@.len() == NUM_BINS,
                b <= NUM_BANDS,
                smoothed@.len() == b,
                forall|k: int| 0 <= k < b ==> #[trigger] smoothed@[k] == sm[k],
                mx == seq_max(smoothed@),
                sm == Seq::new(
                    NUM_BANDS as nat,
                    |i: int|
                        smooth(
                            self.prev_bars@[i] as int,
                            band_value(magnitudes@, self.band_starts@, i),
                        ) as u32,
                ),
            decreases NUM_BANDS - b,
        {
            let lo: usize = self.band_starts[b];
            let next: usize = self.band_starts[b + 1];
            let capped: usize = if next < NUM_BINS {
                next
            } else {
                NUM_BINS
            };
            let hi: usize = if capped > lo + 1 {
                capped
            } else {
                lo + 1
            };
            let v: u32 = mean_range_u32(magnitudes, lo, hi);
            let p: u32 = self.prev_bars[b];
            assert(p as int * 65 + v as int * 35 <= 100 * 0xffff_ffff) by (nonlinear_arith)
                requires
                    p <= 0xffff_ffff,
                    v <= 0xffff_ffff,
            ;
            let sv: u32 = ((p as u64 * 65 + v as u64 * 35) / 100) as u32;
            let ghost before = smoothed@;
            smoothed.push(sv);
            proof {
                assert(smoothed@.drop_last() =~= before);
            }
            if sv > mx {
                mx = sv;
            }
            b = b + 1;
        }
        assert(smoothed@ =~= sm);
        let mut bars: Vec<u32> = Vec::new();
        let mut peaks: Vec<u32> = Vec::new();
        let mut i: usize = 0;
        while i < NUM_BANDS
            invariant
                self.wf(),
                i <= NUM_BANDS,
                smoothed@ == sm,
                sm.len() == NUM_BANDS,
                mx == seq_max(sm),
                bars@.len() == i,
                peaks@.len() == i,
                forall|k: int| 0 <= k < i ==> #[trigger] bars@[k] == normalize(sm[k] as int, mx as int) as u32,
                forall|k: int|
                    0 <= k < i ==> #[trigger] peaks@[k] == max_of(self.peak_bars@[k] as int, bars@[k] as int) as u32,
            decreases NUM_BANDS - i,
        {
            let v: u32 = smoothed[i];
            let nv: u32 = if mx >= NORMALIZE_FLOOR {
                let q: u64 = (v as u64 * UNIT as u64) / mx as u64;
                if q < UNIT as u64 {
                    q as u32
                } else {
                    UNIT
                }
            } else {
                v
            };
            bars.push(nv);
            let old_peak: u32 = self.peak_bars[i];
            peaks.push(if nv > old_peak { nv } else { old_peak });
            i = i + 1;
        }
        self.prev_bars = smoothed;
        self.bars = bars;
        self.peak_bars = peaks;
        proof {
            assert(self.bars@ =~= normalized(sm));
            assert(self.peak_bars@ =~= Seq::new(
                NUM_BANDS as nat,
                |i: int| max_of(old(self).peak_bars@[i] as int, self.bars@[i] as int) as u32,
            ));
        }
    }

    /// Let every bar, pseudo-stereo bar and waveform point shrink to 85% and
    /// every peak to 92% (rounded toward zero), for a tick with no new audio.
    pub fn decay(&mut self)
        requires
            old(self).wf(),
        ensures
            final(self).wf(),
            decay_step(*old(self), *final(self)),
            final(self).prev_bars@ == final(self).bars@,
            final(self).prev_left@ == final(self).left_bars@,
            final(self).prev_right@ == final(self).right_bars@,
            final(self).mode == old(self).mode,
            final(self).history == old(self).history,
            final(self).band_starts == old(self).band_starts,
    {
        let bars = scale_all(&self.bars, DECAY_PERCENT);
        let left = scale_all(&self.left_bars, DECAY_PERCENT);
        let right = scale_all(&self.right_bars, DECAY_PERCENT);
        let peaks = scale_all(&self.peak_bars, PEAK_DECAY_PERCENT);
        let wave = scale_all_signed(&self.waveform, DECAY_PERCENT);
        self.prev_bars = bars.clone();
        self.prev_left = left.clone();
        self.prev_right = right.clone();
        self.bars = bars;
        self.left_bars = left;
        self.right_bars = right;
        self.peak_bars = peaks;
        self.waveform = wave;
        proof {
            assert(self.bars@ =~= scaled_all(old(self).bars@, 85));
            assert(self.left_bars@ =~= scaled_all(old(self).left_bars@, 85));
            assert(self.right_bars@ =~= scaled_all(old(self).right_bars@, 85));
            assert(self.peak_bars@ =~= scaled_all(old(self).peak_bars@, 92));
            assert(self.waveform@ =~= Seq::new(
                old(self).waveform@.len(),
                |i: int| div_trunc(old(self).waveform@[i] * DECAY_PERCENT, 100) as i32,
            ));
        }
    }
}

fn scale_all(v: &Vec<u32>, percent: u32) -> (r: Vec<u32>)
    requires
        percent <= 100,
    ensures
        r@.len() == v@.len(),
        forall|i: int| 0 <= i < v@.len() ==> #[trigger] r@[i] == scaled(v@[i] as int, percent as int),
{
    let mut out: Vec<u32> = Vec::new();
    let mut i: usize = 0;
    while i < v.len()
        invariant
            i <= v@.len(),
            percent <= 100,
            out@.len() == i,
            forall|k: int| 0 <= k < i ==> #[trigger] out@[k] == scaled(v@[k] as int, percent as int),
        decreases v@.len() - i,
    {
        let x: u32 = v[i];
        assert(x * percent / 100 <= x) by (nonlinear_arith)
            requires
                0 <= x,
                0 <= percent <= 100,
        ;
        out.push(((x as u64 * percent as u64) / 100) as u32);
        i = i + 1;
    }
    out
}

fn scale_all_signed(v: &Vec<i32>, percent: u32) -> (r: Vec<i32>)
    requires
        percent <= 100,
    ensures
        r@.len() == v@.len(),
        forall|i: int| 0 <= i < v@.len() ==> #[trigger] r@[i] == div_trunc(v@[i] * percent, 100),
{
    let mut out: Vec<i32> = Vec::new();
    let mut i: usize = 0;
    while i < v.len()
        invariant
            i <= v@.len(),
            percent <= 100,
            out@.len() == i,
            forall|k: int| 0 <= k < i ==> #[trigger] out@[k] == div_trunc(v@[k] * percent, 100),
        decreases v@.len() - i,
    {
        let x: i32 = v[i];
        let y: i32 = if x >= 0 {
            assert(x * percent / 100 <= x) by (nonlinear_arith)
                requires
                    0 <= x,
                    0 <= percent <= 100,
            ;
            ((x as u64 * percent as u64) / 100) as i32
        } else {
            let m: u64 = (0 - x as i64) as u64;
            assert(m * percent / 100 <= m && -(x * percent) == m * percent) by (nonlinear_arith)
                requires
                    0 <= m,
                    m == -x,
                    0 <= percent <= 100,
            ;
            (0 - ((m * percent as u64) / 100) as i64) as i32
        };
        out.push(y);
        i = i + 1;
    }
    out
}

impl Visualizer {
    /// Derive the pseudo-stereo bars from the current bars: the left side
    /// weighs low bands more (from 1.0 down to 0.7), the right side high bands
    /// (from 0.7 up to 1.0), and each side is smoothed with 70% of its previous
    /// value.
    pub fn split_stereo(&mut self)
        requires
            old(self).wf(),
        ensures
            final(self).wf(),
            final(self).left_bars@ == Seq::new(
                NUM_BANDS as nat,
                |i: int| stereo_side(old(self).prev_left@[i] as int, old(self).bars@[i] as int, 640 - 3 * i) as u32,
            ),
            final(self).right_bars@ == Seq::new(
                NUM_BANDS as nat,
                |i: int| stereo_side(old(self).prev_right@[i] as int, old(self).bars@[i] as int, 448 + 3 * i) as u32,
            ),
            final(self).prev_left@ == final(self).left_bars@,
            final(self).prev_right@ == final(self).right_bars@,
            final(self).mode == old(self).mode,
            final(self).bars == old(self).bars,
            final(self).peak_bars == old(self).peak_bars,
            final(self).prev_bars == old(self).prev_bars,
            final(self).waveform == old(self).waveform,
            final(self).history == old(self).history,
            final(self).band_starts == old(self).band_starts,
    {
        let mut left: Vec<u32> = Vec::new();
        let mut right: Vec<u32> = Vec::new();
        let mut i: usize = 0;
        while i < NUM_BANDS
            invariant
                self.wf(),
                i <= NUM_BANDS,
                left@.len() == i,
                right@.len() == i,
                forall|k: int|
                    0 <= k < i ==> #[trigger] left@[k] == stereo_side(
                        self.prev_left@[k] as int,
                        self.bars@[k] as int,
                        640 - 3 * k,
                    ) as u32,
                forall|k: int|
                    0 <= k < i ==> #[trigger] right@[k] == stereo_side(
                        self.prev_right@[k] as int,
                        self.bars@[k] as int,
                        448 + 3 * k,
                    ) as u32,
            decreases NUM_BANDS - i,
        {
            let base: u64 = self.bars[i] as u64;
            let lw: u64 = 640 - 3 * i as u64;
            let rw: u64 = 448 + 3 * i as u64;
            let pl: u64 = self.prev_left[i] as u64;
            let pr: u64 = self.prev_right[i] as u64;
            assert(base * lw / 640 <= base && base * rw / 640 <= base) by (nonlinear_arith)
                requires
                    0 <= base,
                    0 <= lw <= 640,
                    0 <= rw <= 640,
            ;
            let nl: u64 = base * lw / 640;
            let nr: u64 = base * rw / 640;
            assert((pl * 7 + nl * 3) / 10 <= 0xffff_ffff && (pr * 7 + nr * 3) / 10 <= 0xffff_ffff)
                by (nonlinear_arith)
                requires
                    pl <= 0xffff_ffff,
                    pr <= 0xffff_ffff,
                    nl <= 0xffff_ffff,
                    nr <= 0xffff_ffff,
            ;
            left.push(((pl * 7 + nl * 3) / 10) as u32);
            right.push(((pr * 7 + nr * 3) / 10) as u32);
            i = i + 1;
        }
        self.prev_left = left.clone();
        self.prev_right = right.clone();
        self.left_bars = left;
        self.right_bars = right;
        proof {
            assert(self.left_bars@ =~= Seq::new(
                NUM_BANDS as nat,
                |i: int| stereo_side(old(self).prev_left@[i] as int, old(self).bars@[i] as int, 640 - 3 * i) as u32,
            ));
            assert(self.right_bars@ =~= Seq::new(
                NUM_BANDS as nat,
                |i: int| stereo_side(old(self).prev_right@[i] as int, old(self).bars@[i] as int, 448 + 3 * i) as u32,
            ));
        }
    }
}

/// One pseudo-stereo side: the bar weighted by `weight`/640, smoothed with
/// 70% of the previous value.
pub open spec fn stereo_side(prev: int, bar: int, weight: int) -> int {
    (prev * 7 + (bar * weight / 640) * 3) / 10
}

/// Decay never raises a value and never takes a bar or peak below zero: every
/// positive bar and peak strictly shrinks, and every waveform point keeps its
/// sign while its size shrinks. Repeated decay therefore takes every value
/// toward zero.
pub proof fn lemma_decay_shrinks(a: Visualizer, b: Visualizer)
    requires
        decay_step(a, b),
    ensures
        forall|i: int|
            0 <= i < a.bars@.len() ==> #[trigger] b.bars@[i] <= a.bars@[i] && (a.bars@[i] > 0
                ==> b.bars@[i] < a.bars@[i]),
        forall|i: int|
            0 <= i < a.left_bars@.len() ==> #[trigger] b.left_bars@[i] <= a.left_bars@[i] && (
            a.left_bars@[i] > 0 ==> b.left_bars@[i] < a.left_bars@[i]),
        forall|i: int|
            0 <= i < a.right_bars@.len() ==> #[trigger] b.right_bars@[i] <= a.right_bars@[i] && (
            a.right_bars@[i] > 0 ==> b.right_bars@[i] < a.right_bars@[i]),
        forall|i: int|
            0 <= i < a.peak_bars@.len() ==> #[trigger] b.peak_bars@[i] <= a.peak_bars@[i] && (
            a.peak_bars@[i] > 0 ==> b.peak_bars@[i] < a.peak_bars@[i]),
        forall|i: int|
            0 <= i < a.waveform@.len() ==> {
                let (x, y) = (a.waveform@[i] as int, #[trigger] b.waveform@[i] as int);
                &&& x >= 0 ==> 0 <= y <= x && (x > 0 ==> y < x)
                &&& x < 0 ==> x < y <= 0
            },
{
    assert forall|x: u32, p: int| 0 <= p < 100 implies 0 <= #[trigger] scaled(x as int, p) <= x && (
    x > 0 ==> scaled(x as int, p) < x) by {
        assert(0 <= x * p / 100 <= x && (x > 0 ==> x * p / 100 < x)) by (nonlinear_arith)
            requires
                0 <= x,
                0 <= p < 100,
        ;
    }
    assert forall|i: int| 0 <= i < a.waveform@.len() implies {
        let (x, y) = (a.waveform@[i] as int, #[trigger] b.waveform@[i] as int);
        &&& x >= 0 ==> 0 <= y <= x && (x > 0 ==> y < x)
        &&& x < 0 ==> x < y <= 0
    } by {
        let x = a.waveform@[i] as int;
        if x >= 0 {
            assert(0 <= x * 85 / 100 <= x && (x > 0 ==> x * 85 / 100 < x)) by (nonlinear_arith)
                requires
                    0 <= x,
            ;
            assert(-0x8000_0000 <= div_trunc(x * 85, 100) <= 0x7fff_ffff);
        } else {
            assert(0 <= (-(x * 85)) / 100 < -x) by (nonlinear_arith)
                requires
                    x < 0,
            ;
            assert(-0x8000_0000 <= div_trunc(x * 85, 100) <= 0x7fff_ffff);
        }
    }
}

/// After a silent chunk at least as long as the window, the window holds
/// nothing but silence.
pub proof fn lemma_silence_fills_window(history: Seq<i32>, chunk: Seq<i32>)
    requires
        history.len() == FFT_SIZE,
        chunk.len() >= FFT_SIZE,
        forall|i: int| 0 <= i < chunk.len() ==> chunk[i] == 0,
    ensures
        window_after(history, chunk).len() == FFT_SIZE,
        forall|i: int| 0 <= i < FFT_SIZE ==> #[trigger] window_after(history, chunk)[i] == 0,
{
    assert forall|i: int| 0 <= i < FFT_SIZE implies #[trigger] window_after(history, chunk)[i] == 0 by {
        assert((history + chunk)[chunk.len() + i] == chunk[chunk.len() + i - FFT_SIZE]);
    }
}

/// A band's smoothed value after `k` silent frames, each keeping 65% of it
/// rounded down (see [`lemma_silence_settles`]).
pub open spec fn silent_after(x: int, k: nat) -> int
    decreases k,
{
    if k == 0 {
        x
    } else {
        scaled(silent_after(x, (k - 1) as nat), 65)
    }
}

proof fn lemma_silence_halves(x: int, j: nat)
    requires
        x >= 0,
    ensures
        silent_after(x, 2 * j) >= 0,
        silent_after(x, 2 * j) * pow2(j) <= x,
    decreases j,
{
    if j == 0 {
        lemma2_to64();
    } else {
        lemma_silence_halves(x, (j - 1) as nat);
        let y = silent_after(x, (2 * (j - 1)) as nat);
        let w = silent_after(x, (2 * j - 1) as nat);
        let z = silent_after(x, 2 * j);
        assert(w == scaled(y, 65));
        assert(z == scaled(w, 65));
        assert(0 <= z && 2 * z <= y) by (nonlinear_arith)
            requires
                y >= 0,
                w == y * 65 / 100,
                z == w * 65 / 100,
        ;
        lemma_pow2_unfold(j);
        let p = pow2((j - 1) as nat);
        assert(z * pow2(j) == 2 * z * p) by (nonlinear_arith)
            requires
                pow2(j) == 2 * p,
        ;
        assert(2 * z * p <= y * p) by (nonlinear_arith)
            requires
                2 * z <= y,
                p >= 0,
        ;
    }
}

/// Repeated silence takes every band to zero: from any value a band can
/// hold, 64 silent frames leave it at 0, and it stays there.
pub proof fn lemma_silence_reaches_zero(x: u32, k: nat)
    requires
        k >= 64,
    ensures
        silent_after(x as int, k) == 0,
    decreases k,
{
    if k == 64 {
        lemma_silence_halves(x as int, 32);
        lemma2_to64();
        let z = silent_after(x as int, 64);
        assert(z == 0) by (nonlinear_arith)
            requires
                z >= 0,
                z * 0x1_0000_0000 <= x,
                x < 0x1_0000_0000,
        ;
    } else {
        lemma_silence_reaches_zero(x, (k - 1) as nat);
        assert(silent_after(x as int, k) == scaled(0, 65));
    }
}

proof fn lemma_sum_zeros(s: Seq<u32>)
    requires
        forall|i: int| 0 <= i < s.len() ==> s[i] == 0,
    ensures
        crate::sums::sum_u32(s) == 0,
    decreases s.len(),
{
    if s.len() > 0 {
        lemma_sum_zeros(s.drop_last());
    }
}

/// On silence (all magnitudes zero) each band keeps 65% of its smoothed value,
/// rounded down, so every band that is not yet zero strictly shrinks and all
/// reach zero. Once the largest is below [`NORMALIZE_FLOOR`] the bars shown
/// are the smoothed values themselves, and from all-zero bands the bars stay
/// at zero.
pub proof fn lemma_silence_settles(prev: Seq<u32>, mags: Seq<u32>, starts: Seq<usize>)
    requires
        prev.len() == NUM_BANDS,
        mags.len() == NUM_BINS,
        valid_starts(starts),
        forall|i: int| 0 <= i < mags.len() ==> mags[i] == 0,
    ensures
        ({
            let sm = smoothed_bands(prev, mags, starts);
            &&& forall|i: int| 0 <= i < NUM_BANDS ==> #[trigger] sm[i] == scaled(prev[i] as int, 65)
            &&& forall|i: int| 0 <= i < NUM_BANDS && prev[i] > 0 ==> #[trigger] sm[i] < prev[i]
            &&& seq_max(sm) < NORMALIZE_FLOOR ==> normalized(sm) == sm
            &&& (forall|i: int| 0 <= i < NUM_BANDS ==> prev[i] == 0) ==> forall|i: int|
                0 <= i < NUM_BANDS ==> #[trigger] normalized(sm)[i] == 0
        }),
{
    let sm = smoothed_bands(prev, mags, starts);
    assert forall|i: int| 0 <= i < NUM_BANDS implies #[trigger] sm[i] == scaled(prev[i] as int, 65)
        && (prev[i] > 0 ==> sm[i] < prev[i]) by {
        let lo = band_lo(starts, i);
        let hi = band_hi(starts, i);
        lemma_sum_zeros(mags.subrange(lo, hi));
        assert(band_value(mags, starts, i) == 0);
        let p = prev[i] as int;
        assert(p * 65 / 100 <= p && (p > 0 ==> p * 65 / 100 < p)) by (nonlinear_arith)
            requires
                0 <= p,
        ;
    }
    if seq_max(sm) < NORMALIZE_FLOOR {
        assert(normalized(sm) =~= sm);
    }
}

proof fn lemma_bin_start_below(r: int, b: nat)
    requires
        0 < b < NUM_BANDS,
        is_log_bin_start(r, b, NUM_BANDS as nat, NUM_BINS as nat),
    ensures
        1 <= r < NUM_BINS,
{
    lemma_pow_strictly_increases(NUM_BINS as nat, b, NUM_BANDS as nat);
    if r >= NUM_BINS {
        lemma_pow_base_increases(NUM_BINS as nat, r as nat, NUM_BANDS as nat);
    }
    if r < 1 {
        // r == 0: then 0 < 1024^b < 1^64 == 1 is impossible.
        lemma_pow_strictly_increases(NUM_BINS as nat, 0, b);
        vstd::arithmetic::power::lemma_pow0(NUM_BINS as int);
        vstd::arithmetic::power::lemma1_pow(NUM_BANDS as nat);
    }
}

fn zeros_u32(n: usize) -> (r: Vec<u32>)
    ensures
        r@.len() == n,
        forall|i: int| 0 <= i < n ==> r@[i] == 0,
{
    let mut v: Vec<u32> = Vec::new();
    while v.len() < n
        invariant
            v@.len() <= n,
            forall|i: int| 0 <= i < v@.len() ==> v@[i] == 0,
        decreases n - v@.len(),
    {
        v.push(0);
    }
    v
}

fn zeros_i32(n: usize) -> (r: Vec<i32>)
    ensures
        r@.len() == n,
        forall|i: int| 0 <= i < n ==> r@[i] == 0,
{
    let mut v: Vec<i32> = Vec::new();
    while v.len() < n
        invariant
            v@.len() <= n,
            forall|i: int| 0 <= i < v@.len() ==> v@[i] == 0,
        decreases n - v@.len(),
    {
        v.push(0);
    }
    v
}

} // verus!
