use tunebox::bands::log_bin_start;
use tunebox::modes::VisualizerMode;
use tunebox::visualizer::{Visualizer, FFT_SIZE, NUM_BANDS, NUM_BINS, UNIT, WAVEFORM_WIDTH};

#[test]
fn log_bins_are_exact() {
    assert_eq!(log_bin_start(0, 64, 1024), 1);
    assert_eq!(log_bin_start(1, 64, 1024), 1);
    assert_eq!(log_bin_start(16, 64, 1024), 5);
    assert_eq!(log_bin_start(32, 64, 1024), 32);
    assert_eq!(log_bin_start(48, 64, 1024), 181);
    assert_eq!(log_bin_start(64, 64, 1024), 1024);
    assert_eq!(log_bin_start(3, 3, 1000), 1000);
    assert_eq!(log_bin_start(1, 3, 1000), 10);
    assert_eq!(log_bin_start(1, 2, 0), 0);
}

#[test]
fn new_visualizer_is_blank() {
    let v = Visualizer::new();
    assert_eq!(v.mode, VisualizerMode::FrequencyBars);
    assert_eq!(v.bars, vec![0; NUM_BANDS]);
    assert_eq!(v.peak_bars, vec![0; NUM_BANDS]);
    assert_eq!(v.waveform, vec![0; WAVEFORM_WIDTH]);
    assert_eq!(v.band_starts.len(), NUM_BANDS + 1);
    assert_eq!(v.band_starts[0], 1);
    assert_eq!(v.band_starts[NUM_BANDS], NUM_BINS);
    assert!(v.band_starts.windows(2).all(|w| w[0] <= w[1]));
}

#[test]
fn chunks_accumulate_in_window() {
    let mut v = Visualizer::new();
    assert!(v.process_samples(&[1, 2, 3]));
    let w = v.analysis_window();
    assert_eq!(w.len(), FFT_SIZE);
    assert_eq!(&w[FFT_SIZE - 3..], &[1, 2, 3]);
    assert!(w[..FFT_SIZE - 3].iter().all(|&x| x == 0));
    v.process_samples(&[4, 5]);
    assert_eq!(&v.analysis_window()[FFT_SIZE - 5..], &[1, 2, 3, 4, 5]);
    let long: Vec<i32> = (0..3000).collect();
    v.process_samples(&long);
    assert_eq!(v.analysis_window()[0], 952);
    assert_eq!(v.analysis_window()[FFT_SIZE - 1], 2999);
}

#[test]
fn loud_spectrum_normalizes_to_one() {
    let mut v = Visualizer::new();
    v.apply_spectrum(&vec![1_000_000; NUM_BINS]);
    assert_eq!(v.prev_bars, vec![350_000; NUM_BANDS]);
    assert_eq!(v.bars, vec![UNIT; NUM_BANDS]);
    assert_eq!(v.peak_bars, vec![UNIT; NUM_BANDS]);
}

#[test]
fn quiet_spectrum_is_not_normalized() {
    let mut v = Visualizer::new();
    v.apply_spectrum(&vec![1000; NUM_BINS]);
    assert_eq!(v.bars, vec![350; NUM_BANDS]);
}

#[test]
fn band_values_follow_bins() {
    let mut v = Visualizer::new();
    let mut mags = vec![0u32; NUM_BINS];
    mags[1] = 100_000;
    v.apply_spectrum(&mags);
    // Every band whose range is bin 1 alone takes its full value; the rest stay zero.
    assert_eq!(v.prev_bars[0], 35_000);
    assert_eq!(v.bars[0], UNIT);
    assert_eq!(v.bars[NUM_BANDS - 1], 0);
}

#[test]
fn silence_settles_bars_to_zero() {
    let mut v = Visualizer::new();
    v.apply_spectrum(&vec![500_000; NUM_BINS]);
    let zeros = vec![0u32; NUM_BINS];
    let mut prev_max = u32::MAX;
    for _ in 0..60 {
        v.apply_spectrum(&zeros);
        let m = *v.prev_bars.iter().max().unwrap();
        assert!(m < prev_max || m == 0);
        prev_max = m;
    }
    assert_eq!(v.prev_bars, vec![0; NUM_BANDS]);
    assert_eq!(v.bars, vec![0; NUM_BANDS]);
}

#[test]
fn decay_shrinks_everything_toward_zero() {
    let mut v = Visualizer::new();
    v.bars[0] = 1000;
    v.peak_bars[0] = 1000;
    v.left_bars[1] = 200;
    v.waveform[0] = -1000;
    v.waveform[1] = 999;
    v.decay();
    assert_eq!(v.bars[0], 850);
    assert_eq!(v.peak_bars[0], 920);
    assert_eq!(v.left_bars[1], 170);
    assert_eq!(v.waveform[0], -850);
    assert_eq!(v.waveform[1], 849);
    assert_eq!(v.prev_bars, v.bars);
    for _ in 0..200 {
        let before = (v.bars[0], v.peak_bars[0], v.waveform[0]);
        v.decay();
        assert!(v.bars[0] <= before.0 && v.peak_bars[0] <= before.1);
        assert!(v.waveform[0] >= before.2 && v.waveform[0] <= 0);
    }
    assert_eq!((v.bars[0], v.peak_bars[0], v.waveform[0]), (0, 0, 0));
}

#[test]
fn waveform_averages_chunk() {
    let mut v = Visualizer::new();
    v.mode = VisualizerMode::Waveform;
    let samples: Vec<i32> = (0..400).collect();
    assert!(!v.process_samples(&samples));
    assert_eq!(v.waveform.len(), WAVEFORM_WIDTH);
    assert_eq!(v.waveform[0], 0);
    assert_eq!(v.waveform[1], 2);
    assert_eq!(v.waveform[199], 398);
    v.process_samples(&[]);
    assert_eq!(v.waveform, vec![0; WAVEFORM_WIDTH]);
    v.process_samples(&[-7, 9]);
    assert_eq!(v.waveform[0], 0);
    assert_eq!(v.waveform[99], -7);
    assert_eq!(v.waveform[199], 9);
}

#[test]
fn off_mode_ignores_samples() {
    let mut v = Visualizer::new();
    v.mode = VisualizerMode::Off;
    assert!(!v.process_samples(&[5; 10]));
    assert!(v.analysis_window().iter().all(|&x| x == 0));
    assert_eq!(v.waveform, vec![0; WAVEFORM_WIDTH]);
}

#[test]
fn stereo_split_weights_sides() {
    let mut v = Visualizer::new();
    v.bars[0] = 640_000;
    v.bars[63] = 640_000;
    v.split_stereo();
    assert_eq!(v.left_bars[0], 192_000);
    assert_eq!(v.right_bars[0], 134_400);
    assert_eq!(v.left_bars[63], 135_300);
    assert_eq!(v.right_bars[63], 191_100);
}

#[test]
fn normalization_starts_at_floor() {
    let mut v = Visualizer::new();
    v.prev_bars[0] = 1539;
    v.apply_spectrum(&vec![0; NUM_BINS]);
    assert_eq!(v.prev_bars[0], 1000);
    assert_eq!(v.bars[0], UNIT);
    let mut w = Visualizer::new();
    w.prev_bars[0] = 1538;
    w.apply_spectrum(&vec![0; NUM_BINS]);
    assert_eq!(w.prev_bars[0], 999);
    assert_eq!(w.bars[0], 999);
}
