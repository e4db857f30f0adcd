use audiolyzer::fft::{band_index, band_sources, spectrum_fits, WindowType, WINDOW_COUNT};

#[test]
fn window_next_cycles_through_all_four() {
    assert_eq!(WindowType::Hanning.next(), WindowType::Hamming);
    assert_eq!(WindowType::Hamming.next(), WindowType::Blackman);
    assert_eq!(WindowType::Blackman.next(), WindowType::Nuttall);
    assert_eq!(WindowType::Nuttall.next(), WindowType::Hanning);
}

#[test]
fn window_four_steps_return_to_start() {
    for i in 0..WINDOW_COUNT {
        let w = WindowType::from_index(i);
        assert_eq!(w.next().next().next().next(), w);
    }
}

#[test]
fn window_index_roundtrip() {
    assert_eq!(WindowType::Hanning.index(), 0);
    assert_eq!(WindowType::Nuttall.index(), 3);
    for i in 0..WINDOW_COUNT {
        assert_eq!(WindowType::from_index(i).index(), i);
    }
}

#[test]
fn window_debug_names() {
    assert_eq!(format!("{:?}", WindowType::Blackman), "Blackman");
}

#[test]
fn spectrum_fits_counts_half_plus_one() {
    // 1024 samples give 513 frequencies.
    assert!(spectrum_fits(1024, 22050));
    assert!(spectrum_fits(1024, 513));
    assert!(!spectrum_fits(1024, 512));
    assert!(spectrum_fits(0, 1));
    assert!(!spectrum_fits(0, 0));
}

#[test]
fn band_index_rounds_frequency() {
    // 44100 Hz, 1024 samples: entry 1 is 43.07 Hz.
    assert_eq!(band_index(1, 44100, 1024, 22050), Some(43));
    assert_eq!(band_index(0, 44100, 1024, 22050), Some(0));
    // entry 511 is 22006.93 Hz
    assert_eq!(band_index(511, 44100, 1024, 22050), Some(22007));
}

#[test]
fn band_index_drops_nyquist_and_above() {
    assert_eq!(band_index(512, 44100, 1024, 22050), None);
    assert_eq!(band_index(513, 44100, 1024, 22050), None);
}

#[test]
fn band_index_drops_bands_past_the_end() {
    assert_eq!(band_index(3, 44100, 1024, 100), None); // 129 Hz
    assert_eq!(band_index(2, 44100, 1024, 100), Some(86));
}

#[test]
fn band_index_ten_bands_are_2000_hz_wide() {
    // entry 100 is 4306.6 Hz -> 4307 -> band 2
    assert_eq!(band_index(100, 44100, 1024, 10), Some(2));
    assert_eq!(band_index(46, 44100, 1024, 10), Some(0)); // 1981 Hz
    assert_eq!(band_index(47, 44100, 1024, 10), Some(1)); // 2024 Hz
}

#[test]
fn band_index_rounds_halves_up() {
    // 3 Hz, 2 samples: entry 1 at 1.5 Hz (Nyquist limit 1 Hz) is dropped
    assert_eq!(band_index(1, 3, 2, 100), None);
    // 5 Hz, 4 samples: entry 1 at 1.25 Hz -> 1, Nyquist limit 2 Hz
    assert_eq!(band_index(1, 5, 4, 100), Some(1));
    // 6 Hz, 4 samples: entry 1 at 1.5 Hz -> 2
    assert_eq!(band_index(1, 6, 4, 100), Some(2));
}

#[test]
fn band_index_without_samples() {
    assert_eq!(band_index(0, 44100, 0, 10), Some(0));
    assert_eq!(band_index(1, 44100, 0, 10), None);
    assert_eq!(band_index(0, 44100, 0, 0), None);
}

#[test]
fn band_sources_picks_first_entry_per_band() {
    // 8 Hz, 8 samples: entries are 0..=4 Hz, Nyquist limit 4 Hz.
    let s = band_sources(5, 8, 8, 6);
    assert_eq!(s, vec![Some(0), Some(1), Some(2), Some(3), None, None]);
    // 10 bands at 44100 Hz / 1024 samples: band 0 starts at entry 0, band 1 at entry 47.
    let t = band_sources(513, 44100, 1024, 10);
    assert_eq!(t.len(), 10);
    assert_eq!(t[0], Some(0));
    assert_eq!(t[1], Some(47));
    assert_eq!(t[9], Some(418)); // 18001.8 Hz
}

use audiolyzer::fft::FFTEngine;

#[test]
fn engine_starts_empty() {
    let e: FFTEngine<f32> = FFTEngine::new(44100, 22050, WindowType::Blackman);
    assert!(e.get_src_buf().is_empty());
    assert_eq!(e.get_window(), WindowType::Blackman);
    assert_eq!(e.sample_rate(), 44100);
    assert_eq!(e.bins(), 22050);
    assert!(!e.window_applies());
}

#[test]
fn engine_keeps_last_nonempty_block() {
    let mut e: FFTEngine<f32> = FFTEngine::new(44100, 16, WindowType::Hanning);
    e.set_src_buf(&[0.5, -0.25, 1.0]);
    assert_eq!(e.get_src_buf(), vec![0.5, -0.25, 1.0]);
    e.set_src_buf(&[]);
    assert_eq!(e.get_curr_data(), vec![0.5, -0.25, 1.0]);
    e.push_samples(&[2.0]);
    assert_eq!(e.get_src_buf(), vec![2.0]);
    assert!(!e.window_applies());
}

#[test]
fn engine_window_selection() {
    let mut e: FFTEngine<f32> = FFTEngine::new(8000, 4, WindowType::Hanning);
    e.set_window(WindowType::Nuttall);
    assert_eq!(e.get_window(), WindowType::Nuttall);
}

#[test]
fn engine_spectrum_fits_slots() {
    let mut e: FFTEngine<f32> = FFTEngine::new(44100, 3, WindowType::Hanning);
    e.set_src_buf(&[0.0; 4]);
    assert!(e.spectrum_fits_slots());
    assert!(e.window_applies());
    e.set_src_buf(&[0.0; 6]);
    assert!(!e.spectrum_fits_slots());
}

#[test]
fn engine_band_sources_use_block_length() {
    let mut e: FFTEngine<f32> = FFTEngine::new(8, 6, WindowType::Hanning);
    e.set_src_buf(&[0.0; 8]);
    assert_eq!(e.band_sources(5), vec![Some(0), Some(1), Some(2), Some(3), None, None]);
}
