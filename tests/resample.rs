use realtime_voice::resample::{
    check_conversion, output_fits, resample, resample_and_convert_channels, ConvertError,
    SERVER_CHANNELS, SERVER_SAMPLE_RATE,
};

#[test]
fn same_format_is_unchanged() {
    let samples = vec![5i16, -7, 300, 0];
    let out = resample_and_convert_channels(&samples, 44100, 1, 44100, 1).unwrap();
    assert_eq!(out, samples);
}

#[test]
fn halving_the_rate_keeps_every_other_sample() {
    let out = resample(&[0, 100, 200, 300], 1, 48000, 24000);
    assert_eq!(out, vec![0, 200]);
}

#[test]
fn doubling_the_rate_interpolates_and_clamps() {
    let out = resample(&[0, 100], 1, 24000, 48000);
    assert_eq!(out, vec![0, 50, 100, 100]);
}

#[test]
fn interpolation_rounds_down() {
    let out = resample(&[-1, 0], 1, 24000, 48000);
    assert_eq!(out, vec![-1, -1, 0, 0]);
}

#[test]
fn uneven_ratio_blends_by_fraction() {
    // 3 samples from 3 Hz to 4 Hz: positions 0, 0.75, 1.5, 2.25.
    let out = resample(&[0, 400, 800], 1, 3, 4);
    assert_eq!(out, vec![0, 300, 600, 800]);
}

#[test]
fn mono_to_stereo_duplicates() {
    let out = resample_and_convert_channels(&[1, 2, -3], 16000, 1, 16000, 2).unwrap();
    assert_eq!(out, vec![1, 1, 2, 2, -3, -3]);
}

#[test]
fn stereo_to_mono_averages_frames() {
    // The trailing partial frame is not part of the input.
    let out = resample_and_convert_channels(&[2, 4, -3, -4, 5], 16000, 2, 16000, 1).unwrap();
    assert_eq!(out, vec![3, -4]);
}

#[test]
fn stereo_channels_are_resampled_separately() {
    let out = resample(&[0, 1000, 100, 1100], 2, 24000, 48000);
    assert_eq!(out, vec![0, 1000, 50, 1050, 100, 1100, 100, 1100]);
}

#[test]
fn stereo_output_has_whole_frames() {
    let out = resample_and_convert_channels(&[100, -100], 16000, 2, 24000, 2).unwrap();
    assert_eq!(out, vec![100, -100]);
    assert_eq!(out.len() % 2, 0);
}

#[test]
fn output_stays_within_the_input_range() {
    let out = resample_and_convert_channels(&[100, 100], 16000, 2, 24000, 1).unwrap();
    assert_eq!(out, vec![100]);
}

#[test]
fn stereo_to_mono_mixes_left_and_right() {
    let input: Vec<i16> = [0i16, 20000].iter().cycle().take(64).cloned().collect();
    let out = resample_and_convert_channels(&input, 48000, 2, 24000, 1).unwrap();
    assert_eq!(out.len(), 16);
    assert!(out.iter().all(|&s| s == 10000));
}

#[test]
fn rejects_bad_input_channels() {
    assert_eq!(
        resample_and_convert_channels(&[1, 2], 48000, 3, 24000, 1),
        Err(ConvertError::InputChannels)
    );
    assert_eq!(
        resample_and_convert_channels(&[1, 2], 0, 0, 24000, 1),
        Err(ConvertError::InputChannels)
    );
}

#[test]
fn rejects_bad_output_channels() {
    assert_eq!(
        resample_and_convert_channels(&[1, 2], 48000, 2, 24000, 0),
        Err(ConvertError::OutputChannels)
    );
}

#[test]
fn rejects_zero_rates() {
    assert_eq!(
        resample_and_convert_channels(&[1, 2], 0, 1, 24000, 1),
        Err(ConvertError::ZeroSampleRate)
    );
    assert_eq!(
        resample_and_convert_channels(&[1, 2], 24000, 1, 0, 1),
        Err(ConvertError::ZeroSampleRate)
    );
    assert_eq!(check_conversion(24000, 1, 0, 2), Some(ConvertError::ZeroSampleRate));
    assert_eq!(check_conversion(24000, 1, 8000, 2), None);
}

#[test]
fn empty_input_gives_empty_output() {
    let out = resample_and_convert_channels(&[], 48000, 2, 24000, 1).unwrap();
    assert!(out.is_empty());
}

#[test]
fn conversion_is_deterministic() {
    let samples: Vec<i16> = (0..1000).map(|i| ((i * 37) % 2001 - 1000) as i16).collect();
    for &(sr, sc, dr, dc) in &[(48000u32, 2u16, 24000u32, 1u16), (24000, 1, 44100, 2), (8000, 1, 8000, 1)] {
        let a = resample_and_convert_channels(&samples, sr, sc, dr, dc).unwrap();
        let b = resample_and_convert_channels(&samples, sr, sc, dr, dc).unwrap();
        assert_eq!(a, b);
    }
}

#[test]
fn stereo_48k_to_server_format_quarters_the_count() {
    let chunk: Vec<i16> = (0..9600).map(|i| (i % 200) as i16).collect();
    let out = resample_and_convert_channels(&chunk, 48000, 2, SERVER_SAMPLE_RATE, SERVER_CHANNELS).unwrap();
    assert_eq!(out.len(), 9600 * 24000 / 48000 / 2);
    let odd: Vec<i16> = vec![7; 4802];
    let out = resample_and_convert_channels(&odd, 48000, 2, SERVER_SAMPLE_RATE, SERVER_CHANNELS).unwrap();
    assert_eq!(out.len(), (4802 / 2) * 24000 / 48000);
    assert!(out.iter().all(|&s| s == 7));
}

#[test]
fn output_fits_checks_the_length() {
    assert!(output_fits(1000, 24000, 48000));
    assert!(output_fits(usize::MAX, 0, 48000));
    assert!(!output_fits(usize::MAX, 1, 48000));
}
