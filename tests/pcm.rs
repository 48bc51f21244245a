use realtime_voice::pcm::{
    base64_decode_audio, base64_encode_audio, convert_audio_from_server, convert_audio_to_server,
    decode_pcm16, encode_pcm16, AudioError,
};
use realtime_voice::resample::ConvertError;

#[test]
fn pcm16_is_little_endian_twos_complement() {
    assert_eq!(
        encode_pcm16(&[1, -1, 256, -32768, 32767]),
        vec![1, 0, 255, 255, 0, 1, 0, 128, 255, 127]
    );
}

#[test]
fn pcm16_decoding_ignores_a_trailing_byte() {
    assert_eq!(decode_pcm16(&[1, 0, 255, 255, 9]), vec![1, -1]);
    assert_eq!(decode_pcm16(&[]), Vec::<i16>::new());
}

#[test]
fn base64_text_of_samples() {
    assert_eq!(base64_encode_audio(&[1]).unwrap(), "AQA=");
    assert_eq!(base64_encode_audio(&[1, -1, 256]).unwrap(), "AQD//wAB");
    assert_eq!(base64_encode_audio(&[]).unwrap(), "");
}

#[test]
fn base64_text_decodes_to_samples() {
    assert_eq!(base64_decode_audio("AQA=").unwrap(), vec![1]);
    assert_eq!(base64_decode_audio("AQD//wAB").unwrap(), vec![1, -1, 256]);
}

#[test]
fn invalid_base64_is_reported() {
    assert_eq!(base64_decode_audio("!!!"), Err(AudioError::InvalidBase64));
}

fn quantize(x: f32) -> i16 {
    (x * i16::MAX as f32) as i16
}

fn dequantize(s: i16) -> f32 {
    f32::from(s) / i16::MAX as f32
}

#[test]
fn round_trip_stays_within_one_step() {
    let values: Vec<f32> = vec![-1.0, -0.75, -0.333, -0.00001, 0.0, 0.00002, 0.1234, 0.5, 0.999, 1.0];
    let samples: Vec<i16> = values.iter().map(|&x| quantize(x)).collect();
    let text = base64_encode_audio(&samples).unwrap();
    let back = base64_decode_audio(&text).unwrap();
    assert_eq!(back, samples);
    for (x, s) in values.iter().zip(back.iter()) {
        assert!((dequantize(*s) - x).abs() <= 1.0 / 32767.0 + f32::EPSILON);
    }
}

#[test]
fn audio_to_server_resamples_then_encodes() {
    // Frames (10, 20), (30, 40) at 48 kHz: one frame at 24 kHz, mixed to mono.
    let text = convert_audio_to_server(&[10, 20, 30, 40], 48000, 2).unwrap();
    assert_eq!(base64_decode_audio(&text).unwrap(), vec![15]);
    let frames: Vec<i16> = [0i16, 20000].iter().cycle().take(16).cloned().collect();
    let text = convert_audio_to_server(&frames, 48000, 2).unwrap();
    assert_eq!(base64_decode_audio(&text).unwrap(), vec![10000; 4]);
}

#[test]
fn audio_to_server_rejects_bad_channels() {
    assert_eq!(
        convert_audio_to_server(&[1, 2], 48000, 6),
        Err(AudioError::Convert(ConvertError::InputChannels))
    );
}

#[test]
fn audio_from_server_decodes_then_resamples() {
    assert_eq!(convert_audio_from_server("AQA=", 48000, 1).unwrap(), vec![1, 1]);
    assert_eq!(convert_audio_from_server("AQA=", 48000, 2).unwrap(), vec![1, 1, 1, 1]);
    assert_eq!(convert_audio_from_server("#", 48000, 2), Err(AudioError::InvalidBase64));
    assert_eq!(
        convert_audio_from_server("AQA=", 0, 2),
        Err(AudioError::Convert(ConvertError::ZeroSampleRate))
    );
}
