//! PCM16 little-endian framing of samples, and its base64 text form used on
//! the wire.

use base64::Engine;
use vstd::prelude::*;

use crate::resample::{
    check_conversion, converted, convert_error, fits_output, output_fits,
    resample_and_convert_channels, ConvertError, SERVER_CHANNELS, SERVER_SAMPLE_RATE,
};

verus! {

#[verifier::external_type_specification]
#[verifier::external_body]
pub struct ExDecodeError(base64::DecodeError);

/// Standard, padded base64 text of `bytes`.
pub uninterp spec fn base64_of(bytes: Seq<u8>) -> Seq<char>;

/// The bytes that standard, padded base64 decoding gives for `text`, or
/// `None` where the text is rejected.
pub uninterp spec fn base64_decoded(text: Seq<char>) -> Option<Seq<u8>>;

pub open spec fn is_base64_char(c: char) -> bool {
    ('A' <= c && c <= 'Z') || ('a' <= c && c <= 'z') || ('0' <= c && c <= '9') || c == '+' || c == '/'
        || c == '='
}

/// Input lengths whose encoded length fits in memory.
pub open spec fn base64_fits(n: nat) -> bool {
    (n / 3) * 4 + 4 <= usize::MAX
}

/// Relies on base64's `Engine::encode` with the `STANDARD` engine: text over
/// the standard alphabet, padded with `=` to four characters per three bytes
/// begun. It panics only when that length overflows `usize`.
#[verifier::external_body]
fn base64_encode(bytes: &[u8]) -> (r: String)
    requires
        base64_fits(bytes@.len()),
    ensures
        r@ == base64_of(bytes@),
        r@.len() == 4 * ((bytes@.len() + 2) / 3),
        forall|i: int| 0 <= i < r@.len() ==> is_base64_char(#[trigger] r@[i]),
{
    base64::engine::general_purpose::STANDARD.encode(bytes)
}

/// Relies on base64's `Engine::decode` with the `STANDARD` engine: the result
/// depends on the text alone, and the padded standard encoding of any bytes
/// decodes back to those bytes.
#[verifier::external_body]
fn base64_decode(text: &str) -> (r: Result<Vec<u8>, base64::DecodeError>)
    ensures
        match r {
            Ok(v) => base64_decoded(text@) == Some(v@),
            Err(_) => base64_decoded(text@) is None,
        },
        forall|b: Seq<u8>| text@ == #[trigger] base64_of(b) ==> (r is Ok && r->Ok_0@ == b),
{
    base64::engine::general_purpose::STANDARD.decode(text)
}

/// Why encoded audio could not be produced or read back.
#[derive(Debug, Clone, Copy, PartialEq, Eq, Structural)]
pub enum AudioError {
    /// The conversion parameters were rejected.
    Convert(ConvertError),
    /// The text is not valid standard base64.
    InvalidBase64,
    /// The result would not fit in memory.
    TooLong,
}

/// Two's-complement value of a sample, as an unsigned 16-bit number.
pub open spec fn unsigned16(x: i16) -> int {
    if x < 0 {
        x + 65536
    } else {
        x as int
    }
}

/// The sample whose little-endian bytes are `lo`, `hi`.
pub open spec fn sample_from_bytes(lo: u8, hi: u8) -> i16 {
    let u = lo + 256 * hi;
    if u >= 32768 {
        (u - 65536) as i16
    } else {
        u as i16
    }
}

/// Little-endian PCM16 bytes of a sample sequence: two bytes per sample.
pub open spec fn pcm16_bytes(s: Seq<i16>) -> Seq<u8> {
    Seq::new(
        2 * s.len(),
        |i: int|
            if i % 2 == 0 {
                (unsigned16(s[i / 2]) % 256) as u8
            } else {
                (unsigned16(s[i / 2]) / 256) as u8
            },
    )
}

/// Samples read from little-endian PCM16 bytes; a trailing odd byte is ignored.
pub open spec fn pcm16_samples(b: Seq<u8>) -> Seq<i16> {
    Seq::new(b.len() / 2, |k: int| sample_from_bytes(b[2 * k], b[2 * k + 1]))
}

/// Reading back the bytes of a sample sequence gives the same samples.
pub proof fn lemma_pcm16_round_trip(s: Seq<i16>)
    ensures
        pcm16_samples(pcm16_bytes(s)) == s,
{
    let b = pcm16_bytes(s);
    assert forall|k: int| 0 <= k < s.len() implies #[trigger] pcm16_samples(b)[k] == s[k] by {
        let u = unsigned16(s[k]);
        assert(b[2 * k] == (u % 256) as u8);
        assert(b[2 * k + 1] == (u / 256) as u8);
        assert((u % 256) + 256 * (u / 256) == u);
    }
    assert(pcm16_samples(b) =~= s);
}

/// Writes each sample as two little-endian bytes.
pub fn encode_pcm16(samples: &[i16]) -> (r: Vec<u8>)
    requires
        2 * samples@.len() <= usize::MAX,
    ensures
        r@ == pcm16_bytes(samples@),
{
    let mut out: Vec<u8> = Vec::with_capacity(2 * samples.len());
    let mut k: usize = 0;
    while k < samples.len()
        invariant
            k <= samples@.len(),
            out@.len() == 2 * k,
            forall|j: int| 0 <= j < 2 * k ==> out@[j] == pcm16_bytes(samples@)[j],
        decreases samples@.len() - k,
    {
        let x = samples[k];
        let u: u32 = if x < 0 {
            (x as i32 + 65536) as u32
        } else {
            x as u32
        };
        out.push((u % 256) as u8);
        out.push((u / 256) as u8);
        k = k + 1;
    }
    assert(out@ =~= pcm16_bytes(samples@));
    out
}

/// Reads little-endian PCM16 bytes into samples, ignoring a trailing odd byte.
pub fn decode_pcm16(bytes: &[u8]) -> (r: Vec<i16>)
    ensures
        r@ == pcm16_samples(bytes@),
{
    let len = bytes.len();
    let n = len / 2;
    let mut out: Vec<i16> = Vec::with_capacity(n);
    let mut k: usize = 0;
    while k < n
        invariant
            len == bytes@.len(),
            n == len / 2,
            k <= n,
            out@.len() == k,
            forall|j: int| 0 <= j < k ==> out@[j] == pcm16_samples(bytes@)[j],
        decreases n - k,
    {
        let u: u32 = bytes[2 * k] as u32 + 256 * bytes[2 * k + 1] as u32;
        let x: i16 = if u >= 32768 {
            (u as i32 - 65536) as i16
        } else {
            u as i16
        };
        out.push(x);
        k = k + 1;
    }
    assert(out@ =~= pcm16_samples(bytes@));
    out
}

/// Encodes samples as base64 text of their PCM16 bytes.
pub fn base64_encode_audio(samples: &[i16]) -> (r: Result<String, AudioError>)
    ensures
        match r {
            Ok(text) => text@ == base64_of(pcm16_bytes(samples@)),
            Err(e) => e == AudioError::TooLong && !base64_fits(2 * samples@.len()),
        },
        r is Ok <==> base64_fits(2 * samples@.len()),
{
    let n2: u128 = 2 * samples.len() as u128;
    if (n2 / 3) * 4 + 4 > usize::MAX as u128 {
        return Err(AudioError::TooLong);
    }
    let bytes = encode_pcm16(samples);
    Ok(base64_encode(bytes.as_slice()))
}

/// Decodes base64 text of PCM16 bytes into samples.
pub fn base64_decode_audio(base64_audio_data: &str) -> (r: Result<Vec<i16>, AudioError>)
    ensures
        match base64_decoded(base64_audio_data@) {
            Some(bytes) => r is Ok && r->Ok_0@ == pcm16_samples(bytes),
            None => r == Err::<Vec<i16>, AudioError>(AudioError::InvalidBase64),
        },
        forall|s: Seq<i16>|
            base64_audio_data@ == #[trigger] base64_of(pcm16_bytes(s)) ==> (r is Ok && r->Ok_0@ == s),
{
    proof {
        assert forall|s: Seq<i16>| base64_audio_data@ == #[trigger] base64_of(pcm16_bytes(s)) implies
            pcm16_samples(pcm16_bytes(s)) == s by {
            lemma_pcm16_round_trip(s);
        }
    }
    match base64_decode(base64_audio_data) {
        Ok(bytes) => Ok(decode_pcm16(bytes.as_slice())),
        Err(_) => Err(AudioError::InvalidBase64),
    }
}

/// Converts captured samples to the server's rate and layout and encodes them
/// as base64 PCM16 text.
pub fn convert_audio_to_server(samples: &[i16], sample_rate: u32, channels: u16) -> (r: Result<String, AudioError>)
    ensures
        match convert_error(sample_rate, channels, SERVER_SAMPLE_RATE, SERVER_CHANNELS) {
            Some(e) => r == Err::<String, AudioError>(AudioError::Convert(e)),
            None => {
                let out = converted(samples@, sample_rate, channels, SERVER_SAMPLE_RATE, SERVER_CHANNELS);
                if fits_output(samples@.len(), sample_rate, SERVER_SAMPLE_RATE) && base64_fits(2 * out.len()) {
                    r is Ok && r->Ok_0@ == base64_of(pcm16_bytes(out))
                } else {
                    r == Err::<String, AudioError>(AudioError::TooLong)
                }
            },
        },
{
    if let Some(e) = check_conversion(sample_rate, channels, SERVER_SAMPLE_RATE, SERVER_CHANNELS) {
        return Err(AudioError::Convert(e));
    }
    if !output_fits(samples.len(), sample_rate, SERVER_SAMPLE_RATE) {
        return Err(AudioError::TooLong);
    }
    match resample_and_convert_channels(samples, sample_rate, channels, SERVER_SAMPLE_RATE, SERVER_CHANNELS) {
        Ok(out) => base64_encode_audio(out.as_slice()),
        Err(e) => Err(AudioError::Convert(e)),
    }
}

/// What decoding server audio text and converting it to the given output
/// format yields.
pub open spec fn from_server_result(text: Seq<char>, sample_rate: u32, channels: u16) -> Result<Seq<i16>, AudioError> {
    match base64_decoded(text) {
        None => Err(AudioError::InvalidBase64),
        Some(bytes) => match convert_error(SERVER_SAMPLE_RATE, SERVER_CHANNELS, sample_rate, channels) {
            Some(e) => Err(AudioError::Convert(e)),
            None => if fits_output(pcm16_samples(bytes).len(), SERVER_SAMPLE_RATE, sample_rate) {
                Ok(converted(pcm16_samples(bytes), SERVER_SAMPLE_RATE, SERVER_CHANNELS, sample_rate, channels))
            } else {
                Err(AudioError::TooLong)
            },
        },
    }
}

/// Decodes base64 PCM16 text from the server and converts it to the given
/// output rate and channel count.
pub fn convert_audio_from_server(base64_audio_data: &str, sample_rate: u32, channels: u16) -> (r: Result<Vec<i16>, AudioError>)
    ensures
        match from_server_result(base64_audio_data@, sample_rate, channels) {
            Ok(s) => r is Ok && r->Ok_0@ == s,
            Err(e) => r == Err::<Vec<i16>, AudioError>(e),
        },
{
    let samples = match base64_decode_audio(base64_audio_data) {
        Ok(s) => s,
        Err(e) => return Err(e),
    };
    if let Some(e) = check_conversion(SERVER_SAMPLE_RATE, SERVER_CHANNELS, sample_rate, channels) {
        return Err(AudioError::Convert(e));
    }
    if !output_fits(samples.len(), SERVER_SAMPLE_RATE, sample_rate) {
        return Err(AudioError::TooLong);
    }
    match resample_and_convert_channels(samples.as_slice(), SERVER_SAMPLE_RATE, SERVER_CHANNELS, sample_rate, channels) {
        Ok(out) => Ok(out),
        Err(e) => Err(AudioError::Convert(e)),
    }
}

} // verus!
