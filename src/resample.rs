//! Linear-interpolation resampling followed by mono/stereo conversion.
//!
//! Samples are signed 16-bit PCM values. Stereo data is interleaved
//! (`[L, R, L, R, ...]`): each channel is resampled on its own, frame by
//! frame, and channel conversion is a separate step applied afterwards.
//! A trailing partial frame is not part of the input.

use vstd::prelude::*;

verus! {

/// Sample rate of the audio exchanged with the server, in Hz.
pub const SERVER_SAMPLE_RATE: u32 = 24000;

/// Channel count of the audio exchanged with the server.
pub const SERVER_CHANNELS: u16 = 1;

/// Why a conversion request was rejected.
#[derive(Debug, Clone, Copy, PartialEq, Eq, Structural)]
pub enum ConvertError {
    /// The source channel count is neither 1 nor 2.
    InputChannels,
    /// The destination channel count is neither 1 nor 2.
    OutputChannels,
    /// One of the two sample rates is zero.
    ZeroSampleRate,
}

pub open spec fn supported_channels(c: u16) -> bool {
    c == 1 || c == 2
}

/// Number of samples produced by resampling `n` samples from `src` Hz to `dst` Hz.
pub open spec fn resampled_len(n: nat, src: nat, dst: nat) -> nat {
    (n * dst / src) as nat
}

/// Index of the source sample at or before destination index `i`.
pub open spec fn floor_index(src: nat, dst: nat, i: nat) -> nat {
    (i * src / dst) as nat
}

/// Value of destination sample `i`: the source position is `i * src / dst`;
/// the two bracketing samples are blended by the fractional part of that
/// position, and the blend is rounded down. The upper neighbour is clamped to
/// the last source sample.
pub open spec fn interpolate(s: Seq<i16>, src: nat, dst: nat, i: nat) -> int {
    let lo = floor_index(src, dst, i) as int;
    let frac = ((i * src) as int) % (dst as int);
    let hi: int = if lo + 1 < s.len() { lo + 1 } else { s.len() - 1 };
    (s[lo] * (dst - frac) + s[hi] * frac) / (dst as int)
}

/// Channel `c` of interleaved data with `ch` channels: one sample per whole frame.
pub open spec fn channel_of(s: Seq<i16>, ch: nat, c: nat) -> Seq<i16> {
    Seq::new(s.len() / ch, |k: int| s[k * ch + c])
}

/// The resampling step alone: every channel of the interleaved data is
/// resampled over whole frames, and the results are interleaved again.
pub open spec fn resample_seq(s: Seq<i16>, ch: nat, src: nat, dst: nat) -> Seq<i16> {
    Seq::new(
        resampled_len(s.len() / ch, src, dst) * ch,
        |j: int| interpolate(channel_of(s, ch, (j % ch as int) as nat), src, dst, (j / ch as int) as nat) as i16,
    )
}

/// Mono to stereo: every sample is written to both interleaved slots.
pub open spec fn mono_to_stereo(s: Seq<i16>) -> Seq<i16> {
    Seq::new(2 * s.len(), |i: int| s[i / 2])
}

/// Stereo to mono: the left and right sample of each frame are averaged
/// (rounded down).
pub open spec fn stereo_to_mono(s: Seq<i16>) -> Seq<i16> {
    Seq::new(s.len() / 2, |k: int| ((s[2 * k] + s[2 * k + 1]) / 2) as i16)
}

pub open spec fn convert_channels(s: Seq<i16>, from: u16, to: u16) -> Seq<i16> {
    if from == 1 && to == 2 {
        mono_to_stereo(s)
    } else if from == 2 && to == 1 {
        stereo_to_mono(s)
    } else {
        s
    }
}

/// The full conversion on valid parameters: resampling, then channel conversion.
pub open spec fn converted(s: Seq<i16>, src_rate: u32, src_ch: u16, dst_rate: u32, dst_ch: u16) -> Seq<i16> {
    convert_channels(resample_seq(s, src_ch as nat, src_rate as nat, dst_rate as nat), src_ch, dst_ch)
}

/// The error reported for the given parameters, if any; checks run in this order.
pub open spec fn convert_error(src_rate: u32, src_ch: u16, dst_rate: u32, dst_ch: u16) -> Option<ConvertError> {
    if !supported_channels(src_ch) {
        Some(ConvertError::InputChannels)
    } else if !supported_channels(dst_ch) {
        Some(ConvertError::OutputChannels)
    } else if src_rate == 0 || dst_rate == 0 {
        Some(ConvertError::ZeroSampleRate)
    } else {
        None
    }
}

/// Number of frames in the converted sequence: the input's whole frames
/// scaled by the rate ratio, rounded down.
pub open spec fn converted_frames(n: nat, src_rate: u32, src_ch: u16, dst_rate: u32) -> nat {
    resampled_len(n / (src_ch as nat), src_rate as nat, dst_rate as nat)
}

/// Output lengths the machine can hold.
pub open spec fn fits_output(n: nat, src_rate: u32, dst_rate: u32) -> bool {
    src_rate > 0 ==> 2 * resampled_len(n, src_rate as nat, dst_rate as nat) <= usize::MAX
}

proof fn lemma_floor_index_in_bounds(n: nat, src: nat, dst: nat, i: nat)
    requires
        src > 0,
        dst > 0,
        i < resampled_len(n, src, dst),
    ensures
        floor_index(src, dst, i) < n,
        i * src < n * dst,
{
    let m = n * dst / src;
    assert(m * src <= n * dst) by (nonlinear_arith)
        requires m == n * dst / src, src > 0;
    assert(i * src < m * src) by (nonlinear_arith)
        requires i < m, src > 0;
    assert((i * src) / dst < n) by (nonlinear_arith)
        requires i * src < n * dst, dst > 0;
}

proof fn lemma_blend_in_range(a: int, b: int, d: int, f: int)
    requires
        -32768 <= a <= 32767,
        -32768 <= b <= 32767,
        0 <= f < d,
    ensures
        -32768 <= (a * (d - f) + b * f) / d <= 32767,
{
    let x = a * (d - f) + b * f;
    assert(-32768 * d <= x <= 32767 * d) by (nonlinear_arith)
        requires
            x == a * (d - f) + b * f,
            -32768 <= a <= 32767,
            -32768 <= b <= 32767,
            0 <= f < d;
    assert(-32768 <= x / d <= 32767) by (nonlinear_arith)
        requires -32768 * d <= x <= 32767 * d, d > 0;
}

/// Computes one interpolated destination sample.
fn interpolate_at(samples: &[i16], ch: usize, c: usize, src_rate: u32, dst_rate: u32, i: usize) -> (r: i16)
    requires
        src_rate > 0,
        dst_rate > 0,
        0 < ch <= 2,
        c < ch,
        i < resampled_len(samples@.len() / ch as nat, src_rate as nat, dst_rate as nat),
    ensures
        r as int == interpolate(channel_of(samples@, ch as nat, c as nat), src_rate as nat, dst_rate as nat, i as nat),
{
    let ghost s = channel_of(samples@, ch as nat, c as nat);
    let ghost src = src_rate as nat;
    let ghost dst = dst_rate as nat;
    let n = samples.len() / ch;
    proof {
        lemma_floor_index_in_bounds(s.len(), src, dst, i as nat);
    }
    assert((i as u128) * (src_rate as u128) <= 0x1_0000_0000_0000_0000 * 0x1_0000_0000) by (nonlinear_arith)
        requires i < 0x1_0000_0000_0000_0000, src_rate < 0x1_0000_0000;
    let pos: u128 = i as u128 * src_rate as u128;
    let lo_wide: u128 = pos / dst_rate as u128;
    let frac: u128 = pos % dst_rate as u128;
    let lo: usize = lo_wide as usize;
    let hi: usize = if lo + 1 < n { lo + 1 } else { n - 1 };
    assert(lo * ch + c < samples@.len() && hi * ch + c < samples@.len()) by (nonlinear_arith)
        requires lo < n, hi < n, n as int == samples@.len() as int / ch as int, c < ch, ch > 0;
    // Shift both samples into [0, 65535] so that unsigned division rounds down.
    let a: u128 = (samples[lo * ch + c] as i32 + 32768) as u128;
    let b: u128 = (samples[hi * ch + c] as i32 + 32768) as u128;
    let w_lo: u128 = dst_rate as u128 - frac;
    assert(a * w_lo <= 65535 * 0x1_0000_0000) by (nonlinear_arith)
        requires a <= 65535, w_lo <= 0x1_0000_0000;
    assert(b * frac <= 65535 * 0x1_0000_0000) by (nonlinear_arith)
        requires b <= 65535, frac <= 0x1_0000_0000;
    let shifted: u128 = (a * w_lo + b * frac) / dst_rate as u128;
    proof {
        let sa = s[lo as int] as int;
        let sb = s[hi as int] as int;
        let d = dst as int;
        let f = frac as int;
        assert(f == ((i * src) as int) % d);
        lemma_blend_in_range(sa, sb, d, f);
        // Adding 32768 to both samples adds exactly 32768 * d to the blend.
        assert((sa + 32768) * (d - f) + (sb + 32768) * f == (sa * (d - f) + sb * f) + 32768 * d)
            by (nonlinear_arith);
        vstd::arithmetic::div_mod::lemma_hoist_over_denominator(sa * (d - f) + sb * f, 32768, dst);
    }
    (shifted as i32 - 32768) as i16
}

/// The frame count after resampling never exceeds the sample count after
/// resampling the same data as one channel.
proof fn lemma_frames_bounded(n: nat, ch: nat, src: nat, dst: nat)
    requires
        ch > 0,
        src > 0,
    ensures
        resampled_len(n / ch, src, dst) <= resampled_len(n, src, dst),
{
    assert((n / ch) * dst <= n * dst) by (nonlinear_arith)
        requires ch > 0;
    vstd::arithmetic::div_mod::lemma_div_is_ordered(((n / ch) * dst) as int, (n * dst) as int, src as int);
}

/// Resamples interleaved data with `channels` channels from `src_rate` to
/// `dst_rate`, each channel on its own, by linear interpolation.
pub fn resample(samples: &[i16], channels: u16, src_rate: u32, dst_rate: u32) -> (r: Vec<i16>)
    requires
        1 <= channels <= 2,
        src_rate > 0,
        dst_rate > 0,
        fits_output(samples@.len(), src_rate, dst_rate),
    ensures
        r@ == resample_seq(samples@, channels as nat, src_rate as nat, dst_rate as nat),
{
    let ghost src = src_rate as nat;
    let ghost dst = dst_rate as nat;
    let ch: usize = channels as usize;
    let frames: usize = samples.len() / ch;
    proof {
        lemma_frames_bounded(samples@.len(), ch as nat, src, dst);
    }
    assert((frames as u128) * (dst_rate as u128) <= 0x1_0000_0000_0000_0000 * 0x1_0000_0000)
        by (nonlinear_arith)
        requires frames < 0x1_0000_0000_0000_0000, dst_rate < 0x1_0000_0000;
    let out_frames: usize = ((frames as u128 * dst_rate as u128) / src_rate as u128) as usize;
    assert(out_frames * ch <= 2 * out_frames) by (nonlinear_arith)
        requires ch <= 2;
    let out_len: usize = out_frames * ch;
    let mut out: Vec<i16> = Vec::with_capacity(out_len);
    let mut j: usize = 0;
    while j < out_len
        invariant
            src_rate > 0,
            dst_rate > 0,
            src == src_rate as nat,
            dst == dst_rate as nat,
            1 <= ch <= 2,
            ch == channels as nat,
            out_frames == resampled_len(samples@.len() / ch as nat, src, dst),
            out_len == out_frames * ch,
            j <= out_len,
            out@.len() == j,
            forall|k: int| 0 <= k < j ==> out@[k] == resample_seq(samples@, ch as nat, src, dst)[k],
        decreases out_len - j,
    {
        let i = j / ch;
        let c = j % ch;
        assert(i < out_frames) by (nonlinear_arith)
            requires i as int == j as int / ch as int, j < out_frames * ch, ch > 0;
        let v = interpolate_at(samples, ch, c, src_rate, dst_rate, i);
        out.push(v);
        j = j + 1;
    }
    assert(out@ =~= resample_seq(samples@, ch as nat, src, dst));
    out
}

/// Writes every sample into two interleaved slots.
pub fn mono_to_stereo_samples(samples: &[i16]) -> (r: Vec<i16>)
    requires
        2 * samples@.len() <= usize::MAX,
    ensures
        r@ == mono_to_stereo(samples@),
{
    let mut out: Vec<i16> = Vec::with_capacity(2 * samples.len());
    let mut k: usize = 0;
    while k < samples.len()
        invariant
            k <= samples@.len(),
            out@.len() == 2 * k,
            forall|j: int| 0 <= j < 2 * k ==> out@[j] == samples@[j / 2],
        decreases samples@.len() - k,
    {
        out.push(samples[k]);
        out.push(samples[k]);
        k = k + 1;
    }
    assert(out@ =~= mono_to_stereo(samples@));
    out
}

/// Average of two samples, rounded down.
fn average_pair(a: i16, b: i16) -> (r: i16)
    ensures
        r as int == (a + b) / 2,
{
    let sum: u32 = (a as i32 + 32768) as u32 + (b as i32 + 32768) as u32;
    proof {
        vstd::arithmetic::div_mod::lemma_hoist_over_denominator(a + b, 32768, 2);
    }
    ((sum / 2) as i32 - 32768) as i16
}

/// Averages the two samples of each stereo frame into one sample.
pub fn stereo_to_mono_samples(samples: &[i16]) -> (r: Vec<i16>)
    ensures
        r@ == stereo_to_mono(samples@),
{
    let n = samples.len();
    let mut out: Vec<i16> = Vec::with_capacity(n / 2);
    let mut k: usize = 0;
    while k < n / 2
        invariant
            n == samples@.len(),
            k <= n / 2,
            out@.len() == k,
            forall|j: int| 0 <= j < k ==> out@[j] == stereo_to_mono(samples@)[j],
        decreases n / 2 - k,
    {
        out.push(average_pair(samples[2 * k], samples[2 * k + 1]));
        k = k + 1;
    }
    assert(out@ =~= stereo_to_mono(samples@));
    out
}

/// Converts `samples` from `current_sample_rate` Hz and `current_num_channels`
/// channels to `target_sample_rate` Hz and `target_num_channels` channels.
///
/// Channel counts other than 1 and 2, and zero sample rates, are rejected.
pub fn resample_and_convert_channels(
    samples: &[i16],
    current_sample_rate: u32,
    current_num_channels: u16,
    target_sample_rate: u32,
    target_num_channels: u16,
) -> (r: Result<Vec<i16>, ConvertError>)
    requires
        fits_output(samples@.len(), current_sample_rate, target_sample_rate),
    ensures
        match convert_error(current_sample_rate, current_num_channels, target_sample_rate, target_num_channels) {
            Some(e) => r == Err::<Vec<i16>, ConvertError>(e),
            None => r is Ok && r->Ok_0@ == converted(
                samples@,
                current_sample_rate,
                current_num_channels,
                target_sample_rate,
                target_num_channels,
            ),
        },
{
    if current_num_channels != 1 && current_num_channels != 2 {
        return Err(ConvertError::InputChannels);
    }
    if target_num_channels != 1 && target_num_channels != 2 {
        return Err(ConvertError::OutputChannels);
    }
    if current_sample_rate == 0 || target_sample_rate == 0 {
        return Err(ConvertError::ZeroSampleRate);
    }
    proof {
        lemma_frames_bounded(samples@.len(), current_num_channels as nat, current_sample_rate as nat, target_sample_rate as nat);
    }
    let resampled = resample(samples, current_num_channels, current_sample_rate, target_sample_rate);
    if current_num_channels == 1 && target_num_channels == 2 {
        Ok(mono_to_stereo_samples(resampled.as_slice()))
    } else if current_num_channels == 2 && target_num_channels == 1 {
        Ok(stereo_to_mono_samples(resampled.as_slice()))
    } else {
        Ok(resampled)
    }
}

/// A conversion's output is made of whole frames of the target layout: as
/// many as the input has whole frames, scaled by the rate ratio. Going from
/// stereo to mono, each output sample mixes the resampled left and right
/// sample of one frame; going from mono to stereo, both slots of a frame hold
/// the same sample.
pub proof fn lemma_converted_frames(s: Seq<i16>, src_rate: u32, src_ch: u16, dst_rate: u32, dst_ch: u16)
    requires
        convert_error(src_rate, src_ch, dst_rate, dst_ch) is None,
    ensures
        converted(s, src_rate, src_ch, dst_rate, dst_ch).len() == converted_frames(s.len(), src_rate, src_ch, dst_rate)
            * dst_ch,
        src_ch == 2 && dst_ch == 1 ==> forall|k: int|
            0 <= k < converted_frames(s.len(), src_rate, src_ch, dst_rate) ==> #[trigger] converted(
                s,
                src_rate,
                src_ch,
                dst_rate,
                dst_ch,
            )[k] == (interpolate(channel_of(s, 2, 0), src_rate as nat, dst_rate as nat, k as nat) as i16
                + interpolate(channel_of(s, 2, 1), src_rate as nat, dst_rate as nat, k as nat) as i16) / 2,
        src_ch == 1 && dst_ch == 2 ==> forall|k: int|
            0 <= k < converted_frames(s.len(), src_rate, src_ch, dst_rate) ==> #[trigger] converted(
                s,
                src_rate,
                src_ch,
                dst_rate,
                dst_ch,
            )[2 * k] == converted(s, src_rate, src_ch, dst_rate, dst_ch)[2 * k + 1],
{
    let m = converted_frames(s.len(), src_rate, src_ch, dst_rate);
    let r = resample_seq(s, src_ch as nat, src_rate as nat, dst_rate as nat);
    if src_ch == 2 && dst_ch == 1 {
        assert forall|k: int| 0 <= k < m implies #[trigger] converted(s, src_rate, src_ch, dst_rate, dst_ch)[k]
            == (interpolate(channel_of(s, 2, 0), src_rate as nat, dst_rate as nat, k as nat) as i16
            + interpolate(channel_of(s, 2, 1), src_rate as nat, dst_rate as nat, k as nat) as i16) / 2 by {
            assert((2 * k) % 2 == 0 && (2 * k) / 2 == k && (2 * k + 1) % 2 == 1 && (2 * k + 1) / 2 == k);
        }
    }
}

proof fn lemma_blend_between(a: int, b: int, d: int, f: int, lo: int, hi: int)
    requires
        lo <= a <= hi,
        lo <= b <= hi,
        0 <= f < d,
    ensures
        lo <= (a * (d - f) + b * f) / d <= hi,
{
    let x = a * (d - f) + b * f;
    assert(lo * d <= x <= hi * d) by (nonlinear_arith)
        requires x == a * (d - f) + b * f, lo <= a <= hi, lo <= b <= hi, 0 <= f < d;
    assert(lo <= x / d <= hi) by (nonlinear_arith)
        requires lo * d <= x <= hi * d, d > 0;
}

/// Every converted sample lies within the range of the input samples:
/// interpolation blends two inputs, and mixing averages two blends.
pub proof fn lemma_converted_in_range(
    s: Seq<i16>,
    src_rate: u32,
    src_ch: u16,
    dst_rate: u32,
    dst_ch: u16,
    lo: int,
    hi: int,
)
    requires
        convert_error(src_rate, src_ch, dst_rate, dst_ch) is None,
        forall|i: int| 0 <= i < s.len() ==> lo <= #[trigger] s[i] <= hi,
    ensures
        forall|j: int|
            0 <= j < converted(s, src_rate, src_ch, dst_rate, dst_ch).len() ==> lo <= #[trigger] converted(
                s,
                src_rate,
                src_ch,
                dst_rate,
                dst_ch,
            )[j] <= hi,
{
    let ch = src_ch as nat;
    let src = src_rate as nat;
    let dst = dst_rate as nat;
    let r = resample_seq(s, ch, src, dst);
    assert forall|j: int| 0 <= j < r.len() implies lo <= #[trigger] r[j] <= hi by {
        let c = (j % ch as int) as nat;
        let i = (j / ch as int) as nat;
        let chan = channel_of(s, ch, c);
        let frames = s.len() / ch;
        assert((j / ch as int) < resampled_len(frames, src, dst)) by (nonlinear_arith)
            requires j < resampled_len(frames, src, dst) * ch, ch > 0, j >= 0;
        lemma_floor_index_in_bounds(frames, src, dst, i);
        let l = floor_index(src, dst, i) as int;
        let h: int = if l + 1 < chan.len() { l + 1 } else { chan.len() - 1 };
        let f = ((i * src) as int) % (dst as int);
        assert(l * ch + c < s.len() && h * ch + c < s.len()) by (nonlinear_arith)
            requires 0 <= l < frames, 0 <= h < frames, frames == s.len() / ch, c < ch, ch > 0;
        assert(lo <= chan[l] <= hi && lo <= chan[h] <= hi);
        lemma_blend_between(chan[l] as int, chan[h] as int, dst as int, f, lo, hi);
        lemma_blend_in_range(chan[l] as int, chan[h] as int, dst as int, f);
    }
    if src_ch == 2 && dst_ch == 1 {
        assert forall|k: int| 0 <= k < r.len() / 2 implies lo <= #[trigger] stereo_to_mono(r)[k] <= hi by {
            assert(lo <= r[2 * k] <= hi && lo <= r[2 * k + 1] <= hi);
        }
    }
    if src_ch == 1 && dst_ch == 2 {
        assert forall|k: int| 0 <= k < 2 * r.len() implies lo <= #[trigger] mono_to_stereo(r)[k] <= hi by {
            assert(lo <= r[k / 2] <= hi);
        }
    }
}

/// Conversion is a function of its inputs: two conversions of the same
/// samples with the same parameters give the same output.
pub proof fn lemma_convert_deterministic(
    s: Seq<i16>,
    src_rate: u32,
    src_ch: u16,
    dst_rate: u32,
    dst_ch: u16,
    first: Seq<i16>,
    second: Seq<i16>,
)
    requires
        convert_error(src_rate, src_ch, dst_rate, dst_ch) is None,
        first == converted(s, src_rate, src_ch, dst_rate, dst_ch),
        second == converted(s, src_rate, src_ch, dst_rate, dst_ch),
    ensures
        first == second,
{
}

/// The validation step of a conversion on its own.
pub fn check_conversion(src_rate: u32, src_ch: u16, dst_rate: u32, dst_ch: u16) -> (r: Option<ConvertError>)
    ensures
        r == convert_error(src_rate, src_ch, dst_rate, dst_ch),
{
    if src_ch != 1 && src_ch != 2 {
        Some(ConvertError::InputChannels)
    } else if dst_ch != 1 && dst_ch != 2 {
        Some(ConvertError::OutputChannels)
    } else if src_rate == 0 || dst_rate == 0 {
        Some(ConvertError::ZeroSampleRate)
    } else {
        None
    }
}

/// Whether converting `n` samples between the two rates gives an output the
/// machine can hold.
pub fn output_fits(n: usize, src_rate: u32, dst_rate: u32) -> (r: bool)
    ensures
        r == fits_output(n as nat, src_rate, dst_rate),
{
    if src_rate == 0 {
        return true;
    }
    assert((n as u128) * (dst_rate as u128) <= 0x1_0000_0000_0000_0000 * 0x1_0000_0000) by (nonlinear_arith)
        requires n < 0x1_0000_0000_0000_0000, dst_rate < 0x1_0000_0000;
    let m: u128 = (n as u128 * dst_rate as u128) / src_rate as u128;
    2 * m <= usize::MAX as u128
}

} // verus!
