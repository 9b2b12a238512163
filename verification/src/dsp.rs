//! Signal kernels: the conversion between interleaved and planar stereo, and
//! the short-time Fourier transform and its inverse over a flat, channel-major
//! spectrogram.
//!
//! Every function is generic over the sample type `T`. The functions frame,
//! lay out and accumulate samples; the arithmetic on one sample or one frame
//! (windowing, the Fourier transform of a frame, sums and quotients) is done
//! by kernels that the caller supplies, and the contracts say which kernel was
//! applied to which values.

use vstd::arithmetic::div_mod::lemma_fundamental_div_mod_converse;
use vstd::prelude::*;
use vstd::slice::*;

verus! {

/// The frame at position `i` of the planar form of `interleaved`.
pub open spec fn planar_frame<T>(interleaved: Seq<T>, channels: u16, i: int) -> Seq<T> {
    if channels == 1 {
        seq![interleaved[i], interleaved[i]]
    } else {
        seq![interleaved[2 * i], interleaved[2 * i + 1]]
    }
}

/// The number of stereo frames that `len` interleaved samples hold.
pub open spec fn planar_len(len: nat, channels: u16) -> nat {
    if channels == 1 {
        len
    } else {
        len / 2
    }
}

/// Converts interleaved samples to stereo frames. A mono signal is widened by
/// putting each sample on both sides; any other channel count is read as
/// interleaved stereo, and a trailing sample without a partner is dropped.
pub fn to_planar_stereo<T: Copy>(interleaved: &[T], channels: u16) -> (planar: Vec<[T; 2]>)
    ensures
        planar@.len() == planar_len(interleaved@.len(), channels),
        forall|i: int|
            0 <= i < planar@.len() ==> (#[trigger] planar@[i])@ == planar_frame(
                interleaved@,
                channels,
                i,
            ),
{
    let mut out: Vec<[T; 2]> = Vec::new();
    if channels == 1 {
        let mut i: usize = 0;
        while i < interleaved.len()
            invariant
                i <= interleaved@.len(),
                channels == 1,
                out@.len() == i,
                forall|k: int|
                    0 <= k < i ==> (#[trigger] out@[k])@ == planar_frame(interleaved@, channels, k),
            decreases interleaved@.len() - i,
        {
            let x = interleaved[i];
            let frame = [x, x];
            assert(frame@ =~= planar_frame(interleaved@, channels, i as int));
            out.push(frame);
            i += 1;
        }
    } else {
        let n: usize = interleaved.len() / 2;
        let mut i: usize = 0;
        while i < n
            invariant
                i <= n,
                n == interleaved@.len() / 2,
                interleaved@.len() <= usize::MAX,
                channels != 1,
                out@.len() == i,
                forall|k: int|
                    0 <= k < i ==> (#[trigger] out@[k])@ == planar_frame(interleaved@, channels, k),
            decreases n - i,
        {
            let frame = [interleaved[2 * i], interleaved[2 * i + 1]];
            assert(frame@ =~= planar_frame(interleaved@, channels, i as int));
            out.push(frame);
            i += 1;
        }
    }
    out
}

/// Decoded audio: interleaved samples, the sample rate in Hz, and the number
/// of channels.
#[derive(Debug, Clone, PartialEq)]
pub struct AudioData<T> {
    pub samples: Vec<T>,
    pub sample_rate: u32,
    pub channels: u16,
}

impl<T: Copy> AudioData<T> {
    /// There are one or two channels, and the samples are whole frames.
    pub open spec fn wf(&self) -> bool {
        &&& self.channels == 1 || self.channels == 2
        &&& self.samples@.len() % (self.channels as nat) == 0
    }

    /// The number of frames: the samples divided by the channels.
    pub open spec fn frame_count(&self) -> nat {
        self.samples@.len() / (self.channels as nat)
    }

    /// The number of frames.
    pub fn frames(&self) -> (n: usize)
        requires
            self.wf(),
        ensures
            n == self.frame_count(),
    {
        self.samples.len() / (self.channels as usize)
    }

    /// The audio as stereo frames, one for each frame of the audio; a mono
    /// signal is put on both sides.
    pub fn to_planar(&self) -> (planar: Vec<[T; 2]>)
        requires
            self.wf(),
        ensures
            planar@.len() == self.frame_count(),
            forall|i: int|
                0 <= i < planar@.len() ==> (#[trigger] planar@[i])@ == planar_frame(
                    self.samples@,
                    self.channels,
                    i,
                ),
    {
        to_planar_stereo(self.samples.as_slice(), self.channels)
    }
}

/// The interleaved form of stereo frames: left and right sample of each frame
/// in turn.
pub open spec fn interleaved<T>(planar: Seq<[T; 2]>) -> Seq<T> {
    Seq::new(2 * planar.len(), |i: int| planar[i / 2]@[i % 2])
}

/// Interleaves stereo frames, as they are written to a file.
pub fn interleave_stereo<T: Copy>(planar: &[[T; 2]]) -> (out: Vec<T>)
    ensures
        out@ == interleaved(planar@),
{
    let n: usize = planar.len();
    let mut out: Vec<T> = Vec::new();
    let mut i: usize = 0;
    while i < n
        invariant
            i <= n,
            n == planar@.len(),
            out@.len() == 2 * i,
            forall|k: int| 0 <= k < 2 * i ==> #[trigger] out@[k] == planar@[k / 2]@[k % 2],
        decreases n - i,
    {
        let frame = planar[i];
        out.push(frame[0]);
        out.push(frame[1]);
        i += 1;
    }
    assert(out@ =~= interleaved(planar@));
    out
}

/// Interleaving and converting back to frames gives the frames again.
pub proof fn lemma_planar_of_interleaved<T>(planar: Seq<[T; 2]>, i: int)
    requires
        0 <= i < planar.len(),
    ensures
        planar_len(interleaved(planar).len(), 2) == planar.len(),
        planar_frame(interleaved(planar), 2, i) == seq![planar[i]@[0], planar[i]@[1]],
{
}

/// A sequence of `len` copies of `value`.
pub open spec fn constant<T>(len: nat, value: T) -> Seq<T> {
    Seq::new(len, |i: int| value)
}

/// A vector of `len` copies of `value`.
pub fn filled<T: Copy>(len: usize, value: T) -> (out: Vec<T>)
    ensures
        out@ == constant(len as nat, value),
{
    let mut out: Vec<T> = Vec::new();
    let mut i: usize = 0;
    while i < len
        invariant
            i <= len,
            out@ == constant(i as nat, value),
        decreases len - i,
    {
        out.push(value);
        assert(out@ =~= constant((i + 1) as nat, value));
        i += 1;
    }
    out
}

/// `out` holds, sample by sample, what `times` made of a sample and its
/// weight, as far as both reach.
pub open spec fn weighted<T, W: Fn(T, T) -> T>(
    times: &W,
    samples: Seq<T>,
    weights: Seq<T>,
    out: Seq<T>,
) -> bool {
    &&& out.len() == if samples.len() <= weights.len() {
        samples.len()
    } else {
        weights.len()
    }
    &&& forall|i: int|
        #![trigger out[i]]
        0 <= i < out.len() ==> call_ensures(times, (samples[i], weights[i]), out[i])
}

/// Weighs each sample with the weight at its place.
pub fn weigh<T: Copy, W: Fn(T, T) -> T>(samples: &[T], weights: &[T], times: &W) -> (out: Vec<T>)
    requires
        forall|a: T, b: T| call_requires(times, (a, b)),
    ensures
        weighted(times, samples@, weights@, out@),
{
    let n: usize = if samples.len() <= weights.len() {
        samples.len()
    } else {
        weights.len()
    };
    let mut out: Vec<T> = Vec::new();
    let mut i: usize = 0;
    while i < n
        invariant
            i <= n,
            n <= samples@.len(),
            n <= weights@.len(),
            out@.len() == i,
            forall|a: T, b: T| call_requires(times, (a, b)),
            forall|k: int|
                #![trigger out@[k]]
                0 <= k < i ==> call_ensures(times, (samples@[k], weights@[k]), out@[k]),
        decreases n - i,
    {
        let v = times(samples[i], weights[i]);
        out.push(v);
        i += 1;
    }
    out
}

/// `out` holds, sample by sample, what `times` made of a sample and `factor`.
pub open spec fn scaled<T, W: Fn(T, T) -> T>(
    times: &W,
    samples: Seq<T>,
    factor: T,
    out: Seq<T>,
) -> bool {
    &&& out.len() == samples.len()
    &&& forall|i: int|
        #![trigger out[i]]
        0 <= i < out.len() ==> call_ensures(times, (samples[i], factor), out[i])
}

/// Scales each sample by `factor`.
pub fn scale_by<T: Copy, W: Fn(T, T) -> T>(samples: &[T], factor: T, times: &W) -> (out: Vec<T>)
    requires
        forall|a: T, b: T| call_requires(times, (a, b)),
    ensures
        scaled(times, samples@, factor, out@),
{
    let n: usize = samples.len();
    let mut out: Vec<T> = Vec::new();
    let mut i: usize = 0;
    while i < n
        invariant
            i <= n,
            n == samples@.len(),
            out@.len() == i,
            forall|a: T, b: T| call_requires(times, (a, b)),
            forall|k: int|
                #![trigger out@[k]]
                0 <= k < i ==> call_ensures(times, (samples@[k], factor), out@[k]),
        decreases n - i,
    {
        let v = times(samples[i], factor);
        out.push(v);
        i += 1;
    }
    out
}

/// `x` with `pad` copies of `zero` before it and after it.
pub open spec fn padded<T>(x: Seq<T>, pad: nat, zero: T) -> Seq<T> {
    constant(pad, zero) + x + constant(pad, zero)
}

/// Center-pads a signal: `pad` zeros on both sides.
pub fn pad_centered<T: Copy>(x: &[T], pad: usize, zero: T) -> (out: Vec<T>)
    requires
        x@.len() + 2 * pad <= usize::MAX,
    ensures
        out@ == padded(x@, pad as nat, zero),
{
    let mut out: Vec<T> = filled(pad, zero);
    let n: usize = x.len();
    let mut i: usize = 0;
    while i < n
        invariant
            i <= n,
            n == x@.len(),
            out@ == constant(pad as nat, zero) + x@.subrange(0, i as int),
        decreases n - i,
    {
        out.push(x[i]);
        assert(out@ =~= constant(pad as nat, zero) + x@.subrange(0, i + 1));
        i += 1;
    }
    assert(x@.subrange(0, n as int) =~= x@);
    let mut k: usize = 0;
    while k < pad
        invariant
            k <= pad,
            out@ == constant(pad as nat, zero) + x@ + constant(k as nat, zero),
        decreases pad - k,
    {
        out.push(zero);
        assert(out@ =~= constant(pad as nat, zero) + x@ + constant((k + 1) as nat, zero));
        k += 1;
    }
    out
}

/// The number of frequency bins that a transform of size `n_fft` keeps: the
/// positive frequencies, without the Nyquist bin.
pub open spec fn bins_kept(n_fft: int) -> int {
    n_fft / 2
}

/// The number of frames of a center-padded transform over `t` samples.
pub open spec fn frame_count(t: int, hop: int) -> int {
    1 + t / hop
}

/// The dimensions `(bins, frames)` of the spectrogram of a signal of `t`
/// samples.
pub fn stft_dims(t: usize, n_fft: usize, hop: usize) -> (dims: (usize, usize))
    requires
        hop > 0,
        frame_count(t as int, hop as int) <= usize::MAX,
    ensures
        dims.0 == bins_kept(n_fft as int),
        dims.1 == frame_count(t as int, hop as int),
{
    (n_fft / 2, 1 + t / hop)
}

/// A window of the model's native length has 2048 bins and 336 frames.
pub proof fn lemma_native_window_dims()
    ensures
        bins_kept(4096) == 2048,
        frame_count(343_980, 1024) == 336,
{
}

/// The place of channel `c`, bin `f`, frame `fr` in a flat spectrogram of
/// `f_bins` bins and `frames` frames per channel.
pub open spec fn cac_index(c: int, f: int, fr: int, f_bins: int, frames: int) -> int {
    c * (f_bins * frames) + f * frames + fr
}

/// The flat layout is row-major: an index lies inside the buffer, and names its
/// frame and its channel and bin.
pub proof fn lemma_cac_index(c: int, f: int, fr: int, f_bins: int, frames: int)
    requires
        0 <= c < 4,
        0 <= f < f_bins,
        0 <= fr < frames,
    ensures
        0 <= cac_index(c, f, fr, f_bins, frames) < 4 * (f_bins * frames),
        cac_index(c, f, fr, f_bins, frames) % frames == fr,
        cac_index(c, f, fr, f_bins, frames) / frames == c * f_bins + f,
{
    let row = c * f_bins + f;
    assert(cac_index(c, f, fr, f_bins, frames) == row * frames + fr) by (nonlinear_arith)
        requires
            row == c * f_bins + f,
            cac_index(c, f, fr, f_bins, frames) == c * (f_bins * frames) + f * frames + fr,
    ;
    assert(0 <= row * frames && row * frames + frames <= 4 * (f_bins * frames))
        by (nonlinear_arith)
        requires
            0 <= c < 4,
            0 <= f < f_bins,
            0 < frames,
            row == c * f_bins + f,
    ;
    lemma_fundamental_div_mod_converse(cac_index(c, f, fr, f_bins, frames), frames, row, fr);
}

/// Two places in the flat layout are the same only for the same channel, bin
/// and frame.
pub proof fn lemma_cac_index_injective(
    c1: int,
    f1: int,
    fr1: int,
    c2: int,
    f2: int,
    fr2: int,
    f_bins: int,
    frames: int,
)
    requires
        0 <= c1 < 4,
        0 <= c2 < 4,
        0 <= f1 < f_bins,
        0 <= f2 < f_bins,
        0 <= fr1 < frames,
        0 <= fr2 < frames,
        cac_index(c1, f1, fr1, f_bins, frames) == cac_index(c2, f2, fr2, f_bins, frames),
    ensures
        c1 == c2,
        f1 == f2,
        fr1 == fr2,
{
    lemma_cac_index(c1, f1, fr1, f_bins, frames);
    lemma_cac_index(c2, f2, fr2, f_bins, frames);
    assert(c1 == c2 && f1 == f2) by (nonlinear_arith)
        requires
            c1 * f_bins + f1 == c2 * f_bins + f2,
            0 <= f1 < f_bins,
            0 <= f2 < f_bins,
            0 <= c1,
            0 <= c2,
    ;
}

/// The bins of channel `c` in frame `fr`, in order.
pub open spec fn column<T>(spec_cac: Seq<T>, c: int, fr: int, f_bins: int, frames: int) -> Seq<T> {
    Seq::new(f_bins as nat, |f: int| spec_cac[cac_index(c, f, fr, f_bins, frames)])
}

/// `bins`, cut or filled up with `zero` to `f_bins` entries.
pub open spec fn fitted<T>(bins: Seq<T>, f_bins: int, zero: T) -> Seq<T> {
    Seq::new(
        f_bins as nat,
        |f: int|
            if f < bins.len() {
                bins[f]
            } else {
                zero
            },
    )
}

/// Reads the bins of channel `c` in frame `fr`.
pub fn read_column<T: Copy>(
    spec_cac: &[T],
    c: usize,
    fr: usize,
    f_bins: usize,
    frames: usize,
) -> (bins: Vec<T>)
    requires
        c < 4,
        fr < frames,
        4 * (f_bins * frames) <= spec_cac@.len(),
    ensures
        bins@ == column(spec_cac@, c as int, fr as int, f_bins as int, frames as int),
{
    let total: usize = spec_cac.len();
    assert(f_bins * frames <= total) by (nonlinear_arith)
        requires
            4 * (f_bins * frames) <= total,
    ;
    let plane: usize = f_bins * frames;
    let mut bins: Vec<T> = Vec::new();
    let mut f: usize = 0;
    while f < f_bins
        invariant
            f <= f_bins,
            c < 4,
            fr < frames,
            plane == f_bins * frames,
            4 * plane <= total,
            total == spec_cac@.len(),
            bins@.len() == f,
            forall|k: int|
                0 <= k < f ==> bins@[k] == spec_cac@[cac_index(
                    c as int,
                    k,
                    fr as int,
                    f_bins as int,
                    frames as int,
                )],
        decreases f_bins - f,
    {
        proof {
            lemma_cac_index(c as int, f as int, fr as int, f_bins as int, frames as int);
            assert(0 <= f * frames) by (nonlinear_arith);
        }
        let idx: usize = c * plane + f * frames + fr;
        bins.push(spec_cac[idx]);
        f += 1;
    }
    assert(bins@ =~= column(spec_cac@, c as int, fr as int, f_bins as int, frames as int));
    bins
}

/// Writes `bins` as the bins of channel `c` in frame `fr`; bins that `bins`
/// lacks are written as `zero`. Nothing outside that column changes.
pub fn write_column<T: Copy>(
    spec_cac: &mut Vec<T>,
    bins: &[T],
    c: usize,
    fr: usize,
    f_bins: usize,
    frames: usize,
    zero: T,
)
    requires
        c < 4,
        fr < frames,
        4 * (f_bins * frames) <= old(spec_cac)@.len(),
    ensures
        final(spec_cac)@.len() == old(spec_cac)@.len(),
        column(final(spec_cac)@, c as int, fr as int, f_bins as int, frames as int) == fitted(
            bins@,
            f_bins as int,
            zero,
        ),
        forall|j: int|
            0 <= j < old(spec_cac)@.len() && !(j % (frames as int) == fr && c * f_bins <= j / (
            frames as int) < (c + 1) * f_bins) ==> final(spec_cac)@[j] == old(spec_cac)@[j],
{
    let total: usize = spec_cac.len();
    assert(f_bins * frames <= total) by (nonlinear_arith)
        requires
            4 * (f_bins * frames) <= total,
    ;
    let plane: usize = f_bins * frames;
    let n: usize = bins.len();
    let mut f: usize = 0;
    while f < f_bins
        invariant
            f <= f_bins,
            c < 4,
            fr < frames,
            plane == f_bins * frames,
            4 * plane <= total,
            total == spec_cac@.len(),
            total == old(spec_cac)@.len(),
            n == bins@.len(),
            forall|k: int|
                0 <= k < f ==> #[trigger] spec_cac@[cac_index(
                    c as int,
                    k,
                    fr as int,
                    f_bins as int,
                    frames as int,
                )] == fitted(bins@, f_bins as int, zero)[k],
            forall|j: int|
                0 <= j < total && !(j % (frames as int) == fr && c * f_bins <= j / (frames as int)
                    < c * f_bins + f) ==> spec_cac@[j] == old(spec_cac)@[j],
        decreases f_bins - f,
    {
        proof {
            lemma_cac_index(c as int, f as int, fr as int, f_bins as int, frames as int);
            assert(0 <= f * frames) by (nonlinear_arith);
            assert forall|k: int| 0 <= k < f implies 0 <= #[trigger] cac_index(
                c as int,
                k,
                fr as int,
                f_bins as int,
                frames as int,
            ) < total && cac_index(c as int, k, fr as int, f_bins as int, frames as int)
                != cac_index(c as int, f as int, fr as int, f_bins as int, frames as int) by {
                lemma_cac_index(c as int, k, fr as int, f_bins as int, frames as int);
            }
        }
        let idx: usize = c * plane + f * frames + fr;
        let v = if f < n {
            bins[f]
        } else {
            zero
        };
        spec_cac.set(idx, v);
        f += 1;
    }
    assert(c * f_bins + f_bins == (c + 1) * f_bins) by (nonlinear_arith);
    assert(column(spec_cac@, c as int, fr as int, f_bins as int, frames as int) =~= fitted(
        bins@,
        f_bins as int,
        zero,
    ));
}

/// A column other than the one that was written still holds what it held.
pub proof fn lemma_column_kept<T>(
    before: Seq<T>,
    after: Seq<T>,
    c: int,
    fr: int,
    written_c: int,
    written_fr: int,
    f_bins: int,
    frames: int,
)
    requires
        0 <= c < 4,
        0 <= fr < frames,
        0 <= f_bins,
        c != written_c || fr != written_fr,
        before.len() == after.len(),
        4 * (f_bins * frames) <= before.len(),
        forall|j: int|
            0 <= j < before.len() && !(j % frames == written_fr && written_c * f_bins <= j / frames
                < (written_c + 1) * f_bins) ==> after[j] == before[j],
    ensures
        column(after, c, fr, f_bins, frames) == column(before, c, fr, f_bins, frames),
{
    assert forall|f: int| 0 <= f < f_bins implies after[#[trigger] cac_index(
        c,
        f,
        fr,
        f_bins,
        frames,
    )] == before[cac_index(c, f, fr, f_bins, frames)] by {
        lemma_cac_index(c, f, fr, f_bins, frames);
        if c != written_c {
            if written_c < c {
                assert((written_c + 1) * f_bins <= c * f_bins) by (nonlinear_arith)
                    requires
                        written_c + 1 <= c,
                        0 <= f_bins,
                ;
            } else {
                assert((c + 1) * f_bins <= written_c * f_bins) by (nonlinear_arith)
                    requires
                        c + 1 <= written_c,
                        0 <= f_bins,
                ;
                assert(c * f_bins + f < (c + 1) * f_bins) by (nonlinear_arith)
                    requires
                        f < f_bins,
                ;
            }
        }
    }
    assert(column(after, c, fr, f_bins, frames) =~= column(before, c, fr, f_bins, frames));
}

/// The `n_fft` samples of the frame that starts at `start`.
pub open spec fn frame_at<T>(signal: Seq<T>, start: int, n_fft: int) -> Seq<T> {
    signal.subrange(start, start + n_fft)
}

/// Frame `fr` of channels `c` and `c + 1` holds the real and imaginary parts
/// of the transform of `frame`: the frame weighed with `window`, handed to
/// `transform`, and the first `f_bins` bins of what came back.
pub open spec fn frame_analyzed<
    T,
    W: Fn(T, T) -> T,
    A: Fn(Vec<T>) -> (Vec<T>, Vec<T>),
>(
    times: &W,
    transform: &A,
    frame: Seq<T>,
    window: Seq<T>,
    spec_cac: Seq<T>,
    c: int,
    fr: int,
    f_bins: int,
    frames: int,
    zero: T,
) -> bool {
    exists|x: Vec<T>, r: (Vec<T>, Vec<T>)|
        #![trigger call_ensures(transform, (x,), r)]
        weighted(times, frame, window, x@) && call_ensures(transform, (x,), r) && column(
            spec_cac,
            c,
            fr,
            f_bins,
            frames,
        ) == fitted(r.0@, f_bins, zero) && column(spec_cac, c + 1, fr, f_bins, frames) == fitted(
            r.1@,
            f_bins,
            zero,
        )
}

/// Frame `fr` of the spectrogram holds the transform of that frame of both
/// center-padded channels: the left one in channels 0 and 1, the right one in
/// channels 2 and 3.
pub open spec fn stereo_frame_analyzed<
    T,
    W: Fn(T, T) -> T,
    A: Fn(Vec<T>) -> (Vec<T>, Vec<T>),
>(
    times: &W,
    transform: &A,
    left: Seq<T>,
    right: Seq<T>,
    window: Seq<T>,
    spec_cac: Seq<T>,
    fr: int,
    n_fft: int,
    hop: int,
    zero: T,
) -> bool {
    let f_bins = bins_kept(n_fft);
    let frames = frame_count(left.len() as int, hop);
    let pad = (n_fft / 2) as nat;
    &&& frame_analyzed(
        times,
        transform,
        frame_at(padded(left, pad, zero), fr * hop, n_fft),
        window,
        spec_cac,
        0,
        fr,
        f_bins,
        frames,
        zero,
    )
    &&& frame_analyzed(
        times,
        transform,
        frame_at(padded(right, pad, zero), fr * hop, n_fft),
        window,
        spec_cac,
        2,
        fr,
        f_bins,
        frames,
        zero,
    )
}

/// Transforms one frame of one channel and writes its bins.
fn analyze_frame<T: Copy, W: Fn(T, T) -> T, A: Fn(Vec<T>) -> (Vec<T>, Vec<T>)>(
    spec_cac: &mut Vec<T>,
    signal: &Vec<T>,
    window: &[T],
    c: usize,
    fr: usize,
    start: usize,
    n_fft: usize,
    f_bins: usize,
    frames: usize,
    zero: T,
    times: &W,
    transform: &A,
)
    requires
        c == 0 || c == 2,
        fr < frames,
        start + n_fft <= signal@.len(),
        window@.len() == n_fft,
        4 * (f_bins * frames) <= old(spec_cac)@.len(),
        forall|a: T, b: T| call_requires(times, (a, b)),
        forall|x: Vec<T>| x@.len() == n_fft ==> call_requires(transform, (x,)),
    ensures
        final(spec_cac)@.len() == old(spec_cac)@.len(),
        frame_analyzed(
            times,
            transform,
            frame_at(signal@, start as int, n_fft as int),
            window@,
            final(spec_cac)@,
            c as int,
            fr as int,
            f_bins as int,
            frames as int,
            zero,
        ),
        forall|c2: int, fr2: int|
            0 <= c2 < 4 && 0 <= fr2 < frames && !(fr2 == fr && (c2 == c || c2 == c + 1))
                ==> #[trigger] column(final(spec_cac)@, c2, fr2, f_bins as int, frames as int)
                == column(old(spec_cac)@, c2, fr2, f_bins as int, frames as int),
{
    assert(signal@.len() == signal.len());
    let frame = slice_subrange(signal.as_slice(), start, start + n_fft);
    let weighed: Vec<T> = weigh(frame, window, times);
    let ghost handed = weighed;
    let bins = transform(weighed);
    let ghost before = spec_cac@;
    write_column(spec_cac, bins.0.as_slice(), c, fr, f_bins, frames, zero);
    let ghost middle = spec_cac@;
    write_column(spec_cac, bins.1.as_slice(), c + 1, fr, f_bins, frames, zero);
    proof {
        lemma_column_kept(
            middle,
            spec_cac@,
            c as int,
            fr as int,
            c + 1,
            fr as int,
            f_bins as int,
            frames as int,
        );
        assert(call_ensures(transform, (handed,), bins));
        assert forall|c2: int, fr2: int|
            0 <= c2 < 4 && 0 <= fr2 < frames && !(fr2 == fr && (c2 == c || c2 == c
                + 1)) implies #[trigger] column(
            spec_cac@,
            c2,
            fr2,
            f_bins as int,
            frames as int,
        ) == column(before, c2, fr2, f_bins as int, frames as int) by {
            lemma_column_kept(
                before,
                middle,
                c2,
                fr2,
                c as int,
                fr as int,
                f_bins as int,
                frames as int,
            );
            lemma_column_kept(
                middle,
                spec_cac@,
                c2,
                fr2,
                c + 1,
                fr as int,
                f_bins as int,
                frames as int,
            );
        }
    }
}

/// The short-time Fourier transform of a stereo signal, center-padded, with
/// complex numbers laid out as channels.
///
/// Both channels get `n_fft / 2` zeros on either side. Frame `fr` starts at
/// sample `fr * hop` of the padded signal and holds `n_fft` samples; each
/// sample is multiplied (by `times`) with the window value at its place, and
/// `transform` takes the weighed frame to the real and the imaginary parts of
/// its Fourier transform. The first `n_fft / 2` bins of each are kept. The
/// result is the flat buffer with its bin count and its frame count; the
/// channels are, in order, left real, left imaginary, right real, right
/// imaginary, and the value of channel `c`, bin `f`, frame `fr` stands at
/// `cac_index(c, f, fr, ..)`.
pub fn stft_cac_stereo_centered<
    T: Copy,
    W: Fn(T, T) -> T,
    A: Fn(Vec<T>) -> (Vec<T>, Vec<T>),
>(
    left: &[T],
    right: &[T],
    n_fft: usize,
    hop: usize,
    zero: T,
    window: &[T],
    times: &W,
    transform: &A,
) -> (res: (Vec<T>, usize, usize))
    requires
        left@.len() == right@.len(),
        hop > 0,
        n_fft % 2 == 0,
        window@.len() == n_fft,
        left@.len() + n_fft <= usize::MAX,
        frame_count(left@.len() as int, hop as int) <= usize::MAX,
        4 * (bins_kept(n_fft as int) * frame_count(left@.len() as int, hop as int)) <= usize::MAX,
        forall|a: T, b: T| call_requires(times, (a, b)),
        forall|x: Vec<T>| x@.len() == n_fft ==> call_requires(transform, (x,)),
    ensures
        res.1 == bins_kept(n_fft as int),
        res.2 == frame_count(left@.len() as int, hop as int),
        res.0@.len() == 4 * (res.1 * res.2),
        forall|fr: int|
            0 <= fr < res.2 ==> #[trigger] stereo_frame_analyzed(
                times,
                transform,
                left@,
                right@,
                window@,
                res.0@,
                fr,
                n_fft as int,
                hop as int,
                zero,
            ),
{
    let t: usize = left.len();
    let pad: usize = n_fft / 2;
    let f_bins: usize = n_fft / 2;
    let frames: usize = 1 + t / hop;
    let l_sig = pad_centered(left, pad, zero);
    let r_sig = pad_centered(right, pad, zero);
    assert(f_bins * frames >= 0) by (nonlinear_arith);
    let mut out: Vec<T> = filled(4 * (f_bins * frames), zero);
    let mut fr: usize = 0;
    while fr < frames
        invariant
            fr <= frames,
            hop > 0,
            t == left@.len(),
            t == right@.len(),
            frames == 1 + t / hop,
            f_bins == bins_kept(n_fft as int),
            frames == frame_count(left@.len() as int, hop as int),
            2 * pad == n_fft,
            window@.len() == n_fft,
            t + n_fft <= usize::MAX,
            l_sig@ == padded(left@, pad as nat, zero),
            r_sig@ == padded(right@, pad as nat, zero),
            out@.len() == 4 * (f_bins * frames),
            forall|a: T, b: T| call_requires(times, (a, b)),
            forall|x: Vec<T>| x@.len() == n_fft ==> call_requires(transform, (x,)),
            forall|k: int|
                0 <= k < fr ==> #[trigger] stereo_frame_analyzed(
                    times,
                    transform,
                    left@,
                    right@,
                    window@,
                    out@,
                    k,
                    n_fft as int,
                    hop as int,
                    zero,
                ),
        decreases frames - fr,
    {
        assert(fr * hop <= t) by (nonlinear_arith)
            requires
                fr <= t / hop,
                hop > 0,
                t >= 0,
        ;
        let start: usize = fr * hop;
        let ghost before = out@;
        analyze_frame(
            &mut out,
            &l_sig,
            window,
            0,
            fr,
            start,
            n_fft,
            f_bins,
            frames,
            zero,
            times,
            transform,
        );
        analyze_frame(
            &mut out,
            &r_sig,
            window,
            2,
            fr,
            start,
            n_fft,
            f_bins,
            frames,
            zero,
            times,
            transform,
        );
        assert(stereo_frame_analyzed(
            times,
            transform,
            left@,
            right@,
            window@,
            out@,
            fr as int,
            n_fft as int,
            hop as int,
            zero,
        ));
        assert forall|k: int| 0 <= k < fr implies #[trigger] stereo_frame_analyzed(
            times,
            transform,
            left@,
            right@,
            window@,
            out@,
            k,
            n_fft as int,
            hop as int,
            zero,
        ) by {
            assert(stereo_frame_analyzed(
                times,
                transform,
                left@,
                right@,
                window@,
                before,
                k,
                n_fft as int,
                hop as int,
                zero,
            ));
        }
        fr += 1;
    }
    (out, f_bins, frames)
}

/// `next` is `prev` with `frame` added onto it from position `pos` on, as far
/// as `prev` reaches; `plus` adds one sample to one accumulator.
pub open spec fn overlap_added<T, P: Fn(T, T) -> T>(
    plus: &P,
    prev: Seq<T>,
    frame: Seq<T>,
    pos: int,
    next: Seq<T>,
) -> bool {
    &&& next.len() == prev.len()
    &&& forall|j: int|
        #![trigger next[j]]
        0 <= j < prev.len() ==> if pos <= j < pos + frame.len() {
            call_ensures(plus, (prev[j], frame[j - pos]), next[j])
        } else {
            next[j] == prev[j]
        }
}

/// Adds `frame`, sample by sample, onto `acc` from position `pos` on. Samples
/// that would fall behind the end of `acc` are left out.
pub fn overlap_add<T: Copy, P: Fn(T, T) -> T>(acc: &mut Vec<T>, frame: &[T], pos: usize, plus: &P)
    requires
        forall|a: T, b: T| call_requires(plus, (a, b)),
    ensures
        overlap_added(plus, old(acc)@, frame@, pos as int, final(acc)@),
{
    let total: usize = acc.len();
    if pos >= total {
        return ;
    }
    let room: usize = total - pos;
    let n: usize = if frame.len() < room {
        frame.len()
    } else {
        room
    };
    let mut i: usize = 0;
    while i < n
        invariant
            i <= n,
            n <= frame@.len(),
            pos + n <= total,
            n == frame@.len() || pos + n == total,
            acc@.len() == total,
            total == old(acc)@.len(),
            forall|a: T, b: T| call_requires(plus, (a, b)),
            forall|j: int|
                #![trigger acc@[j]]
                0 <= j < total ==> if pos <= j < pos + i {
                    call_ensures(plus, (old(acc)@[j], frame@[j - pos]), acc@[j])
                } else {
                    acc@[j] == old(acc)@[j]
                },
        decreases n - i,
    {
        let v = plus(acc[pos + i], frame[i]);
        acc.set(pos + i, v);
        i += 1;
    }
}

/// The full spectrum of a real frame, rebuilt from its first bins: `full_re`
/// and `full_im` hold `n_fft` bins; the given bins stand first, their complex
/// conjugates are mirrored into the last places (bin `f` into place
/// `n_fft - f`, from bin 1 on), the imaginary parts of bin 0 and of the middle
/// bin are `zero`, and every other place is `zero`. `negate` gives the
/// negative of an imaginary part.
pub open spec fn mirrored<T, G: Fn(T) -> T>(
    negate: &G,
    re: Seq<T>,
    im: Seq<T>,
    n_fft: int,
    zero: T,
    full_re: Seq<T>,
    full_im: Seq<T>,
) -> bool {
    &&& full_re.len() == n_fft
    &&& full_im.len() == n_fft
    &&& forall|i: int|
        #![trigger full_re[i]]
        0 <= i < n_fft ==> full_re[i] == (if i < re.len() {
            re[i]
        } else if n_fft - i < re.len() {
            re[n_fft - i]
        } else {
            zero
        })
    &&& forall|i: int|
        #![trigger full_im[i]]
        0 <= i < n_fft ==> if i == 0 || i == n_fft / 2 {
            full_im[i] == zero
        } else if i < im.len() {
            full_im[i] == im[i]
        } else if n_fft - i < im.len() {
            call_ensures(negate, (im[n_fft - i],), full_im[i])
        } else {
            full_im[i] == zero
        }
}

/// Rebuilds the full `n_fft`-bin spectrum of a real frame from its first bins.
pub fn full_spectrum<T: Copy, G: Fn(T) -> T>(
    re: &[T],
    im: &[T],
    n_fft: usize,
    zero: T,
    negate: &G,
) -> (full: (Vec<T>, Vec<T>))
    requires
        re@.len() == im@.len(),
        2 * re@.len() <= n_fft,
        forall|x: T| call_requires(negate, (x,)),
    ensures
        mirrored(negate, re@, im@, n_fft as int, zero, full.0@, full.1@),
{
    let f_bins: usize = re.len();
    let mut full_re: Vec<T> = Vec::new();
    let mut full_im: Vec<T> = Vec::new();
    let mut i: usize = 0;
    while i < n_fft
        invariant
            i <= n_fft,
            f_bins == re@.len(),
            f_bins == im@.len(),
            2 * f_bins <= n_fft,
            full_re@.len() == i,
            full_im@.len() == i,
            forall|x: T| call_requires(negate, (x,)),
            forall|k: int|
                #![trigger full_re@[k]]
                0 <= k < i ==> full_re@[k] == (if k < re@.len() {
                    re@[k]
                } else if n_fft - k < re@.len() {
                    re@[n_fft - k]
                } else {
                    zero
                }),
            forall|k: int|
                #![trigger full_im@[k]]
                0 <= k < i ==> if k == 0 || k == (n_fft as int) / 2 {
                    full_im@[k] == zero
                } else if k < im@.len() {
                    full_im@[k] == im@[k]
                } else if n_fft - k < im@.len() {
                    call_ensures(negate, (im@[n_fft - k],), full_im@[k])
                } else {
                    full_im@[k] == zero
                },
        decreases n_fft - i,
    {
        let real_part = if i < f_bins {
            re[i]
        } else if n_fft - i < f_bins {
            re[n_fft - i]
        } else {
            zero
        };
        let imag_part = if i == 0 || i == n_fft / 2 {
            zero
        } else if i < f_bins {
            im[i]
        } else if n_fft - i < f_bins {
            negate(im[n_fft - i])
        } else {
            zero
        };
        full_re.push(real_part);
        full_im.push(imag_part);
        i += 1;
    }
    (full_re, full_im)
}

/// Sample `i` of `out` is what `normalize` made of accumulator `start + i` and
/// of the window energy summed at that place.
pub open spec fn normalized<T, N: Fn(T, T) -> T>(
    normalize: &N,
    acc: Seq<T>,
    sums: Seq<T>,
    start: int,
    out: Seq<T>,
) -> bool {
    forall|i: int|
        #![trigger out[i]]
        0 <= i < out.len() ==> call_ensures(normalize, (acc[start + i], sums[start + i]), out[i])
}

/// Normalizes `len` accumulators from `start` on by the window energy summed
/// at their places.
pub fn normalize_range<T: Copy, N: Fn(T, T) -> T>(
    acc: &[T],
    sums: &[T],
    start: usize,
    len: usize,
    normalize: &N,
) -> (out: Vec<T>)
    requires
        start + len <= acc@.len(),
        start + len <= sums@.len(),
        forall|a: T, b: T| call_requires(normalize, (a, b)),
    ensures
        out@.len() == len,
        normalized(normalize, acc@, sums@, start as int, out@),
{
    let total: usize = acc.len();
    let mut out: Vec<T> = Vec::new();
    let mut i: usize = 0;
    while i < len
        invariant
            i <= len,
            start + len <= total,
            total == acc@.len(),
            start + len <= sums@.len(),
            out@.len() == i,
            forall|a: T, b: T| call_requires(normalize, (a, b)),
            normalized(normalize, acc@, sums@, start as int, out@),
        decreases len - i,
    {
        let v = normalize(acc[start + i], sums[start + i]);
        out.push(v);
        i += 1;
    }
    out
}

/// `next` is `prev` with the `k`-th frame added, counted from one: `frame`
/// added from sample `(k - 1) * hop` on.
pub open spec fn frame_added<T, P: Fn(T, T) -> T>(
    plus: &P,
    prev: Seq<T>,
    frame: Seq<T>,
    k: nat,
    hop: int,
    next: Seq<T>,
) -> bool {
    overlap_added(plus, prev, frame, (k - 1) * hop, next)
}

/// `out` is frame `fr` of channels `c` and `c + 1`, taken back to the time
/// domain: the frame's bins mirrored to a full spectrum, the spectrum handed
/// to `inverse`, and each sample that came back multiplied with the window
/// value at its place and then with `scale`.
pub open spec fn frame_synthesized<
    T,
    G: Fn(T) -> T,
    I: Fn(Vec<T>, Vec<T>) -> Vec<T>,
    W: Fn(T, T) -> T,
>(
    negate: &G,
    inverse: &I,
    times: &W,
    spec_cac: Seq<T>,
    window: Seq<T>,
    scale: T,
    c: int,
    fr: int,
    f_bins: int,
    frames: int,
    n_fft: int,
    zero: T,
    out: Seq<T>,
) -> bool {
    exists|re: Vec<T>, im: Vec<T>, x: Vec<T>, weighed: Seq<T>|
        #![trigger call_ensures(inverse, (re, im), x), scaled(times, weighed, scale, out)]
        mirrored(
            negate,
            column(spec_cac, c, fr, f_bins, frames),
            column(spec_cac, c + 1, fr, f_bins, frames),
            n_fft,
            zero,
            re@,
            im@,
        ) && call_ensures(inverse, (re, im), x) && weighted(times, x@, window, weighed) && scaled(
            times,
            weighed,
            scale,
            out,
        )
}

/// `acc` is what the first `k` frames of channels `c` and `c + 1` add up to:
/// each frame taken back to the time domain and added from sample `fr * hop`
/// on to a buffer of `len` zeros, in the order of the frames.
pub open spec fn synthesized<
    T,
    G: Fn(T) -> T,
    I: Fn(Vec<T>, Vec<T>) -> Vec<T>,
    W: Fn(T, T) -> T,
    P: Fn(T, T) -> T,
>(
    negate: &G,
    inverse: &I,
    times: &W,
    plus: &P,
    spec_cac: Seq<T>,
    window: Seq<T>,
    scale: T,
    c: int,
    f_bins: int,
    frames: int,
    n_fft: int,
    hop: int,
    len: nat,
    zero: T,
    k: nat,
    acc: Seq<T>,
) -> bool
    decreases k,
{
    if k == 0 {
        acc == constant(len, zero)
    } else {
        exists|prev: Seq<T>, frame: Seq<T>|
            #![trigger frame_added(plus, prev, frame, k, hop, acc)]
            synthesized(
                negate,
                inverse,
                times,
                plus,
                spec_cac,
                window,
                scale,
                c,
                f_bins,
                frames,
                n_fft,
                hop,
                len,
                zero,
                (k - 1) as nat,
                prev,
            ) && frame_synthesized(
                negate,
                inverse,
                times,
                spec_cac,
                window,
                scale,
                c,
                k - 1,
                f_bins,
                frames,
                n_fft,
                zero,
                frame,
            ) && frame_added(plus, prev, frame, k, hop, acc)
    }
}

/// `sums` is the window energy of the first `k` frames: `energy` added from
/// sample `fr * hop` on to a buffer of `len` zeros, once for each frame.
pub open spec fn energy_summed<T, P: Fn(T, T) -> T>(
    plus: &P,
    energy: Seq<T>,
    hop: int,
    len: nat,
    zero: T,
    k: nat,
    sums: Seq<T>,
) -> bool
    decreases k,
{
    if k == 0 {
        sums == constant(len, zero)
    } else {
        exists|prev: Seq<T>|
            #![trigger frame_added(plus, prev, energy, k, hop, sums)]
            energy_summed(plus, energy, hop, len, zero, (k - 1) as nat, prev) && frame_added(
                plus,
                prev,
                energy,
                k,
                hop,
                sums,
            )
    }
}

/// `left` and `right` are the inverse transform of `spec_cac`: both channels
/// synthesized over all frames into buffers of `target + 2 * (n_fft / 2)`
/// samples, the window energy, which is the window multiplied with itself,
/// summed alongside; each sample normalized by the energy summed at its
/// place; and the `n_fft / 2` samples of padding at either end left out.
pub open spec fn inverse_transformed<
    T,
    G: Fn(T) -> T,
    I: Fn(Vec<T>, Vec<T>) -> Vec<T>,
    W: Fn(T, T) -> T,
    P: Fn(T, T) -> T,
    N: Fn(T, T) -> T,
>(
    negate: &G,
    inverse: &I,
    times: &W,
    plus: &P,
    normalize: &N,
    spec_cac: Seq<T>,
    window: Seq<T>,
    scale: T,
    f_bins: int,
    frames: int,
    n_fft: int,
    hop: int,
    target: nat,
    zero: T,
    left: Seq<T>,
    right: Seq<T>,
) -> bool {
    let len = (target + 2 * (n_fft / 2)) as nat;
    &&& left.len() == target
    &&& right.len() == target
    &&& exists|acc_l: Seq<T>, acc_r: Seq<T>, energy: Seq<T>, sums: Seq<T>|
        #![trigger
            normalized(normalize, acc_l, sums, n_fft / 2, left),
            normalized(normalize, acc_r, sums, n_fft / 2, right),
            weighted(times, window, window, energy)]
        synthesized(
            negate,
            inverse,
            times,
            plus,
            spec_cac,
            window,
            scale,
            0,
            f_bins,
            frames,
            n_fft,
            hop,
            len,
            zero,
            frames as nat,
            acc_l,
        ) && synthesized(
            negate,
            inverse,
            times,
            plus,
            spec_cac,
            window,
            scale,
            2,
            f_bins,
            frames,
            n_fft,
            hop,
            len,
            zero,
            frames as nat,
            acc_r,
        ) && weighted(times, window, window, energy) && energy_summed(
            plus,
            energy,
            hop,
            len,
            zero,
            frames as nat,
            sums,
        ) && normalized(normalize, acc_l, sums, n_fft / 2, left) && normalized(
            normalize,
            acc_r,
            sums,
            n_fft / 2,
            right,
        )
}

/// One more frame: from the state after `k` frames to the state after `k + 1`.
proof fn lemma_synthesized_step<
    T,
    G: Fn(T) -> T,
    I: Fn(Vec<T>, Vec<T>) -> Vec<T>,
    W: Fn(T, T) -> T,
    P: Fn(T, T) -> T,
>(
    negate: &G,
    inverse: &I,
    times: &W,
    plus: &P,
    spec_cac: Seq<T>,
    window: Seq<T>,
    scale: T,
    c: int,
    f_bins: int,
    frames: int,
    n_fft: int,
    hop: int,
    len: nat,
    zero: T,
    k: nat,
    prev: Seq<T>,
    frame: Seq<T>,
    acc: Seq<T>,
)
    requires
        synthesized(
            negate,
            inverse,
            times,
            plus,
            spec_cac,
            window,
            scale,
            c,
            f_bins,
            frames,
            n_fft,
            hop,
            len,
            zero,
            k,
            prev,
        ),
        frame_synthesized(
            negate,
            inverse,
            times,
            spec_cac,
            window,
            scale,
            c,
            k as int,
            f_bins,
            frames,
            n_fft,
            zero,
            frame,
        ),
        overlap_added(plus, prev, frame, k * hop, acc),
    ensures
        synthesized(
            negate,
            inverse,
            times,
            plus,
            spec_cac,
            window,
            scale,
            c,
            f_bins,
            frames,
            n_fft,
            hop,
            len,
            zero,
            k + 1,
            acc,
        ),
{
    let k1: nat = k + 1;
    assert((k1 - 1) as nat == k);
    assert(k1 - 1 == k as int);
    assert((k1 - 1) * hop == k * hop);
    assert(frame_added(plus, prev, frame, k1, hop, acc));
}

/// One more frame of window energy.
proof fn lemma_energy_step<T, P: Fn(T, T) -> T>(
    plus: &P,
    energy: Seq<T>,
    hop: int,
    len: nat,
    zero: T,
    k: nat,
    prev: Seq<T>,
    sums: Seq<T>,
)
    requires
        energy_summed(plus, energy, hop, len, zero, k, prev),
        overlap_added(plus, prev, energy, k * hop, sums),
    ensures
        energy_summed(plus, energy, hop, len, zero, k + 1, sums),
{
    let k1: nat = k + 1;
    assert((k1 - 1) as nat == k);
    assert((k1 - 1) * hop == k * hop);
    assert(frame_added(plus, prev, energy, k1, hop, sums));
}

/// The state after `k` frames depends on the spectrogram only through the
/// columns of its first `k` frames.
proof fn lemma_synthesized_by_columns<
    T,
    G: Fn(T) -> T,
    I: Fn(Vec<T>, Vec<T>) -> Vec<T>,
    W: Fn(T, T) -> T,
    P: Fn(T, T) -> T,
>(
    negate: &G,
    inverse: &I,
    times: &W,
    plus: &P,
    one: Seq<T>,
    c1: int,
    other: Seq<T>,
    c2: int,
    window: Seq<T>,
    scale: T,
    f_bins: int,
    frames: int,
    n_fft: int,
    hop: int,
    len: nat,
    zero: T,
    k: nat,
    acc: Seq<T>,
)
    requires
        forall|fr: int|
            0 <= fr < k ==> #[trigger] column(other, c2, fr, f_bins, frames) == column(
                one,
                c1,
                fr,
                f_bins,
                frames,
            ) && column(other, c2 + 1, fr, f_bins, frames) == column(
                one,
                c1 + 1,
                fr,
                f_bins,
                frames,
            ),
        synthesized(
            negate,
            inverse,
            times,
            plus,
            one,
            window,
            scale,
            c1,
            f_bins,
            frames,
            n_fft,
            hop,
            len,
            zero,
            k,
            acc,
        ),
    ensures
        synthesized(
            negate,
            inverse,
            times,
            plus,
            other,
            window,
            scale,
            c2,
            f_bins,
            frames,
            n_fft,
            hop,
            len,
            zero,
            k,
            acc,
        ),
    decreases k,
{
    if k > 0 {
        let (prev, frame) = choose|prev: Seq<T>, frame: Seq<T>|
            #![trigger frame_added(plus, prev, frame, k, hop, acc)]
            synthesized(
                negate,
                inverse,
                times,
                plus,
                one,
                window,
                scale,
                c1,
                f_bins,
                frames,
                n_fft,
                hop,
                len,
                zero,
                (k - 1) as nat,
                prev,
            ) && frame_synthesized(
                negate,
                inverse,
                times,
                one,
                window,
                scale,
                c1,
                k - 1,
                f_bins,
                frames,
                n_fft,
                zero,
                frame,
            ) && frame_added(plus, prev, frame, k, hop, acc);
        lemma_synthesized_by_columns(
            negate,
            inverse,
            times,
            plus,
            one,
            c1,
            other,
            c2,
            window,
            scale,
            f_bins,
            frames,
            n_fft,
            hop,
            len,
            zero,
            (k - 1) as nat,
            prev,
        );
        assert(column(other, c2, k - 1, f_bins, frames) == column(one, c1, k - 1, f_bins, frames));
        assert(frame_synthesized(
            negate,
            inverse,
            times,
            other,
            window,
            scale,
            c2,
            k - 1,
            f_bins,
            frames,
            n_fft,
            zero,
            frame,
        ));
        assert(frame_added(plus, prev, frame, k, hop, acc));
    }
}

/// `swapped` is `spec_cac` with the left and the right channel exchanged:
/// its channels 0 and 1 are the other's channels 2 and 3, and the reverse.
pub open spec fn channels_swapped<T>(
    spec_cac: Seq<T>,
    swapped: Seq<T>,
    f_bins: int,
    frames: int,
) -> bool {
    forall|fr: int|
        #![trigger column(swapped, 0, fr, f_bins, frames)]
        #![trigger column(swapped, 2, fr, f_bins, frames)]
        0 <= fr < frames ==> column(swapped, 0, fr, f_bins, frames) == column(
            spec_cac,
            2,
            fr,
            f_bins,
            frames,
        ) && column(swapped, 1, fr, f_bins, frames) == column(spec_cac, 3, fr, f_bins, frames)
            && column(swapped, 2, fr, f_bins, frames) == column(spec_cac, 0, fr, f_bins, frames)
            && column(swapped, 3, fr, f_bins, frames) == column(spec_cac, 1, fr, f_bins, frames)
}

/// Exchanging the left and the right channel of a spectrogram exchanges the
/// two channels of its inverse transform: whatever the kernels are, a pair of
/// waves that is an inverse transform of the one is, with its sides exchanged,
/// an inverse transform of the other.
pub proof fn lemma_swapped_channels_swap_waves<
    T,
    G: Fn(T) -> T,
    I: Fn(Vec<T>, Vec<T>) -> Vec<T>,
    W: Fn(T, T) -> T,
    P: Fn(T, T) -> T,
    N: Fn(T, T) -> T,
>(
    negate: &G,
    inverse: &I,
    times: &W,
    plus: &P,
    normalize: &N,
    spec_cac: Seq<T>,
    swapped: Seq<T>,
    window: Seq<T>,
    scale: T,
    f_bins: int,
    frames: int,
    n_fft: int,
    hop: int,
    target: nat,
    zero: T,
    left: Seq<T>,
    right: Seq<T>,
)
    requires
        0 <= frames,
        channels_swapped(spec_cac, swapped, f_bins, frames),
        inverse_transformed(
            negate,
            inverse,
            times,
            plus,
            normalize,
            spec_cac,
            window,
            scale,
            f_bins,
            frames,
            n_fft,
            hop,
            target,
            zero,
            left,
            right,
        ),
    ensures
        inverse_transformed(
            negate,
            inverse,
            times,
            plus,
            normalize,
            swapped,
            window,
            scale,
            f_bins,
            frames,
            n_fft,
            hop,
            target,
            zero,
            right,
            left,
        ),
{
    let len = (target + 2 * (n_fft / 2)) as nat;
    let (acc_l, acc_r, energy, sums) = choose|
        acc_l: Seq<T>,
        acc_r: Seq<T>,
        energy: Seq<T>,
        sums: Seq<T>,
    |
        #![trigger
            normalized(normalize, acc_l, sums, n_fft / 2, left),
            normalized(normalize, acc_r, sums, n_fft / 2, right),
            weighted(times, window, window, energy)]
        synthesized(
            negate,
            inverse,
            times,
            plus,
            spec_cac,
            window,
            scale,
            0,
            f_bins,
            frames,
            n_fft,
            hop,
            len,
            zero,
            frames as nat,
            acc_l,
        ) && synthesized(
            negate,
            inverse,
            times,
            plus,
            spec_cac,
            window,
            scale,
            2,
            f_bins,
            frames,
            n_fft,
            hop,
            len,
            zero,
            frames as nat,
            acc_r,
        ) && weighted(times, window, window, energy) && energy_summed(
            plus,
            energy,
            hop,
            len,
            zero,
            frames as nat,
            sums,
        ) && normalized(normalize, acc_l, sums, n_fft / 2, left) && normalized(
            normalize,
            acc_r,
            sums,
            n_fft / 2,
            right,
        );
    lemma_synthesized_by_columns(
        negate,
        inverse,
        times,
        plus,
        spec_cac,
        0,
        swapped,
        2,
        window,
        scale,
        f_bins,
        frames,
        n_fft,
        hop,
        len,
        zero,
        frames as nat,
        acc_l,
    );
    lemma_synthesized_by_columns(
        negate,
        inverse,
        times,
        plus,
        spec_cac,
        2,
        swapped,
        0,
        window,
        scale,
        f_bins,
        frames,
        n_fft,
        hop,
        len,
        zero,
        frames as nat,
        acc_r,
    );
    assert(normalized(normalize, acc_r, sums, n_fft / 2, right));
    assert(normalized(normalize, acc_l, sums, n_fft / 2, left));
    assert(weighted(times, window, window, energy));
}

/// Adds `frame` onto `acc` from sample `fr * hop` on.
fn add_frame<T: Copy, P: Fn(T, T) -> T>(
    acc: &mut Vec<T>,
    frame: &[T],
    fr: usize,
    hop: usize,
    plus: &P,
)
    requires
        forall|a: T, b: T| call_requires(plus, (a, b)),
    ensures
        overlap_added(plus, old(acc)@, frame@, fr * hop, final(acc)@),
{
    match fr.checked_mul(hop) {
        Some(pos) => {
            overlap_add(acc, frame, pos, plus);
        },
        None => {
            assert(fr * hop > acc.len());
        },
    }
}

/// Synthesizes frame `fr` of channels `c` and `c + 1` onto `acc`.
fn synthesize_frame<
    T: Copy,
    G: Fn(T) -> T,
    I: Fn(Vec<T>, Vec<T>) -> Vec<T>,
    W: Fn(T, T) -> T,
    P: Fn(T, T) -> T,
>(
    acc: &mut Vec<T>,
    spec_cac: &[T],
    window: &[T],
    scale: T,
    c: usize,
    fr: usize,
    f_bins: usize,
    frames: usize,
    n_fft: usize,
    hop: usize,
    zero: T,
    negate: &G,
    inverse: &I,
    times: &W,
    plus: &P,
)
    requires
        c == 0 || c == 2,
        fr < frames,
        4 * (f_bins * frames) <= spec_cac@.len(),
        2 * f_bins <= n_fft,
        forall|x: T| call_requires(negate, (x,)),
        forall|re: Vec<T>, im: Vec<T>|
            re@.len() == n_fft && im@.len() == n_fft ==> call_requires(inverse, (re, im)),
        forall|a: T, b: T| call_requires(times, (a, b)),
        forall|a: T, b: T| call_requires(plus, (a, b)),
        synthesized(
            negate,
            inverse,
            times,
            plus,
            spec_cac@,
            window@,
            scale,
            c as int,
            f_bins as int,
            frames as int,
            n_fft as int,
            hop as int,
            old(acc)@.len(),
            zero,
            fr as nat,
            old(acc)@,
        ),
    ensures
        final(acc)@.len() == old(acc)@.len(),
        synthesized(
            negate,
            inverse,
            times,
            plus,
            spec_cac@,
            window@,
            scale,
            c as int,
            f_bins as int,
            frames as int,
            n_fft as int,
            hop as int,
            old(acc)@.len(),
            zero,
            (fr + 1) as nat,
            final(acc)@,
        ),
{
    let re = read_column(spec_cac, c, fr, f_bins, frames);
    let im = read_column(spec_cac, c + 1, fr, f_bins, frames);
    let full = full_spectrum(re.as_slice(), im.as_slice(), n_fft, zero, negate);
    let ghost full_re = full.0;
    let ghost full_im = full.1;
    let x = inverse(full.0, full.1);
    let weighed = weigh(x.as_slice(), window, times);
    let frame = scale_by(weighed.as_slice(), scale, times);
    let ghost prev = acc@;
    add_frame(acc, frame.as_slice(), fr, hop, plus);
    proof {
        assert(call_ensures(inverse, (full_re, full_im), x));
        assert(scaled(times, weighed@, scale, frame@));
        assert(frame_synthesized(
            negate,
            inverse,
            times,
            spec_cac@,
            window@,
            scale,
            c as int,
            fr as int,
            f_bins as int,
            frames as int,
            n_fft as int,
            zero,
            frame@,
        ));
        lemma_synthesized_step(
            negate,
            inverse,
            times,
            plus,
            spec_cac@,
            window@,
            scale,
            c as int,
            f_bins as int,
            frames as int,
            n_fft as int,
            hop as int,
            prev.len(),
            zero,
            fr as nat,
            prev,
            frame@,
            acc@,
        );
    }
}

/// The inverse short-time Fourier transform of a stereo spectrogram laid out
/// as by `stft_cac_stereo_centered`.
///
/// For each frame and channel the kept bins are mirrored to a full spectrum:
/// bin `f` from 1 on goes, complex conjugate, to place `n_fft - f`, and the
/// imaginary parts of bin 0 and of bin `n_fft / 2` are `zero`. `inverse`
/// takes one full spectrum (real parts, imaginary parts) to the real part of
/// its inverse Fourier transform. Each of its samples is multiplied (by
/// `times`) with the window value at its place and with `scale`, and added
/// (by `plus`) into a buffer that is `n_fft / 2` samples longer than the
/// target at either end; the squared window is summed alongside. `normalize`
/// divides an accumulator by the energy summed at its place. The result is
/// the two channels, `target_length` samples each.
pub fn istft_cac_stereo<
    T: Copy,
    G: Fn(T) -> T,
    I: Fn(Vec<T>, Vec<T>) -> Vec<T>,
    W: Fn(T, T) -> T,
    P: Fn(T, T) -> T,
    N: Fn(T, T) -> T,
>(
    spec_cac: &[T],
    f_bins: usize,
    frames: usize,
    n_fft: usize,
    hop: usize,
    target_length: usize,
    zero: T,
    window: &[T],
    scale: T,
    negate: &G,
    inverse: &I,
    times: &W,
    plus: &P,
    normalize: &N,
) -> (res: (Vec<T>, Vec<T>))
    requires
        4 * (f_bins * frames) <= spec_cac@.len(),
        2 * f_bins <= n_fft,
        target_length + n_fft <= usize::MAX,
        forall|x: T| call_requires(negate, (x,)),
        forall|re: Vec<T>, im: Vec<T>|
            re@.len() == n_fft && im@.len() == n_fft ==> call_requires(inverse, (re, im)),
        forall|a: T, b: T| call_requires(times, (a, b)),
        forall|a: T, b: T| call_requires(plus, (a, b)),
        forall|a: T, b: T| call_requires(normalize, (a, b)),
    ensures
        inverse_transformed(
            negate,
            inverse,
            times,
            plus,
            normalize,
            spec_cac@,
            window@,
            scale,
            f_bins as int,
            frames as int,
            n_fft as int,
            hop as int,
            target_length as nat,
            zero,
            res.0@,
            res.1@,
        ),
{
    let pad: usize = n_fft / 2;
    let len: usize = target_length + 2 * pad;
    let energy: Vec<T> = weigh(window, window, times);
    let mut acc_l: Vec<T> = filled(len, zero);
    let mut acc_r: Vec<T> = filled(len, zero);
    let mut sums: Vec<T> = filled(len, zero);
    let mut fr: usize = 0;
    while fr < frames
        invariant
            fr <= frames,
            4 * (f_bins * frames) <= spec_cac@.len(),
            2 * f_bins <= n_fft,
            acc_l@.len() == len,
            acc_r@.len() == len,
            sums@.len() == len,
            forall|x: T| call_requires(negate, (x,)),
            forall|re: Vec<T>, im: Vec<T>|
                re@.len() == n_fft && im@.len() == n_fft ==> call_requires(inverse, (re, im)),
            forall|a: T, b: T| call_requires(times, (a, b)),
            forall|a: T, b: T| call_requires(plus, (a, b)),
            synthesized(
                negate,
                inverse,
                times,
                plus,
                spec_cac@,
                window@,
                scale,
                0,
                f_bins as int,
                frames as int,
                n_fft as int,
                hop as int,
                len as nat,
                zero,
                fr as nat,
                acc_l@,
            ),
            synthesized(
                negate,
                inverse,
                times,
                plus,
                spec_cac@,
                window@,
                scale,
                2,
                f_bins as int,
                frames as int,
                n_fft as int,
                hop as int,
                len as nat,
                zero,
                fr as nat,
                acc_r@,
            ),
            energy_summed(plus, energy@, hop as int, len as nat, zero, fr as nat, sums@),
        decreases frames - fr,
    {
        synthesize_frame(
            &mut acc_l,
            spec_cac,
            window,
            scale,
            0,
            fr,
            f_bins,
            frames,
            n_fft,
            hop,
            zero,
            negate,
            inverse,
            times,
            plus,
        );
        synthesize_frame(
            &mut acc_r,
            spec_cac,
            window,
            scale,
            2,
            fr,
            f_bins,
            frames,
            n_fft,
            hop,
            zero,
            negate,
            inverse,
            times,
            plus,
        );
        let ghost prev = sums@;
        add_frame(&mut sums, energy.as_slice(), fr, hop, plus);
        proof {
            lemma_energy_step(plus, energy@, hop as int, len as nat, zero, fr as nat, prev, sums@);
        }
        fr += 1;
    }
    let left = normalize_range(acc_l.as_slice(), sums.as_slice(), pad, target_length, normalize);
    let right = normalize_range(acc_r.as_slice(), sums.as_slice(), pad, target_length, normalize);
    (left, right)
}

/// Each pair of `waves` is the inverse transform of the spectrogram at the
/// same place in `sources`.
pub open spec fn all_inverse_transformed<
    T,
    G: Fn(T) -> T,
    I: Fn(Vec<T>, Vec<T>) -> Vec<T>,
    W: Fn(T, T) -> T,
    P: Fn(T, T) -> T,
    N: Fn(T, T) -> T,
>(
    negate: &G,
    inverse: &I,
    times: &W,
    plus: &P,
    normalize: &N,
    sources: Seq<Vec<T>>,
    window: Seq<T>,
    scale: T,
    f_bins: int,
    frames: int,
    n_fft: int,
    hop: int,
    target: nat,
    zero: T,
    waves: Seq<(Vec<T>, Vec<T>)>,
) -> bool {
    &&& waves.len() == sources.len()
    &&& forall|s: int|
        #![trigger waves[s]]
        0 <= s < sources.len() ==> inverse_transformed(
            negate,
            inverse,
            times,
            plus,
            normalize,
            sources[s]@,
            window,
            scale,
            f_bins,
            frames,
            n_fft,
            hop,
            target,
            zero,
            waves[s].0@,
            waves[s].1@,
        )
}

/// The inverse transform of several spectrograms, one for each source, on
/// rayon's worker threads.
///
/// Trusted: the body hands each spectrogram to `istft_cac_stereo` through
/// rayon's `par_iter`, `map` and `collect`. The contract claims what rayon
/// documents of an indexed parallel iterator collected into a vector: one
/// result for each item, in the order of the items, each being what the mapped
/// function returns for that item.
#[verifier::external_body]
pub fn istft_cac_stereo_parallel<
    T: Copy + Send + Sync,
    G: Fn(T) -> T + Sync,
    I: Fn(Vec<T>, Vec<T>) -> Vec<T> + Sync,
    W: Fn(T, T) -> T + Sync,
    P: Fn(T, T) -> T + Sync,
    N: Fn(T, T) -> T + Sync,
>(
    sources_data: &Vec<Vec<T>>,
    f_bins: usize,
    frames: usize,
    n_fft: usize,
    hop: usize,
    target_length: usize,
    zero: T,
    window: &[T],
    scale: T,
    negate: &G,
    inverse: &I,
    times: &W,
    plus: &P,
    normalize: &N,
) -> (waves: Vec<(Vec<T>, Vec<T>)>)
    requires
        forall|s: int|
            0 <= s < sources_data@.len() ==> 4 * (f_bins * frames) <= (
            #[trigger] sources_data@[s])@.len(),
        2 * f_bins <= n_fft,
        target_length + n_fft <= usize::MAX,
        forall|x: T| call_requires(negate, (x,)),
        forall|re: Vec<T>, im: Vec<T>|
            re@.len() == n_fft && im@.len() == n_fft ==> call_requires(inverse, (re, im)),
        forall|a: T, b: T| call_requires(times, (a, b)),
        forall|a: T, b: T| call_requires(plus, (a, b)),
        forall|a: T, b: T| call_requires(normalize, (a, b)),
    ensures
        all_inverse_transformed(
            negate,
            inverse,
            times,
            plus,
            normalize,
            sources_data@,
            window@,
            scale,
            f_bins as int,
            frames as int,
            n_fft as int,
            hop as int,
            target_length as nat,
            zero,
            waves@,
        ),
{
    let one = |spec_cac: &Vec<T>| {
        let spec_cac = spec_cac.as_slice();
        istft_cac_stereo(spec_cac, f_bins, frames, n_fft, hop, target_length, zero, window, scale, negate, inverse, times, plus, normalize)
    };
    let sources = rayon::iter::IntoParallelRefIterator::par_iter(sources_data);
    rayon::iter::ParallelIterator::collect(rayon::iter::ParallelIterator::map(sources, one))
}

} // verus!
