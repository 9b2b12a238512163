//! The windowed splitter: the window schedule, the overlap-add of the windows'
//! sources, their normalization, and the naming of the stems.

use crate::dsp::{
    constant, filled, frame_added, interleave_stereo, interleaved, overlap_add, planar_frame,
    planar_len, to_planar_stereo, weigh, weighted, AudioData,
};
use crate::engine::StemTensor;
use crate::error::{InputFault, StemError};
use crate::manifest::ModelManifest;
use crate::progress::{SplitProgress, Stage};
use crate::text::{ascii_lower, characters, to_ascii_lower};
use vstd::arithmetic::div_mod::lemma_fundamental_div_mod;
use vstd::prelude::*;
use vstd::slice::*;
use vstd::string::*;

verus! {

/// The only sample rate the splitter takes.
pub const SUPPORTED_SAMPLE_RATE: u32 = 44_100;

/// Accepts the model's and the audio's sample rates where they agree and are
/// the supported one.
pub fn check_sample_rate(model_rate: u32, audio_rate: u32) -> (res: Result<(), StemError>)
    ensures
        model_rate == SUPPORTED_SAMPLE_RATE && audio_rate == SUPPORTED_SAMPLE_RATE ==> res == Ok::<
            (),
            StemError,
        >(()),
        !(model_rate == SUPPORTED_SAMPLE_RATE && audio_rate == SUPPORTED_SAMPLE_RATE) ==> res
            == Err::<(), StemError>(StemError::InputInvalid(InputFault::SampleRate)),
{
    if model_rate == SUPPORTED_SAMPLE_RATE && audio_rate == SUPPORTED_SAMPLE_RATE {
        Ok(())
    } else {
        Err(StemError::InputInvalid(InputFault::SampleRate))
    }
}

/// The number of windows that cover `n` frames at `hop` frames per step: the
/// windows start at 0, `hop`, `2 * hop`, ... as long as the start lies inside
/// the audio.
pub open spec fn windows_needed(n: int, hop: int) -> int {
    n / hop + if n % hop == 0 {
        0int
    } else {
        1int
    }
}

/// A window is counted exactly if it starts inside the audio.
pub proof fn lemma_window_starts_inside(n: int, hop: int, k: int)
    requires
        0 <= n,
        0 < hop,
        0 <= k,
    ensures
        k < windows_needed(n, hop) <==> k * hop < n,
{
    lemma_fundamental_div_mod(n, hop);
    let q = n / hop;
    let r = n % hop;
    assert(n == hop * q + r);
    assert(0 <= r < hop);
    if k < windows_needed(n, hop) {
        assert(k * hop < n) by (nonlinear_arith)
            requires
                n == hop * q + r,
                0 <= r < hop,
                0 <= k,
                0 < hop,
                k < q + if r == 0 {
                    0int
                } else {
                    1int
                },
        ;
    } else {
        assert(k * hop >= n) by (nonlinear_arith)
            requires
                n == hop * q + r,
                0 <= r < hop,
                0 < hop,
                k >= q + if r == 0 {
                    0int
                } else {
                    1int
                },
        ;
    }
}

/// The number of windows that cover `n` frames at `hop` frames per step.
pub fn window_count(n: usize, hop: usize) -> (count: usize)
    requires
        hop > 0,
    ensures
        count == windows_needed(n as int, hop as int),
{
    let whole: usize = n / hop;
    if n % hop == 0 {
        whole
    } else {
        proof {
            lemma_fundamental_div_mod(n as int, hop as int);
            let r = (n as int) % (hop as int);
            assert(hop >= 2);
            assert(whole < usize::MAX) by (nonlinear_arith)
                requires
                    n == hop * whole + r,
                    0 <= r,
                    hop >= 2,
                    n <= usize::MAX,
                    0 <= whole,
            ;
        }
        whole + 1
    }
}

/// Channel `c` of the window of `win` frames that starts at frame `pos`:
/// the audio's samples, and `zero` behind its end.
pub open spec fn chunk<T>(stereo: Seq<[T; 2]>, pos: int, win: int, zero: T, c: int) -> Seq<T> {
    Seq::new(
        win as nat,
        |i: int|
            if pos + i < stereo.len() {
                stereo[pos + i]@[c]
            } else {
                zero
            },
    )
}

/// Cuts the window of `win` frames that starts at frame `pos` out of the
/// audio, zero-padded behind the audio's end; gives its two channels.
pub fn extract_chunk<T: Copy>(stereo: &[[T; 2]], pos: usize, win: usize, zero: T) -> (channels: (
    Vec<T>,
    Vec<T>,
))
    requires
        pos + win <= usize::MAX,
    ensures
        channels.0@ == chunk(stereo@, pos as int, win as int, zero, 0),
        channels.1@ == chunk(stereo@, pos as int, win as int, zero, 1),
{
    let n: usize = stereo.len();
    let mut left: Vec<T> = Vec::new();
    let mut right: Vec<T> = Vec::new();
    let mut i: usize = 0;
    while i < win
        invariant
            i <= win,
            pos + win <= usize::MAX,
            n == stereo@.len(),
            left@.len() == i,
            right@.len() == i,
            forall|k: int|
                0 <= k < i ==> #[trigger] left@[k] == chunk(
                    stereo@,
                    pos as int,
                    win as int,
                    zero,
                    0,
                )[k],
            forall|k: int|
                0 <= k < i ==> #[trigger] right@[k] == chunk(
                    stereo@,
                    pos as int,
                    win as int,
                    zero,
                    1,
                )[k],
        decreases win - i,
    {
        let idx: usize = pos + i;
        if idx < n {
            let frame = stereo[idx];
            left.push(frame[0]);
            right.push(frame[1]);
        } else {
            left.push(zero);
            right.push(zero);
        }
        i += 1;
    }
    assert(left@ =~= chunk(stereo@, pos as int, win as int, zero, 0));
    assert(right@ =~= chunk(stereo@, pos as int, win as int, zero, 1));
    (left, right)
}

/// Channel `j` of a window's answer, the channels counted through the
/// sources: channel `2 * s` is the left and `2 * s + 1` the right of source
/// `s`.
pub open spec fn answer_channel<T>(answer: StemTensor<T>, j: int) -> Seq<T> {
    answer.data@.subrange(j * answer.len, (j + 1) * answer.len)
}

/// `next` is `prev` with the `k`-th window's samples added, counted from one:
/// the samples weighed, and added from frame `(k - 1) * hop` on.
pub open spec fn window_added<T, W: Fn(T, T) -> T, P: Fn(T, T) -> T>(
    times: &W,
    plus: &P,
    prev: Seq<T>,
    samples: Seq<T>,
    weights: Seq<T>,
    k: nat,
    hop: int,
    next: Seq<T>,
) -> bool {
    exists|x: Seq<T>|
        #![trigger frame_added(plus, prev, x, k, hop, next)]
        weighted(times, samples, weights, x) && frame_added(plus, prev, x, k, hop, next)
}

/// Every accumulator of `accs` is the one at its place in `prev` with the
/// `k`-th window's answer for its channel added.
pub open spec fn all_added<T, W: Fn(T, T) -> T, P: Fn(T, T) -> T>(
    times: &W,
    plus: &P,
    prev: Seq<Vec<T>>,
    answer: StemTensor<T>,
    weights: Seq<T>,
    k: nat,
    hop: int,
    accs: Seq<Vec<T>>,
) -> bool {
    &&& accs.len() == prev.len()
    &&& forall|j: int|
        #![trigger accs[j]]
        0 <= j < accs.len() ==> window_added(
            times,
            plus,
            prev[j]@,
            answer_channel(answer, j),
            weights,
            k,
            hop,
            accs[j]@,
        )
}

/// Whether a window's answer can be used: it is well formed and has a source,
/// and, from the second window on, as many sources as the first answer had.
pub open spec fn answer_fits<T: Copy>(answer: StemTensor<T>, sources: int, first: bool) -> bool {
    &&& answer.wf()
    &&& answer.sources >= 1
    &&& 2 * answer.sources <= usize::MAX
    &&& first || answer.sources == sources
}

/// `progress` was told that `done` of `total` windows are done.
pub open spec fn told_of<Q: Fn(SplitProgress)>(progress: &Q, done: nat, total: int) -> bool {
    call_ensures(
        progress,
        (SplitProgress::Chunks { done: done as usize, total: total as usize },),
        (),
    )
}

/// `accs` and `sums` are the accumulators after the first `k` windows.
///
/// There are two accumulators for each of the `sources` sources and one for
/// the window energy, each as long as the audio and one window, all `zero` at
/// first. Window `k`, counted from zero, is cut out at frame `k * hop` and
/// handed to `run`; each channel of its answer is weighed with `weights` and
/// added to its accumulator from frame `k * hop` on, and `energy` is added to
/// the energy sum there; then `progress` is told how many windows are done.
pub open spec fn separated<
    T: Copy,
    R: Fn(Vec<T>, Vec<T>) -> Result<StemTensor<T>, StemError>,
    W: Fn(T, T) -> T,
    P: Fn(T, T) -> T,
    Q: Fn(SplitProgress),
>(
    run: &R,
    times: &W,
    plus: &P,
    progress: &Q,
    stereo: Seq<[T; 2]>,
    win: int,
    hop: int,
    weights: Seq<T>,
    energy: Seq<T>,
    zero: T,
    sources: int,
    k: nat,
    accs: Seq<Vec<T>>,
    sums: Seq<T>,
) -> bool
    decreases k,
{
    if k == 0 {
        &&& accs.len() == 2 * sources
        &&& forall|j: int|
            0 <= j < accs.len() ==> (#[trigger] accs[j])@ == constant(
                (stereo.len() + win) as nat,
                zero,
            )
        &&& sums == constant((stereo.len() + win) as nat, zero)
    } else {
        exists|
            prev_accs: Seq<Vec<T>>,
            prev_sums: Seq<T>,
            left: Vec<T>,
            right: Vec<T>,
            answer: StemTensor<T>,
        |
            #![trigger
                all_added(times, plus, prev_accs, answer, weights, k, hop, accs),
                frame_added(plus, prev_sums, energy, k, hop, sums),
                call_ensures(run, (left, right), Ok::<StemTensor<T>, StemError>(answer))]
            separated(
                run,
                times,
                plus,
                progress,
                stereo,
                win,
                hop,
                weights,
                energy,
                zero,
                sources,
                (k - 1) as nat,
                prev_accs,
                prev_sums,
            ) && left@ == chunk(stereo, (k - 1) * hop, win, zero, 0) && right@ == chunk(
                stereo,
                (k - 1) * hop,
                win,
                zero,
                1,
            ) && call_ensures(run, (left, right), Ok::<StemTensor<T>, StemError>(answer))
                && answer_fits(answer, sources, false) && all_added(
                times,
                plus,
                prev_accs,
                answer,
                weights,
                k,
                hop,
                accs,
            ) && frame_added(plus, prev_sums, energy, k, hop, sums) && told_of(
                progress,
                k,
                windows_needed(stereo.len() as int, hop),
            )
    }
}

/// Frame `i` of stem `s` is what `normalize` made of the accumulators of the
/// stem's two channels and of the energy summed at frame `i`, for each of the
/// audio's `n` frames.
pub open spec fn stems_normalized<T, N: Fn(T, T) -> T>(
    normalize: &N,
    accs: Seq<Vec<T>>,
    sums: Seq<T>,
    n: int,
    stems: Seq<Vec<[T; 2]>>,
) -> bool {
    &&& 2 * stems.len() == accs.len()
    &&& forall|s: int| 0 <= s < stems.len() ==> (#[trigger] stems[s])@.len() == n
    &&& forall|s: int, i: int|
        #![trigger stems[s]@[i]]
        0 <= s < stems.len() && 0 <= i < n ==> call_ensures(
            normalize,
            (accs[2 * s]@[i], sums[i]),
            stems[s]@[i]@[0],
        ) && call_ensures(normalize, (accs[2 * s + 1]@[i], sums[i]), stems[s]@[i]@[1])
}

/// `stems` are the separated stems of `stereo`: all windows went through,
/// with the squared weights as the window energy, and the accumulators were
/// normalized.
pub open spec fn split_done<
    T: Copy,
    R: Fn(Vec<T>, Vec<T>) -> Result<StemTensor<T>, StemError>,
    W: Fn(T, T) -> T,
    P: Fn(T, T) -> T,
    N: Fn(T, T) -> T,
    Q: Fn(SplitProgress),
>(
    run: &R,
    times: &W,
    plus: &P,
    normalize: &N,
    progress: &Q,
    stereo: Seq<[T; 2]>,
    win: int,
    hop: int,
    weights: Seq<T>,
    zero: T,
    stems: Seq<Vec<[T; 2]>>,
) -> bool {
    exists|accs: Seq<Vec<T>>, sums: Seq<T>, energy: Seq<T>|
        #![trigger
            stems_normalized(normalize, accs, sums, stereo.len() as int, stems),
            weighted(times, weights, weights, energy)]
        stems.len() >= 1 && weighted(times, weights, weights, energy) && separated(
            run,
            times,
            plus,
            progress,
            stereo,
            win,
            hop,
            weights,
            energy,
            zero,
            stems.len() as int,
            windows_needed(stereo.len() as int, hop) as nat,
            accs,
            sums,
        ) && stems_normalized(normalize, accs, sums, stereo.len() as int, stems)
}

/// Window `k` made the split stop with `e`: the windows before it went
/// through, and for this one `run` failed with `e`, or gave `answer`, which
/// cannot be used and is reported as a shape mismatch.
pub open spec fn window_failed<
    T: Copy,
    R: Fn(Vec<T>, Vec<T>) -> Result<StemTensor<T>, StemError>,
    W: Fn(T, T) -> T,
    P: Fn(T, T) -> T,
    Q: Fn(SplitProgress),
>(
    run: &R,
    times: &W,
    plus: &P,
    progress: &Q,
    stereo: Seq<[T; 2]>,
    win: int,
    hop: int,
    weights: Seq<T>,
    energy: Seq<T>,
    zero: T,
    sources: int,
    k: nat,
    accs: Seq<Vec<T>>,
    sums: Seq<T>,
    left: Vec<T>,
    right: Vec<T>,
    answer: Result<StemTensor<T>, StemError>,
    e: StemError,
) -> bool {
    &&& k < windows_needed(stereo.len() as int, hop)
    &&& k > 0 ==> separated(
        run,
        times,
        plus,
        progress,
        stereo,
        win,
        hop,
        weights,
        energy,
        zero,
        sources,
        k,
        accs,
        sums,
    )
    &&& left@ == chunk(stereo, k * hop, win, zero, 0)
    &&& right@ == chunk(stereo, k * hop, win, zero, 1)
    &&& call_ensures(run, (left, right), answer)
    &&& match answer {
        Err(failure) => e == failure,
        Ok(a) => e == StemError::ShapeMismatch && !answer_fits(a, sources, k == 0),
    }
}

/// The split stopped with `e` at some window.
pub open spec fn split_failed<
    T: Copy,
    R: Fn(Vec<T>, Vec<T>) -> Result<StemTensor<T>, StemError>,
    W: Fn(T, T) -> T,
    P: Fn(T, T) -> T,
    Q: Fn(SplitProgress),
>(
    run: &R,
    times: &W,
    plus: &P,
    progress: &Q,
    stereo: Seq<[T; 2]>,
    win: int,
    hop: int,
    weights: Seq<T>,
    zero: T,
    e: StemError,
) -> bool {
    exists|
        sources: int,
        k: nat,
        accs: Seq<Vec<T>>,
        sums: Seq<T>,
        energy: Seq<T>,
        left: Vec<T>,
        right: Vec<T>,
        answer: Result<StemTensor<T>, StemError>,
    |
        #![trigger
            window_failed(run, times, plus, progress, stereo, win, hop, weights, energy, zero, sources, k, accs, sums, left, right, answer, e)]
        weighted(times, weights, weights, energy) && window_failed(
            run,
            times,
            plus,
            progress,
            stereo,
            win,
            hop,
            weights,
            energy,
            zero,
            sources,
            k,
            accs,
            sums,
            left,
            right,
            answer,
            e,
        )
}

/// Whether a window's answer is well formed and has a source, with room for
/// two accumulators for each source.
pub fn answer_usable<T: Copy>(answer: &StemTensor<T>) -> (ok: bool)
    ensures
        ok == answer_fits(*answer, 0, true),
{
    let held: usize = answer.data.len();
    if answer.sources < 1 || answer.sources > usize::MAX / 2 {
        return false;
    }
    let plane: usize = match answer.len.checked_mul(2) {
        Some(plane) => plane,
        None => {
            assert(answer.sources * (2 * answer.len) > usize::MAX) by (nonlinear_arith)
                requires
                    answer.sources >= 1,
                    2 * answer.len > usize::MAX,
            ;
            return false;
        },
    };
    match answer.sources.checked_mul(plane) {
        Some(total) => total == held,
        None => false,
    }
}

/// One more window: from the state after `k` windows to the state after
/// `k + 1`.
proof fn lemma_separated_step<
    T: Copy,
    R: Fn(Vec<T>, Vec<T>) -> Result<StemTensor<T>, StemError>,
    W: Fn(T, T) -> T,
    P: Fn(T, T) -> T,
    Q: Fn(SplitProgress),
>(
    run: &R,
    times: &W,
    plus: &P,
    progress: &Q,
    stereo: Seq<[T; 2]>,
    win: int,
    hop: int,
    weights: Seq<T>,
    energy: Seq<T>,
    zero: T,
    sources: int,
    k: nat,
    prev_accs: Seq<Vec<T>>,
    prev_sums: Seq<T>,
    left: Vec<T>,
    right: Vec<T>,
    answer: StemTensor<T>,
    accs: Seq<Vec<T>>,
    sums: Seq<T>,
)
    requires
        separated(
            run,
            times,
            plus,
            progress,
            stereo,
            win,
            hop,
            weights,
            energy,
            zero,
            sources,
            k,
            prev_accs,
            prev_sums,
        ),
        left@ == chunk(stereo, k * hop, win, zero, 0),
        right@ == chunk(stereo, k * hop, win, zero, 1),
        call_ensures(run, (left, right), Ok::<StemTensor<T>, StemError>(answer)),
        answer_fits(answer, sources, false),
        all_added(times, plus, prev_accs, answer, weights, (k + 1) as nat, hop, accs),
        frame_added(plus, prev_sums, energy, (k + 1) as nat, hop, sums),
        told_of(progress, (k + 1) as nat, windows_needed(stereo.len() as int, hop)),
    ensures
        separated(
            run,
            times,
            plus,
            progress,
            stereo,
            win,
            hop,
            weights,
            energy,
            zero,
            sources,
            (k + 1) as nat,
            accs,
            sums,
        ),
{
    let k1: nat = (k + 1) as nat;
    assert((k1 - 1) as nat == k);
    assert((k1 - 1) * hop == k * hop);
}

/// The accumulators of one split: two buffers for each source, left and
/// right, and the sum of the window energy, all equally long.
#[derive(Debug, PartialEq)]
pub struct StemAccumulator<T> {
    /// The buffers of the sources: `2 * s` is the left and `2 * s + 1` the
    /// right channel of source `s`.
    pub channels: Vec<Vec<T>>,
    /// The window energy summed at each frame.
    pub window_sum: Vec<T>,
}

impl<T: Copy> StemAccumulator<T> {
    /// Every source has two buffers, and every buffer is as long as the
    /// energy sum.
    pub open spec fn wf(&self) -> bool {
        &&& self.channels@.len() % 2 == 0
        &&& forall|j: int|
            0 <= j < self.channels@.len() ==> (#[trigger] self.channels@[j])@.len()
                == self.window_sum@.len()
    }

    /// The accumulators of `sources` sources over `len` frames, all `zero`.
    pub fn new(sources: usize, len: usize, zero: T) -> (acc: StemAccumulator<T>)
        requires
            2 * sources <= usize::MAX,
        ensures
            acc.wf(),
            acc.channels@.len() == 2 * sources,
            forall|j: int|
                0 <= j < acc.channels@.len() ==> (#[trigger] acc.channels@[j])@ == constant(
                    len as nat,
                    zero,
                ),
            acc.window_sum@ == constant(len as nat, zero),
    {
        let mut channels: Vec<Vec<T>> = Vec::new();
        let mut j: usize = 0;
        while j < 2 * sources
            invariant
                j <= 2 * sources,
                2 * sources <= usize::MAX,
                channels@.len() == j,
                forall|i: int|
                    0 <= i < j ==> (#[trigger] channels@[i])@ == constant(len as nat, zero),
            decreases 2 * sources - j,
        {
            channels.push(filled(len, zero));
            j += 1;
        }
        StemAccumulator { channels, window_sum: filled(len, zero) }
    }

    /// Adds the answer of window `k`, counted from zero, which starts at
    /// frame `pos`: each channel weighed and added to its buffer from `pos`
    /// on, and the window energy added to the energy sum.
    pub fn add_window<W: Fn(T, T) -> T, P: Fn(T, T) -> T>(
        &mut self,
        answer: &StemTensor<T>,
        weights: &[T],
        energy: &[T],
        k: usize,
        hop: usize,
        pos: usize,
        times: &W,
        plus: &P,
    )
        requires
            old(self).wf(),
            answer_fits(*answer, 0, true),
            old(self).channels@.len() == 2 * answer.sources,
            pos == k * hop,
            k < usize::MAX,
            forall|a: T, b: T| call_requires(times, (a, b)),
            forall|a: T, b: T| call_requires(plus, (a, b)),
        ensures
            final(self).wf(),
            final(self).window_sum@.len() == old(self).window_sum@.len(),
            all_added(
                times,
                plus,
                old(self).channels@,
                *answer,
                weights@,
                (k + 1) as nat,
                hop as int,
                final(self).channels@,
            ),
            frame_added(
                plus,
                old(self).window_sum@,
                energy@,
                (k + 1) as nat,
                hop as int,
                final(self).window_sum@,
            ),
    {
        let channels: usize = 2 * answer.sources;
        let len: usize = answer.len;
        let total: usize = answer.data.len();
        let ghost k1: nat = (k + 1) as nat;
        assert((k1 - 1) * hop == pos);
        let mut j: usize = 0;
        while j < channels
            invariant
                j <= channels,
                channels == 2 * answer.sources,
                len == answer.len,
                total == answer.data@.len(),
                total == answer.sources * (2 * len),
                self.channels@.len() == channels,
                old(self).channels@.len() == channels,
                self.window_sum == old(self).window_sum,
                k1 == k + 1,
                (k1 - 1) * hop == pos,
                forall|a: T, b: T| call_requires(times, (a, b)),
                forall|a: T, b: T| call_requires(plus, (a, b)),
                forall|i: int| j <= i < channels ==> self.channels@[i] == old(self).channels@[i],
                forall|i: int|
                    0 <= i < channels ==> (#[trigger] self.channels@[i])@.len() == old(
                        self,
                    ).channels@[i]@.len(),
                forall|i: int|
                    #![trigger self.channels@[i]]
                    0 <= i < j ==> window_added(
                        times,
                        plus,
                        old(self).channels@[i]@,
                        answer_channel(*answer, i),
                        weights@,
                        k1,
                        hop as int,
                        self.channels@[i]@,
                    ),
            decreases channels - j,
        {
            assert(j * len + len <= total && 0 <= j * len && (j + 1) * len == j * len + len)
                by (nonlinear_arith)
                requires
                    j < channels,
                    channels == 2 * answer.sources,
                    total == answer.sources * (2 * len),
                    0 <= len,
                    0 <= j,
            ;
            let samples = slice_subrange(answer.data.as_slice(), j * len, j * len + len);
            let x = weigh(samples, weights, times);
            let ghost before = self.channels@;
            overlap_add(&mut self.channels[j], x.as_slice(), pos, plus);
            proof {
                assert(samples@ == answer_channel(*answer, j as int));
                assert(frame_added(
                    plus,
                    before[j as int]@,
                    x@,
                    k1,
                    hop as int,
                    self.channels@[j as int]@,
                ));
                assert forall|i: int| 0 <= i < j implies window_added(
                    times,
                    plus,
                    old(self).channels@[i]@,
                    answer_channel(*answer, i),
                    weights@,
                    k1,
                    hop as int,
                    (#[trigger] self.channels@[i])@,
                ) by {
                    assert(self.channels@[i] == before[i]);
                }
            }
            j += 1;
        }
        overlap_add(&mut self.window_sum, energy, pos, plus);
    }

    /// The stems: every source's two buffers divided, frame by frame, by the
    /// energy sum, over the first `n` frames.
    pub fn normalize<N: Fn(T, T) -> T>(&self, n: usize, normalize: &N) -> (stems: Vec<Vec<[T; 2]>>)
        requires
            self.wf(),
            n <= self.window_sum@.len(),
            forall|a: T, b: T| call_requires(normalize, (a, b)),
        ensures
            stems_normalized(normalize, self.channels@, self.window_sum@, n as int, stems@),
    {
        let total: usize = self.channels.len();
        let sources: usize = total / 2;
        let mut stems: Vec<Vec<[T; 2]>> = Vec::new();
        let mut s: usize = 0;
        while s < sources
            invariant
                s <= sources,
                self.wf(),
                total == self.channels@.len(),
                total == 2 * sources,
                stems@.len() == s,
                n <= self.window_sum@.len(),
                forall|a: T, b: T| call_requires(normalize, (a, b)),
                forall|q: int| 0 <= q < s ==> (#[trigger] stems@[q])@.len() == n,
                forall|q: int, i: int|
                    #![trigger stems@[q]@[i]]
                    0 <= q < s && 0 <= i < n ==> call_ensures(
                        normalize,
                        (self.channels@[2 * q]@[i], self.window_sum@[i]),
                        stems@[q]@[i]@[0],
                    ) && call_ensures(
                        normalize,
                        (self.channels@[2 * q + 1]@[i], self.window_sum@[i]),
                        stems@[q]@[i]@[1],
                    ),
            decreases sources - s,
        {
            let stem = normalize_stem(
                &self.channels[2 * s],
                &self.channels[2 * s + 1],
                &self.window_sum,
                n,
                normalize,
            );
            stems.push(stem);
            s += 1;
        }
        stems
    }
}

/// Normalizes the accumulators of one stem over the audio's `n` frames.
fn normalize_stem<T: Copy, N: Fn(T, T) -> T>(
    left: &Vec<T>,
    right: &Vec<T>,
    sums: &Vec<T>,
    n: usize,
    normalize: &N,
) -> (stem: Vec<[T; 2]>)
    requires
        n <= left@.len(),
        n <= right@.len(),
        n <= sums@.len(),
        forall|a: T, b: T| call_requires(normalize, (a, b)),
    ensures
        stem@.len() == n,
        forall|i: int|
            #![trigger stem@[i]]
            0 <= i < n ==> call_ensures(normalize, (left@[i], sums@[i]), stem@[i]@[0])
                && call_ensures(normalize, (right@[i], sums@[i]), stem@[i]@[1]),
{
    let mut stem: Vec<[T; 2]> = Vec::new();
    let mut i: usize = 0;
    while i < n
        invariant
            i <= n,
            n <= left@.len(),
            n <= right@.len(),
            n <= sums@.len(),
            stem@.len() == i,
            forall|a: T, b: T| call_requires(normalize, (a, b)),
            forall|k: int|
                #![trigger stem@[k]]
                0 <= k < i ==> call_ensures(normalize, (left@[k], sums@[k]), stem@[k]@[0])
                    && call_ensures(normalize, (right@[k], sums@[k]), stem@[k]@[1]),
        decreases n - i,
    {
        let l = normalize(left[i], sums[i]);
        let r = normalize(right[i], sums[i]);
        let frame = [l, r];
        stem.push(frame);
        i += 1;
    }
    stem
}

/// Separates planar stereo audio into its stems, window by window.
///
/// A window of `win` frames is cut out every `hop` frames, zero-padded behind
/// the audio's end, and handed to `run`, which gives the window's sources.
/// The first answer says how many sources there are, and with that the
/// accumulators are set up. Each channel of each
/// source is weighed with `weights` (by `times`) and added (by `plus`) to the
/// source's accumulator at the window's place, and the window energy, which
/// is the weights multiplied with themselves, is added to the energy sum
/// there. After the last window every accumulator is divided by
/// the energy sum at its place (by `normalize`) over the audio's frames.
/// `progress` is told after each window how many of the windows are done.
pub fn split_planar<
    T: Copy,
    R: Fn(Vec<T>, Vec<T>) -> Result<StemTensor<T>, StemError>,
    W: Fn(T, T) -> T,
    P: Fn(T, T) -> T,
    N: Fn(T, T) -> T,
    Q: Fn(SplitProgress),
>(
    stereo: &[[T; 2]],
    win: usize,
    hop: usize,
    zero: T,
    weights: &[T],
    run: &R,
    times: &W,
    plus: &P,
    normalize: &N,
    progress: &Q,
) -> (res: Result<Vec<Vec<[T; 2]>>, StemError>)
    requires
        stereo@.len() + win <= usize::MAX,
        forall|l: Vec<T>, r: Vec<T>| call_requires(run, (l, r)),
        forall|a: T, b: T| call_requires(times, (a, b)),
        forall|a: T, b: T| call_requires(plus, (a, b)),
        forall|a: T, b: T| call_requires(normalize, (a, b)),
        forall|p: SplitProgress| call_requires(progress, (p,)),
    ensures
        stereo@.len() == 0 ==> res == Err::<Vec<Vec<[T; 2]>>, StemError>(
            StemError::InputInvalid(InputFault::EmptyAudio),
        ),
        stereo@.len() > 0 && !(0 < hop <= win) ==> res == Err::<Vec<Vec<[T; 2]>>, StemError>(
            StemError::InputInvalid(InputFault::WindowHop),
        ),
        stereo@.len() > 0 && 0 < hop <= win ==> match res {
            Ok(stems) => split_done(
                run,
                times,
                plus,
                normalize,
                progress,
                stereo@,
                win as int,
                hop as int,
                weights@,
                zero,
                stems@,
            ),
            Err(e) => split_failed(
                run,
                times,
                plus,
                progress,
                stereo@,
                win as int,
                hop as int,
                weights@,
                zero,
                e,
            ),
        },
{
    let n: usize = stereo.len();
    if n == 0 {
        return Err(StemError::InputInvalid(InputFault::EmptyAudio));
    }
    if !(win > 0 && hop > 0 && hop <= win) {
        return Err(StemError::InputInvalid(InputFault::WindowHop));
    }
    let count: usize = window_count(n, hop);
    let energy_held: Vec<T> = weigh(weights, weights, times);
    let energy: &[T] = energy_held.as_slice();
    let mut acc: StemAccumulator<T> = StemAccumulator::new(0, n + win, zero);
    let mut sources: usize = 0;
    let mut k: usize = 0;
    let mut pos: usize = 0;
    while k < count
        invariant
            k <= count,
            n == stereo@.len(),
            n > 0,
            0 < hop <= win,
            n + win <= usize::MAX,
            count == windows_needed(n as int, hop as int),
            pos == k * hop,
            acc.wf(),
            acc.window_sum@.len() == n + win,
            weighted(times, weights@, weights@, energy@),
            k == 0 ==> acc.window_sum@ == constant((n + win) as nat, zero),
            k > 0 ==> sources >= 1 && 2 * sources <= usize::MAX && acc.channels@.len() == 2
                * sources,
            k > 0 ==> separated(
                run,
                times,
                plus,
                progress,
                stereo@,
                win as int,
                hop as int,
                weights@,
                energy@,
                zero,
                sources as int,
                k as nat,
                acc.channels@,
                acc.window_sum@,
            ),
            forall|l: Vec<T>, r: Vec<T>| call_requires(run, (l, r)),
            forall|a: T, b: T| call_requires(times, (a, b)),
            forall|a: T, b: T| call_requires(plus, (a, b)),
            forall|p: SplitProgress| call_requires(progress, (p,)),
        decreases count - k,
    {
        proof {
            lemma_window_starts_inside(n as int, hop as int, k as int);
        }
        let window = extract_chunk(stereo, pos, win, zero);
        let ghost left = window.0;
        let ghost right = window.1;
        let answer = run(window.0, window.1);
        assert(call_ensures(run, (left, right), answer));
        let a = match answer {
            Ok(a) => a,
            Err(e) => {
                assert(window_failed(
                    run,
                    times,
                    plus,
                    progress,
                    stereo@,
                    win as int,
                    hop as int,
                    weights@,
                    energy@,
                    zero,
                    sources as int,
                    k as nat,
                    acc.channels@,
                    acc.window_sum@,
                    left,
                    right,
                    answer,
                    e,
                ));
                return Err(e);
            },
        };
        if !answer_usable(&a) || (k > 0 && a.sources != sources) {
            assert(!answer_fits(a, sources as int, k == 0));
            assert(window_failed(
                run,
                times,
                plus,
                progress,
                stereo@,
                win as int,
                hop as int,
                weights@,
                energy@,
                zero,
                sources as int,
                k as nat,
                acc.channels@,
                acc.window_sum@,
                left,
                right,
                answer,
                StemError::ShapeMismatch,
            ));
            return Err(StemError::ShapeMismatch);
        }
        if k == 0 {
            sources = a.sources;
            acc = StemAccumulator::new(sources, n + win, zero);
            assert(separated(
                run,
                times,
                plus,
                progress,
                stereo@,
                win as int,
                hop as int,
                weights@,
                energy@,
                zero,
                sources as int,
                0,
                acc.channels@,
                acc.window_sum@,
            ));
        }
        let ghost prev_accs = acc.channels@;
        let ghost prev_sums = acc.window_sum@;
        acc.add_window(&a, weights, energy, k, hop, pos, times, plus);
        progress(SplitProgress::Chunks { done: k + 1, total: count });
        proof {
            lemma_separated_step(
                run,
                times,
                plus,
                progress,
                stereo@,
                win as int,
                hop as int,
                weights@,
                energy@,
                zero,
                sources as int,
                k as nat,
                prev_accs,
                prev_sums,
                left,
                right,
                a,
                acc.channels@,
                acc.window_sum@,
            );
            assert((k + 1) * hop == pos + hop) by (nonlinear_arith)
                requires
                    pos == k * hop,
            ;
        }
        k += 1;
        pos += hop;
    }
    proof {
        lemma_window_starts_inside(n as int, hop as int, 0);
    }
    let stems = acc.normalize(n, normalize);
    Ok(stems)
}

/// Whether `key` stands in `name` at place `at`, capitals in `name` read as
/// lowercase.
pub open spec fn matches_at(name: Seq<char>, key: Seq<char>, at: int) -> bool {
    &&& 0 <= at
    &&& at + key.len() <= name.len()
    &&& forall|i: int| 0 <= i < key.len() ==> ascii_lower(#[trigger] name[at + i]) == key[i]
}

/// Whether `key` stands somewhere in `name`, capitals in `name` read as
/// lowercase.
pub open spec fn mentions(name: Seq<char>, key: Seq<char>) -> bool {
    exists|at: int| matches_at(name, key, at)
}

/// Whether `key` stands in `name` at place `at`.
fn check_matches_at(name: &Vec<char>, key: &Vec<char>, at: usize) -> (ok: bool)
    requires
        at + key@.len() <= name@.len(),
    ensures
        ok == matches_at(name@, key@, at as int),
{
    let m: usize = key.len();
    let total: usize = name.len();
    let mut i: usize = 0;
    while i < m
        invariant
            i <= m,
            m == key@.len(),
            total == name@.len(),
            at + m <= total,
            forall|k: int| 0 <= k < i ==> ascii_lower(#[trigger] name@[at + k]) == key@[k],
        decreases m - i,
    {
        if to_ascii_lower(name[at + i]) != key[i] {
            assert(ascii_lower(name@[at + i]) != key@[i as int]);
            return false;
        }
        i += 1;
    }
    true
}

/// Whether `key` stands somewhere in `name`, capitals in `name` read as
/// lowercase.
pub fn check_mentions(name: &str, key: &str) -> (ok: bool)
    ensures
        ok == mentions(name@, key@),
{
    let name_chars = characters(name);
    let key_chars = characters(key);
    let n: usize = name_chars.len();
    let m: usize = key_chars.len();
    if m > n {
        assert forall|at: int| !matches_at(name@, key@, at) by {}
        return false;
    }
    let last: usize = n - m;
    let mut at: usize = 0;
    while at <= last
        invariant
            at <= last + 1,
            last == n - m,
            n == name_chars@.len(),
            m == key_chars@.len(),
            name_chars@ == name@,
            key_chars@ == key@,
            forall|k: int| 0 <= k < at ==> !matches_at(name@, key@, k),
        decreases last + 1 - at,
    {
        if check_matches_at(&name_chars, &key_chars, at) {
            return true;
        }
        at += 1;
    }
    assert forall|k: int| !matches_at(name@, key@, k) by {}
    false
}

/// The first place from `from` on, below `limit`, whose name mentions `key`.
pub open spec fn first_mention(names: Seq<String>, key: Seq<char>, from: int, limit: int) -> Option<
    int,
>
    decreases limit - from,
{
    if from >= limit || from >= names.len() {
        None
    } else if from >= 0 && mentions(names[from]@, key) {
        Some(from)
    } else {
        first_mention(names, key, from + 1, limit)
    }
}

/// The source that is written as the stem `key`: the first of the model's
/// `count` sources whose name mentions `key`, and where none does, source
/// `fallback`, or the last source if there are fewer.
pub open spec fn stem_source(names: Seq<String>, key: Seq<char>, fallback: int, count: int) -> int {
    match first_mention(names, key, 0, count) {
        Some(i) => i,
        None => if fallback < count {
            fallback
        } else if count > 0 {
            count - 1
        } else {
            0
        },
    }
}

/// The source that is written as the stem `key`.
pub fn stem_index(names: &Vec<String>, key: &str, fallback: usize, count: usize) -> (index: usize)
    ensures
        index == stem_source(names@, key@, fallback as int, count as int),
        count > 0 ==> index < count,
{
    let mut i: usize = 0;
    while i < count && i < names.len()
        invariant
            i <= count,
            i <= names@.len(),
            first_mention(names@, key@, 0, count as int) == first_mention(
                names@,
                key@,
                i as int,
                count as int,
            ),
        decreases names@.len() - i,
    {
        if check_mentions(names[i].as_str(), key) {
            return i;
        }
        i += 1;
    }
    if fallback < count {
        fallback
    } else if count > 0 {
        count - 1
    } else {
        0
    }
}

/// The four files that a split writes.
#[derive(Debug, PartialEq, Eq)]
pub struct SplitResult {
    pub vocals_path: String,
    pub drums_path: String,
    pub bass_path: String,
    pub other_path: String,
}

/// The path of the file of stem `stem`: `base`, an underscore, the stem's
/// name and the suffix `.wav`.
pub open spec fn stem_path_text(base: Seq<char>, stem: Seq<char>) -> Seq<char> {
    base + "_"@ + stem + ".wav"@
}

/// The path of the file of stem `stem` for the output base `base`, which is
/// the output directory joined with the input file's stem.
pub fn stem_output_path(base: &str, stem: &str) -> (path: String)
    ensures
        path@ == stem_path_text(base@, stem@),
{
    String::from_str(base).concat("_").concat(stem).concat(".wav")
}

/// The paths of the four stems' files for the output base `base`.
pub fn split_result(base: &str) -> (result: SplitResult)
    ensures
        result.vocals_path@ == stem_path_text(base@, "vocals"@),
        result.drums_path@ == stem_path_text(base@, "drums"@),
        result.bass_path@ == stem_path_text(base@, "bass"@),
        result.other_path@ == stem_path_text(base@, "other"@),
{
    SplitResult {
        vocals_path: stem_output_path(base, "vocals"),
        drums_path: stem_output_path(base, "drums"),
        bass_path: stem_output_path(base, "bass"),
        other_path: stem_output_path(base, "other"),
    }
}

/// The number of stems that a split writes.
pub const STEM_COUNT: usize = 4;

/// The name of stem `k` in the canonical order: vocals, drums, bass, other.
pub open spec fn stem_key(k: int) -> Seq<char> {
    if k == 0 {
        "vocals"@
    } else if k == 1 {
        "drums"@
    } else if k == 2 {
        "bass"@
    } else {
        "other"@
    }
}

/// The name of stem `k` in the canonical order.
pub fn stem_key_name(k: usize) -> (name: &'static str)
    requires
        k < STEM_COUNT,
    ensures
        name@ == stem_key(k as int),
{
    if k == 0 {
        "vocals"
    } else if k == 1 {
        "drums"
    } else if k == 2 {
        "bass"
    } else {
        "other"
    }
}

/// `stereo` is the planar form of the interleaved `samples`.
pub open spec fn is_planar_of<T>(stereo: Seq<[T; 2]>, samples: Seq<T>, channels: u16) -> bool {
    &&& stereo.len() == planar_len(samples.len(), channels)
    &&& forall|i: int|
        0 <= i < stereo.len() ==> (#[trigger] stereo[i])@ == planar_frame(samples, channels, i)
}

/// `path` and `samples` are what is written for stem `k`: the file of the
/// stem's name, and, interleaved, the source that stands for the stem among
/// the model's sources named `names`.
pub open spec fn stem_file<T>(
    names: Seq<String>,
    stems: Seq<Vec<[T; 2]>>,
    base: Seq<char>,
    k: int,
    path: Seq<char>,
    samples: Seq<T>,
) -> bool {
    &&& path == stem_path_text(base, stem_key(k))
    &&& samples == interleaved(
        stems[stem_source(names, stem_key(k), k, stems.len() as int)]@,
    )
}

/// `write` gave `outcome` for the file of stem `k`, and `path` and `samples`
/// are what it was handed.
pub open spec fn stem_write<T, X: Fn(String, Vec<T>, u32) -> Result<(), StemError>>(
    write: &X,
    names: Seq<String>,
    stems: Seq<Vec<[T; 2]>>,
    base: Seq<char>,
    rate: u32,
    k: int,
    path: String,
    samples: Vec<T>,
    outcome: Result<(), StemError>,
) -> bool {
    stem_file(names, stems, base, k, path@, samples@) && call_ensures(
        write,
        (path, samples, rate),
        outcome,
    )
}

/// The file of stem `k` was written.
pub open spec fn stem_written<T, X: Fn(String, Vec<T>, u32) -> Result<(), StemError>>(
    write: &X,
    names: Seq<String>,
    stems: Seq<Vec<[T; 2]>>,
    base: Seq<char>,
    rate: u32,
    k: int,
) -> bool {
    exists|path: String, samples: Vec<T>, outcome: Result<(), StemError>|
        #![trigger stem_write(write, names, stems, base, rate, k, path, samples, outcome)]
        outcome.is_ok() && stem_write(write, names, stems, base, rate, k, path, samples, outcome)
}

/// `progress` was told that the phase `stage` begins.
pub open spec fn told_stage<Q: Fn(SplitProgress)>(progress: &Q, stage: Stage) -> bool {
    call_ensures(progress, (SplitProgress::Stage(stage),), ())
}

/// `progress` was told that the split is complete.
pub open spec fn told_finished<Q: Fn(SplitProgress)>(progress: &Q) -> bool {
    call_ensures(progress, (SplitProgress::Finished,), ())
}

/// `progress` was told, under the name `stem`, that the file of stem `k` is
/// written, which makes `k + 1` of the four.
pub open spec fn writing_told<Q: Fn(SplitProgress)>(progress: &Q, stem: String, k: int) -> bool {
    stem@ == stem_key(k) && call_ensures(
        progress,
        (SplitProgress::Writing { stem, done: (k + 1) as usize, total: STEM_COUNT },),
        (),
    )
}

/// `progress` was told that the file of stem `k` is written.
pub open spec fn told_writing<Q: Fn(SplitProgress)>(progress: &Q, k: int) -> bool {
    exists|stem: String| #![trigger writing_told(progress, stem, k)] writing_told(progress, stem, k)
}

/// The file of stem `k` was written, and `progress` was told so.
pub open spec fn stem_done<
    T,
    Q: Fn(SplitProgress),
    X: Fn(String, Vec<T>, u32) -> Result<(), StemError>,
>(
    write: &X,
    progress: &Q,
    names: Seq<String>,
    stems: Seq<Vec<[T; 2]>>,
    base: Seq<char>,
    rate: u32,
    k: int,
) -> bool {
    stem_written(write, names, stems, base, rate, k) && told_writing(progress, k)
}

/// `result` names the four files for the output base `base`.
pub open spec fn result_for(base: Seq<char>, result: SplitResult) -> bool {
    &&& result.vocals_path@ == stem_path_text(base, "vocals"@)
    &&& result.drums_path@ == stem_path_text(base, "drums"@)
    &&& result.bass_path@ == stem_path_text(base, "bass"@)
    &&& result.other_path@ == stem_path_text(base, "other"@)
}

/// The files of the first `k` stems were written and told of, and then
/// writing the file of stem `k` failed with `e`.
pub open spec fn writing_failed<
    T,
    Q: Fn(SplitProgress),
    X: Fn(String, Vec<T>, u32) -> Result<(), StemError>,
>(
    write: &X,
    progress: &Q,
    names: Seq<String>,
    stems: Seq<Vec<[T; 2]>>,
    base: Seq<char>,
    rate: u32,
    k: int,
    path: String,
    samples: Vec<T>,
    e: StemError,
) -> bool {
    &&& 0 <= k < STEM_COUNT
    &&& forall|j: int|
        0 <= j < k ==> #[trigger] stem_done(write, progress, names, stems, base, rate, j)
    &&& stem_write(write, names, stems, base, rate, k, path, samples, Err::<(), StemError>(e))
}

/// What `split_file` returns for audio that can be split, and what it tells
/// `progress`: that inference begins; then, with `stereo` the audio's frames,
/// either the split came to stems, writing began, each of the four files was
/// written and told of, the end was told, and the result names the files; or
/// the split failed; or writing began and a file could not be written.
pub open spec fn file_split<
    T: Copy,
    R: Fn(Vec<T>, Vec<T>) -> Result<StemTensor<T>, StemError>,
    W: Fn(T, T) -> T,
    P: Fn(T, T) -> T,
    N: Fn(T, T) -> T,
    Q: Fn(SplitProgress),
    X: Fn(String, Vec<T>, u32) -> Result<(), StemError>,
>(
    run: &R,
    times: &W,
    plus: &P,
    normalize: &N,
    progress: &Q,
    write: &X,
    stereo: Seq<[T; 2]>,
    manifest: ModelManifest,
    base: Seq<char>,
    weights: Seq<T>,
    zero: T,
    res: Result<SplitResult, StemError>,
) -> bool {
    &&& told_stage(progress, Stage::Infer)
    &&& match res {
        Ok(result) => {
            &&& result_for(base, result)
            &&& told_stage(progress, Stage::WriteStems)
            &&& told_stage(progress, Stage::Finalize)
            &&& told_finished(progress)
            &&& exists|stems: Seq<Vec<[T; 2]>>|
                #![trigger
                    split_done(run, times, plus, normalize, progress, stereo, manifest.window as int, manifest.hop as int, weights, zero, stems)]
                split_done(
                    run,
                    times,
                    plus,
                    normalize,
                    progress,
                    stereo,
                    manifest.window as int,
                    manifest.hop as int,
                    weights,
                    zero,
                    stems,
                ) && forall|k: int|
                    0 <= k < STEM_COUNT ==> #[trigger] stem_done(
                        write,
                        progress,
                        manifest.stems@,
                        stems,
                        base,
                        manifest.sample_rate,
                        k,
                    )
        },
        Err(e) => split_failed(
            run,
            times,
            plus,
            progress,
            stereo,
            manifest.window as int,
            manifest.hop as int,
            weights,
            zero,
            e,
        ) || (told_stage(progress, Stage::WriteStems) && exists|
            stems: Seq<Vec<[T; 2]>>,
            k: int,
            path: String,
            samples: Vec<T>,
        |
            #![trigger
                writing_failed(write, progress, manifest.stems@, stems, base, manifest.sample_rate, k, path, samples, e)]
            split_done(
                run,
                times,
                plus,
                normalize,
                progress,
                stereo,
                manifest.window as int,
                manifest.hop as int,
                weights,
                zero,
                stems,
            ) && writing_failed(
                write,
                progress,
                manifest.stems@,
                stems,
                base,
                manifest.sample_rate,
                k,
                path,
                samples,
                e,
            )),
    }
}

/// Splits decoded audio into its four stems and has them written.
///
/// The audio must have the model's sample rate, the supported one, and hold a
/// frame; the manifest's window and hop must satisfy `0 < hop <= window`. The
/// audio is brought into planar form and split window by window. Then, for
/// vocals, drums, bass and other in turn, the source that stands for the stem
/// is interleaved and handed to `write` with the path of the stem's file,
/// `base` followed by an underscore, the stem's name and `.wav`, and with the
/// model's sample rate. `progress` is told of the two phases, of each window
/// and each file, and of the end.
pub fn split_file<
    T: Copy,
    R: Fn(Vec<T>, Vec<T>) -> Result<StemTensor<T>, StemError>,
    W: Fn(T, T) -> T,
    P: Fn(T, T) -> T,
    N: Fn(T, T) -> T,
    Q: Fn(SplitProgress),
    X: Fn(String, Vec<T>, u32) -> Result<(), StemError>,
>(
    audio: &AudioData<T>,
    manifest: &ModelManifest,
    base: &str,
    zero: T,
    weights: &[T],
    run: &R,
    times: &W,
    plus: &P,
    normalize: &N,
    progress: &Q,
    write: &X,
) -> (res: Result<SplitResult, StemError>)
    requires
        planar_len(audio.samples@.len(), audio.channels) + manifest.window <= usize::MAX,
        forall|l: Vec<T>, r: Vec<T>| call_requires(run, (l, r)),
        forall|a: T, b: T| call_requires(times, (a, b)),
        forall|a: T, b: T| call_requires(plus, (a, b)),
        forall|a: T, b: T| call_requires(normalize, (a, b)),
        forall|p: SplitProgress| call_requires(progress, (p,)),
        forall|path: String, samples: Vec<T>, rate: u32|
            call_requires(write, (path, samples, rate)),
    ensures
        !(manifest.sample_rate == SUPPORTED_SAMPLE_RATE && audio.sample_rate
            == SUPPORTED_SAMPLE_RATE) ==> res == Err::<SplitResult, StemError>(
            StemError::InputInvalid(InputFault::SampleRate),
        ),
        manifest.sample_rate == SUPPORTED_SAMPLE_RATE && audio.sample_rate
            == SUPPORTED_SAMPLE_RATE ==> told_stage(progress, Stage::Infer),
        manifest.sample_rate == SUPPORTED_SAMPLE_RATE && audio.sample_rate
            == SUPPORTED_SAMPLE_RATE && planar_len(audio.samples@.len(), audio.channels) == 0
            ==> res == Err::<SplitResult, StemError>(
            StemError::InputInvalid(InputFault::EmptyAudio),
        ),
        manifest.sample_rate == SUPPORTED_SAMPLE_RATE && audio.sample_rate
            == SUPPORTED_SAMPLE_RATE && planar_len(audio.samples@.len(), audio.channels) > 0 && !(0
            < manifest.hop <= manifest.window) ==> res == Err::<SplitResult, StemError>(
            StemError::InputInvalid(InputFault::WindowHop),
        ),
        manifest.sample_rate == SUPPORTED_SAMPLE_RATE && audio.sample_rate
            == SUPPORTED_SAMPLE_RATE && planar_len(audio.samples@.len(), audio.channels) > 0 && 0
            < manifest.hop <= manifest.window ==> exists|stereo: Seq<[T; 2]>|
            #![trigger is_planar_of(stereo, audio.samples@, audio.channels)]
            is_planar_of(stereo, audio.samples@, audio.channels) && file_split(
                run,
                times,
                plus,
                normalize,
                progress,
                write,
                stereo,
                *manifest,
                base@,
                weights@,
                zero,
                res,
            ),
{
    match check_sample_rate(manifest.sample_rate, audio.sample_rate) {
        Ok(()) => {},
        Err(e) => {
            return Err(e);
        },
    }
    let stereo = to_planar_stereo(audio.samples.as_slice(), audio.channels);
    assert(is_planar_of(stereo@, audio.samples@, audio.channels));
    progress(SplitProgress::Stage(Stage::Infer));
    let stems = match split_planar(
        stereo.as_slice(),
        manifest.window,
        manifest.hop,
        zero,
        weights,
        run,
        times,
        plus,
        normalize,
        progress,
    ) {
        Ok(stems) => stems,
        Err(e) => {
            return Err(e);
        },
    };
    progress(SplitProgress::Stage(Stage::WriteStems));
    let mut k: usize = 0;
    while k < STEM_COUNT
        invariant
            k <= STEM_COUNT,
            stems@.len() >= 1,
            manifest.sample_rate == SUPPORTED_SAMPLE_RATE,
            audio.sample_rate == SUPPORTED_SAMPLE_RATE,
            planar_len(audio.samples@.len(), audio.channels) > 0,
            0 < manifest.hop <= manifest.window,
            is_planar_of(stereo@, audio.samples@, audio.channels),
            split_done(
                run,
                times,
                plus,
                normalize,
                progress,
                stereo@,
                manifest.window as int,
                manifest.hop as int,
                weights@,
                zero,
                stems@,
            ),
            forall|p: SplitProgress| call_requires(progress, (p,)),
            forall|path: String, samples: Vec<T>, rate: u32|
                call_requires(write, (path, samples, rate)),
            told_stage(progress, Stage::Infer),
            told_stage(progress, Stage::WriteStems),
            forall|j: int|
                0 <= j < k ==> #[trigger] stem_done(
                    write,
                    progress,
                    manifest.stems@,
                    stems@,
                    base@,
                    manifest.sample_rate,
                    j,
                ),
        decreases STEM_COUNT - k,
    {
        let key = stem_key_name(k);
        let source = stem_index(&manifest.stems, key, k, stems.len());
        let samples = interleave_stereo(stems[source].as_slice());
        let path = stem_output_path(base, key);
        let ghost handed_path = path;
        let ghost handed_samples = samples;
        let outcome = write(path, samples, manifest.sample_rate);
        assert(stem_write(
            write,
            manifest.stems@,
            stems@,
            base@,
            manifest.sample_rate,
            k as int,
            handed_path,
            handed_samples,
            outcome,
        ));
        match outcome {
            Ok(()) => {
                assert(stem_written(
                    write,
                    manifest.stems@,
                    stems@,
                    base@,
                    manifest.sample_rate,
                    k as int,
                ));
            },
            Err(e) => {
                assert(writing_failed(
                    write,
                    progress,
                    manifest.stems@,
                    stems@,
                    base@,
                    manifest.sample_rate,
                    k as int,
                    handed_path,
                    handed_samples,
                    e,
                ));
                return Err(e);
            },
        }
        let stem = String::from_str(key);
        let ghost told = stem;
        progress(SplitProgress::Writing { stem, done: k + 1, total: STEM_COUNT });
        assert(writing_told(progress, told, k as int));
        assert(stem_done(
            write,
            progress,
            manifest.stems@,
            stems@,
            base@,
            manifest.sample_rate,
            k as int,
        ));
        k += 1;
    }
    progress(SplitProgress::Stage(Stage::Finalize));
    progress(SplitProgress::Finished);
    Ok(split_result(base))
}

/// What a split is asked to do.
#[derive(Debug, PartialEq, Eq)]
pub struct SplitOptions {
    /// The directory the stems are written to.
    pub output_dir: String,
    /// The model's name in the registry.
    pub model_name: String,
    /// Where the manifest is fetched from instead of the registry's address.
    pub manifest_url_override: Option<String>,
}

impl Default for SplitOptions {
    /// The current directory, the default model, the registry's address.
    fn default() -> (options: SplitOptions)
        ensures
            options.output_dir@ == "."@,
            options.model_name@ == "mdx_4stem_v1"@,
            options.manifest_url_override.is_none(),
    {
        SplitOptions {
            output_dir: String::from_str("."),
            model_name: String::from_str("mdx_4stem_v1"),
            manifest_url_override: None,
        }
    }
}

} // verus!
