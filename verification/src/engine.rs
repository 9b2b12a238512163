//! The inference engine's side of one window: what is handed to the model,
//! what is made of its answer, and the engine's own state.

use crate::dsp::{
    all_inverse_transformed, inverse_transformed, istft_cac_stereo_parallel,
    stereo_frame_analyzed, stft_cac_stereo_centered,
};
use crate::error::{InputFault, StemError};
use crate::manifest::{ModelHandle, ModelManifest};
use crate::text::same_text;
use vstd::prelude::*;
use vstd::slice::*;
use vstd::string::*;

verus! {

/// The number of samples per channel in one window of the model.
pub const DEMUCS_T: usize = 343_980;

/// The number of frequency bins the model works on.
pub const DEMUCS_F: usize = 2048;

/// The number of frames in the spectrogram of one window.
pub const DEMUCS_FRAMES: usize = 336;

/// The transform size.
pub const DEMUCS_NFFT: usize = 4096;

/// The distance between two frames.
pub const DEMUCS_HOP: usize = 1024;

/// The number of values in the spectrogram of one source: four channels of
/// `DEMUCS_F` bins and `DEMUCS_FRAMES` frames.
pub const SPEC_PLANE: usize = 2_752_512;

/// The number of samples of one source: two channels of `DEMUCS_T` samples.
pub const WAVE_PLANE: usize = 687_960;

/// A tensor on its way to or from the model: its name in the model's
/// interface, its dimensions, and its values in row-major order.
#[derive(Debug, PartialEq)]
pub struct NamedTensor<T> {
    pub name: String,
    pub shape: Vec<i64>,
    pub data: Vec<T>,
}

/// The two tensors that the model takes for one window.
#[derive(Debug, PartialEq)]
pub struct WindowInputs<T> {
    /// The time branch, named `input`: both channels, left first.
    pub time: NamedTensor<T>,
    /// The spectrogram branch, named `x`.
    pub spec: NamedTensor<T>,
}

/// The separated sources of one window: for each source two channels of `len`
/// samples, in row-major order.
#[derive(Debug, PartialEq)]
pub struct StemTensor<T> {
    pub sources: usize,
    pub len: usize,
    pub data: Vec<T>,
}

impl<T: Copy> StemTensor<T> {
    /// The data has one value for each source, channel and sample.
    pub open spec fn wf(&self) -> bool {
        self.data@.len() == self.sources * (2 * self.len)
    }

    /// The place of sample `i` of channel `c` of source `s` in the data.
    pub open spec fn place(&self, s: int, c: int, i: int) -> int {
        s * (2 * self.len) + c * self.len + i
    }

    /// The dimensions: sources, channels, samples.
    pub fn shape(&self) -> (dims: [usize; 3])
        ensures
            dims@ == seq![self.sources, 2usize, self.len],
    {
        let dims = [self.sources, 2usize, self.len];
        assert(dims@ =~= seq![self.sources, 2usize, self.len]);
        dims
    }

    /// Sample `i` of channel `c` of source `s`.
    pub fn get(&self, s: usize, c: usize, i: usize) -> (v: T)
        requires
            self.wf(),
            s < self.sources,
            c < 2,
            i < self.len,
        ensures
            v == self.data@[self.place(s as int, c as int, i as int)],
    {
        assert(self.data@.len() == self.data.len());
        assert(2 * self.len <= self.sources * (2 * self.len)) by (nonlinear_arith)
            requires
                1 <= self.sources,
        ;
        let plane: usize = 2 * self.len;
        assert(s * plane + plane <= self.sources * plane) by (nonlinear_arith)
            requires
                s < self.sources,
                0 <= plane,
        ;
        assert(0 <= s * plane) by (nonlinear_arith);
        assert(c * self.len + i < plane) by (nonlinear_arith)
            requires
                c < 2,
                i < self.len,
                plane == 2 * self.len,
        ;
        assert(0 <= c * self.len) by (nonlinear_arith);
        self.data[s * plane + c * self.len + i]
    }
}

/// `a` followed by `b`.
pub fn joined<T: Copy>(a: &[T], b: &[T]) -> (out: Vec<T>)
    ensures
        out@ == a@ + b@,
{
    let mut out: Vec<T> = slice_to_vec(a);
    let n: usize = b.len();
    let mut i: usize = 0;
    while i < n
        invariant
            i <= n,
            n == b@.len(),
            out@ == a@ + b@.subrange(0, i as int),
        decreases n - i,
    {
        out.push(b[i]);
        assert(out@ =~= a@ + b@.subrange(0, i + 1));
        i += 1;
    }
    assert(b@.subrange(0, n as int) =~= b@);
    out
}

/// Whether one of `names` is `name`.
pub open spec fn has_name(names: Seq<String>, name: Seq<char>) -> bool {
    exists|i: int| 0 <= i < names.len() && (#[trigger] names[i])@ == name
}

/// Whether one of `names` is `name`.
pub fn contains_name(names: &Vec<String>, name: &str) -> (found: bool)
    ensures
        found == has_name(names@, name@),
{
    let mut i: usize = 0;
    while i < names.len()
        invariant
            i <= names@.len(),
            forall|k: int| 0 <= k < i ==> (#[trigger] names@[k])@ != name@,
        decreases names@.len() - i,
    {
        if same_text(names[i].as_str(), name) {
            return true;
        }
        i += 1;
    }
    false
}

/// What `prepare_window` hands to the model for the window `left`, `right`.
pub open spec fn inputs_built<T, W: Fn(T, T) -> T, A: Fn(Vec<T>) -> (Vec<T>, Vec<T>)>(
    times: &W,
    transform: &A,
    left: Seq<T>,
    right: Seq<T>,
    window: Seq<T>,
    zero: T,
    inputs: WindowInputs<T>,
) -> bool {
    &&& inputs.time.name@ == "input"@
    &&& inputs.time.shape@ == seq![1i64, 2i64, 343_980i64]
    &&& inputs.time.data@ == left + right
    &&& inputs.spec.name@ == "x"@
    &&& inputs.spec.shape@ == seq![1i64, 4i64, 2048i64, 336i64]
    &&& inputs.spec.data@.len() == SPEC_PLANE
    &&& forall|fr: int|
        0 <= fr < DEMUCS_FRAMES ==> #[trigger] stereo_frame_analyzed(
            times,
            transform,
            left,
            right,
            window,
            inputs.spec.data@,
            fr,
            DEMUCS_NFFT as int,
            DEMUCS_HOP as int,
            zero,
        )
}

/// Checks one window and builds the model's two inputs from it: the time
/// branch, both channels one after the other, and the spectrogram branch, the
/// center-padded transform of the window.
///
/// The channels must be equally long, and `DEMUCS_T` samples long; the model,
/// whose input names are `input_names`, must have the inputs `input` and `x`.
/// `window` is the analysis window of `DEMUCS_NFFT` values, `times` multiplies
/// a sample with a window value, and `transform` is the Fourier transform of
/// one frame.
pub fn prepare_window<T: Copy, W: Fn(T, T) -> T, A: Fn(Vec<T>) -> (Vec<T>, Vec<T>)>(
    left: &[T],
    right: &[T],
    zero: T,
    window: &[T],
    input_names: &Vec<String>,
    times: &W,
    transform: &A,
) -> (res: Result<WindowInputs<T>, StemError>)
    requires
        window@.len() == DEMUCS_NFFT,
        forall|a: T, b: T| call_requires(times, (a, b)),
        forall|x: Vec<T>| x@.len() == DEMUCS_NFFT ==> call_requires(transform, (x,)),
    ensures
        left@.len() != right@.len() ==> res == Err::<WindowInputs<T>, StemError>(
            StemError::InputInvalid(InputFault::LengthMismatch),
        ),
        left@.len() == right@.len() && left@.len() != DEMUCS_T ==> res == Err::<
            WindowInputs<T>,
            StemError,
        >(StemError::InputInvalid(InputFault::WindowLength)),
        left@.len() == right@.len() && left@.len() == DEMUCS_T && !has_name(
            input_names@,
            "input"@,
        ) ==> (res matches Err(StemError::ModelInterface(missing)) && missing@ == "input"@),
        left@.len() == right@.len() && left@.len() == DEMUCS_T && has_name(
            input_names@,
            "input"@,
        ) && !has_name(input_names@, "x"@) ==> (res matches Err(
            StemError::ModelInterface(missing),
        ) && missing@ == "x"@),
        left@.len() == right@.len() && left@.len() == DEMUCS_T && has_name(
            input_names@,
            "input"@,
        ) && has_name(input_names@, "x"@) ==> (res matches Ok(inputs) && inputs_built(
            times,
            transform,
            left@,
            right@,
            window@,
            zero,
            inputs,
        )),
{
    if left.len() != right.len() {
        return Err(StemError::InputInvalid(InputFault::LengthMismatch));
    }
    if left.len() != DEMUCS_T {
        return Err(StemError::InputInvalid(InputFault::WindowLength));
    }
    let planar = joined(left, right);
    let mut time_shape: Vec<i64> = Vec::new();
    time_shape.push(1i64);
    time_shape.push(2i64);
    time_shape.push(343_980i64);
    assert(time_shape@ =~= seq![1i64, 2i64, 343_980i64]);
    let spec = stft_cac_stereo_centered(
        left,
        right,
        DEMUCS_NFFT,
        DEMUCS_HOP,
        zero,
        window,
        times,
        transform,
    );
    if !contains_name(input_names, "input") {
        return Err(StemError::ModelInterface(String::from_str("input")));
    }
    if !contains_name(input_names, "x") {
        return Err(StemError::ModelInterface(String::from_str("x")));
    }
    let mut spec_shape: Vec<i64> = Vec::new();
    spec_shape.push(1i64);
    spec_shape.push(4i64);
    spec_shape.push(2048i64);
    spec_shape.push(336i64);
    assert(spec_shape@ =~= seq![1i64, 4i64, 2048i64, 336i64]);
    Ok(
        WindowInputs {
            time: NamedTensor { name: String::from_str("input"), shape: time_shape, data: planar },
            spec: NamedTensor { name: String::from_str("x"), shape: spec_shape, data: spec.0 },
        },
    )
}

/// The place of the last of `tensors` that is named `name`, if there is one.
pub open spec fn last_named<T>(tensors: Seq<NamedTensor<T>>, name: Seq<char>) -> Option<int>
    decreases tensors.len(),
{
    if tensors.len() == 0 {
        None
    } else if tensors.last().name@ == name {
        Some(tensors.len() - 1)
    } else {
        last_named(tensors.drop_last(), name)
    }
}

/// Finds the last of `tensors` that is named `name`.
pub fn find_last_named<T>(tensors: &Vec<NamedTensor<T>>, name: &str) -> (found: Option<usize>)
    ensures
        match found {
            Some(i) => last_named(tensors@, name@) == Some(i as int) && i < tensors@.len(),
            None => last_named(tensors@, name@).is_none(),
        },
{
    let mut i: usize = tensors.len();
    assert(tensors@.subrange(0, i as int) =~= tensors@);
    while i > 0
        invariant
            i <= tensors@.len(),
            last_named(tensors@, name@) == last_named(tensors@.subrange(0, i as int), name@),
        decreases i,
    {
        i -= 1;
        assert(tensors@.subrange(0, i + 1).last() == tensors@[i as int]);
        assert(tensors@.subrange(0, i + 1).drop_last() =~= tensors@.subrange(0, i as int));
        if same_text(tensors[i].name.as_str(), name) {
            return Some(i);
        }
    }
    None
}

/// Whether `shape` and the number of values are those of the model's
/// time-domain output: one batch of some sources, two channels, `DEMUCS_T`
/// samples.
pub open spec fn time_shape_ok(shape: Seq<i64>, data_len: nat) -> bool {
    &&& shape.len() == 4
    &&& shape[0] == 1
    &&& shape[1] >= 0
    &&& shape[2] == 2
    &&& shape[3] == DEMUCS_T
    &&& data_len == shape[1] * WAVE_PLANE
}

/// Whether `shape` and the number of values are those of the model's
/// frequency-domain output for `sources` sources: one batch, four channels,
/// `DEMUCS_F` bins, `DEMUCS_FRAMES` frames.
pub open spec fn freq_shape_ok(shape: Seq<i64>, data_len: nat, sources: int) -> bool {
    &&& shape.len() == 5
    &&& shape[0] == 1
    &&& shape[1] == sources
    &&& shape[2] == 4
    &&& shape[3] == DEMUCS_F
    &&& shape[4] == DEMUCS_FRAMES
    &&& data_len == sources * SPEC_PLANE
}

/// Checks the shape of the time-domain output; gives the number of sources.
pub fn check_time_shape(shape: &Vec<i64>, data_len: usize) -> (sources: Option<usize>)
    ensures
        sources.is_some() == time_shape_ok(shape@, data_len as nat),
        sources matches Some(n) ==> n == shape@[1],
{
    if shape.len() != 4 {
        return None;
    }
    if shape[0] != 1 || shape[1] < 0 || shape[2] != 2 || shape[3] != 343_980 {
        return None;
    }
    let declared: u128 = shape[1] as u128;
    if declared * 687_960u128 != data_len as u128 {
        return None;
    }
    Some(shape[1] as usize)
}

/// Checks the shape of the frequency-domain output.
pub fn check_freq_shape(shape: &Vec<i64>, data_len: usize, sources: usize) -> (ok: bool)
    ensures
        ok == freq_shape_ok(shape@, data_len as nat, sources as int),
{
    if shape.len() != 5 {
        return false;
    }
    if shape[0] != 1 || shape[1] < 0 || shape[2] != 4 || shape[3] != 2048 || shape[4] != 336 {
        return false;
    }
    if shape[1] as u128 != sources as u128 {
        return false;
    }
    sources as u128 * 2_752_512u128 == data_len as u128
}

/// The spectrogram of source `s` in the model's frequency-domain output.
pub open spec fn source_spec<T>(freq_data: Seq<T>, s: int) -> Seq<T> {
    freq_data.subrange(s * SPEC_PLANE, (s + 1) * SPEC_PLANE)
}

/// Channel `c` of source `s` in a buffer of stereo sources.
pub open spec fn source_wave<T>(data: Seq<T>, s: int, c: int) -> Seq<T> {
    data.subrange(s * WAVE_PLANE + c * DEMUCS_T, s * WAVE_PLANE + (c + 1) * DEMUCS_T)
}

/// `out` holds, sample by sample, what `plus` made of `time` and `freq`.
pub open spec fn branches_summed<T, P: Fn(T, T) -> T>(
    plus: &P,
    time: Seq<T>,
    freq: Seq<T>,
    out: Seq<T>,
) -> bool {
    &&& out.len() == time.len()
    &&& forall|i: int|
        #![trigger out[i]]
        0 <= i < out.len() ==> call_ensures(plus, (time[i], freq[i]), out[i])
}

/// Source `s` of `out` is the sum of the model's two branches: its
/// time-domain output and the inverse transform of its frequency-domain
/// output, channel by channel.
pub open spec fn source_combined<
    T,
    G: Fn(T) -> T,
    I: Fn(Vec<T>, Vec<T>) -> Vec<T>,
    W: Fn(T, T) -> T,
    P: Fn(T, T) -> T,
    N: Fn(T, T) -> T,
>(
    negate: &G,
    inverse: &I,
    times: &W,
    plus: &P,
    normalize: &N,
    time_data: Seq<T>,
    freq_data: Seq<T>,
    window: Seq<T>,
    scale: T,
    zero: T,
    s: int,
    out: Seq<T>,
) -> bool {
    exists|left: Seq<T>, right: Seq<T>|
        #![trigger branches_summed(plus, source_wave(time_data, s, 0), left, source_wave(out, s, 0)),
            branches_summed(plus, source_wave(time_data, s, 1), right, source_wave(out, s, 1))]
        inverse_transformed(
            negate,
            inverse,
            times,
            plus,
            normalize,
            source_spec(freq_data, s),
            window,
            scale,
            DEMUCS_F as int,
            DEMUCS_FRAMES as int,
            DEMUCS_NFFT as int,
            DEMUCS_HOP as int,
            DEMUCS_T as nat,
            zero,
            left,
            right,
        ) && branches_summed(plus, source_wave(time_data, s, 0), left, source_wave(out, s, 0))
            && branches_summed(plus, source_wave(time_data, s, 1), right, source_wave(out, s, 1))
}

/// Appends to `out` the sum of `time` and `freq`, sample by sample.
fn append_sum<T: Copy, P: Fn(T, T) -> T>(out: &mut Vec<T>, time: &[T], freq: &[T], plus: &P)
    requires
        time@.len() <= freq@.len(),
        forall|a: T, b: T| call_requires(plus, (a, b)),
    ensures
        final(out)@.len() == old(out)@.len() + time@.len(),
        final(out)@.subrange(0, old(out)@.len() as int) == old(out)@,
        branches_summed(
            plus,
            time@,
            freq@,
            final(out)@.subrange(old(out)@.len() as int, final(out)@.len() as int),
        ),
{
    let n: usize = time.len();
    let base: usize = out.len();
    let mut i: usize = 0;
    while i < n
        invariant
            i <= n,
            n == time@.len(),
            n <= freq@.len(),
            base == old(out)@.len(),
            out@.len() == base + i,
            out@.subrange(0, base as int) == old(out)@,
            forall|a: T, b: T| call_requires(plus, (a, b)),
            forall|k: int|
                #![trigger out@[base + k]]
                0 <= k < i ==> call_ensures(plus, (time@[k], freq@[k]), out@[base + k]),
        decreases n - i,
    {
        let ghost before = out@;
        let v = plus(time[i], freq[i]);
        out.push(v);
        assert(out@.subrange(0, base as int) =~= before.subrange(0, base as int));
        i += 1;
    }
    proof {
        let seg = out@.subrange(base as int, out@.len() as int);
        assert forall|k: int| 0 <= k < seg.len() implies call_ensures(
            plus,
            (time@[k], freq@[k]),
            #[trigger] seg[k],
        ) by {
            assert(seg[k] == out@[base + k]);
        }
    }
}

/// What the engine makes of the model's answer for one window.
pub open spec fn window_combined<
    T,
    G: Fn(T) -> T,
    I: Fn(Vec<T>, Vec<T>) -> Vec<T>,
    W: Fn(T, T) -> T,
    P: Fn(T, T) -> T,
    N: Fn(T, T) -> T,
>(
    negate: &G,
    inverse: &I,
    times: &W,
    plus: &P,
    normalize: &N,
    time: NamedTensor<T>,
    freq: NamedTensor<T>,
    window: Seq<T>,
    scale: T,
    zero: T,
    stems: StemTensor<T>,
) -> bool {
    &&& stems.sources == time.shape@[1]
    &&& stems.len == DEMUCS_T
    &&& stems.data@.len() == stems.sources * WAVE_PLANE
    &&& forall|s: int|
        0 <= s < stems.sources ==> #[trigger] source_combined(
            negate,
            inverse,
            times,
            plus,
            normalize,
            time.data@,
            freq.data@,
            window,
            scale,
            zero,
            s,
            stems.data@,
        )
}

/// What `combine_window` returns for the model's answer `outputs`: the missing
/// output reported, `output` before `add_67`; a shape that does not fit
/// reported; else the combined sources.
pub open spec fn answer_combined<
    T,
    G: Fn(T) -> T,
    I: Fn(Vec<T>, Vec<T>) -> Vec<T>,
    W: Fn(T, T) -> T,
    P: Fn(T, T) -> T,
    N: Fn(T, T) -> T,
>(
    negate: &G,
    inverse: &I,
    times: &W,
    plus: &P,
    normalize: &N,
    outputs: Seq<NamedTensor<T>>,
    window: Seq<T>,
    scale: T,
    zero: T,
    res: Result<StemTensor<T>, StemError>,
) -> bool {
    match (last_named(outputs, "output"@), last_named(outputs, "add_67"@)) {
        (None, _) => res matches Err(StemError::ModelInterface(missing)) && missing@
            == "output"@,
        (Some(_), None) => res matches Err(StemError::ModelInterface(missing)) && missing@
            == "add_67"@,
        (Some(f), Some(t)) => if time_shape_ok(outputs[t].shape@, outputs[t].data@.len())
            && freq_shape_ok(
            outputs[f].shape@,
            outputs[f].data@.len(),
            outputs[t].shape@[1] as int,
        ) {
            res matches Ok(stems) && window_combined(
                negate,
                inverse,
                times,
                plus,
                normalize,
                outputs[t],
                outputs[f],
                window,
                scale,
                zero,
                stems,
            )
        } else {
            res == Err::<StemTensor<T>, StemError>(StemError::ShapeMismatch)
        },
    }
}

/// A source that is complete in `shorter` is the same in any buffer that
/// `shorter` begins.
proof fn lemma_source_wave_kept<T>(shorter: Seq<T>, longer: Seq<T>, s: int, c: int)
    requires
        0 <= s,
        0 <= c < 2,
        (s + 1) * WAVE_PLANE <= shorter.len() <= longer.len(),
        longer.subrange(0, shorter.len() as int) == shorter,
    ensures
        source_wave(longer, s, c) == source_wave(shorter, s, c),
{
    assert forall|i: int| 0 <= i < shorter.len() implies longer[i] == shorter[i] by {
        assert(longer.subrange(0, shorter.len() as int)[i] == longer[i]);
    }
    assert(source_wave(longer, s, c) =~= source_wave(shorter, s, c));
}

/// Combines the model's two outputs for one window into the separated sources.
///
/// The outputs are picked by name, `output` for the frequency domain and
/// `add_67` for the time domain; where a name occurs twice the last one counts.
/// The number of sources is read off the time-domain shape. Each source's
/// spectrogram is taken back to the time domain, with the synthesis window
/// `window` and the factor `scale`, and added, with `plus`, to the source's
/// time-domain samples (time-domain sample first).
pub fn combine_window<
    T: Copy + Send + Sync,
    G: Fn(T) -> T + Sync,
    I: Fn(Vec<T>, Vec<T>) -> Vec<T> + Sync,
    W: Fn(T, T) -> T + Sync,
    P: Fn(T, T) -> T + Sync,
    N: Fn(T, T) -> T + Sync,
>(
    outputs: &Vec<NamedTensor<T>>,
    zero: T,
    window: &[T],
    scale: T,
    negate: &G,
    inverse: &I,
    times: &W,
    plus: &P,
    normalize: &N,
) -> (res: Result<StemTensor<T>, StemError>)
    requires
        forall|x: T| call_requires(negate, (x,)),
        forall|re: Vec<T>, im: Vec<T>|
            re@.len() == DEMUCS_NFFT && im@.len() == DEMUCS_NFFT ==> call_requires(
                inverse,
                (re, im),
            ),
        forall|a: T, b: T| call_requires(times, (a, b)),
        forall|a: T, b: T| call_requires(plus, (a, b)),
        forall|a: T, b: T| call_requires(normalize, (a, b)),
    ensures
        answer_combined(
            negate,
            inverse,
            times,
            plus,
            normalize,
            outputs@,
            window@,
            scale,
            zero,
            res,
        ),
{
    let freq_at = match find_last_named(outputs, "output") {
        Some(i) => i,
        None => {
            return Err(StemError::ModelInterface(String::from_str("output")));
        },
    };
    let time_at = match find_last_named(outputs, "add_67") {
        Some(i) => i,
        None => {
            return Err(StemError::ModelInterface(String::from_str("add_67")));
        },
    };
    let time = &outputs[time_at];
    let freq = &outputs[freq_at];
    let sources = match check_time_shape(&time.shape, time.data.len()) {
        Some(n) => n,
        None => {
            return Err(StemError::ShapeMismatch);
        },
    };
    if !check_freq_shape(&freq.shape, freq.data.len(), sources) {
        return Err(StemError::ShapeMismatch);
    }
    let freq_total: usize = freq.data.len();
    let time_total: usize = time.data.len();
    let mut specs: Vec<Vec<T>> = Vec::new();
    let mut s: usize = 0;
    while s < sources
        invariant
            s <= sources,
            freq.data@.len() == freq_total,
            freq_total == sources * SPEC_PLANE,
            specs@.len() == s,
            forall|k: int| 0 <= k < s ==> (#[trigger] specs@[k])@ == source_spec(freq.data@, k),
        decreases sources - s,
    {
        let part = slice_to_vec(
            slice_subrange(freq.data.as_slice(), s * SPEC_PLANE, (s + 1) * SPEC_PLANE),
        );
        specs.push(part);
        s += 1;
    }
    let waves = istft_cac_stereo_parallel(
        &specs,
        DEMUCS_F,
        DEMUCS_FRAMES,
        DEMUCS_NFFT,
        DEMUCS_HOP,
        DEMUCS_T,
        zero,
        window,
        scale,
        negate,
        inverse,
        times,
        plus,
        normalize,
    );
    let mut data: Vec<T> = Vec::new();
    let mut s: usize = 0;
    while s < sources
        invariant
            s <= sources,
            time.data@.len() == time_total,
            time_total == sources * WAVE_PLANE,
            data@.len() == s * WAVE_PLANE,
            specs@.len() == sources,
            forall|k: int|
                0 <= k < sources ==> (#[trigger] specs@[k])@ == source_spec(freq.data@, k),
            all_inverse_transformed(
                negate,
                inverse,
                times,
                plus,
                normalize,
                specs@,
                window@,
                scale,
                DEMUCS_F as int,
                DEMUCS_FRAMES as int,
                DEMUCS_NFFT as int,
                DEMUCS_HOP as int,
                DEMUCS_T as nat,
                zero,
                waves@,
            ),
            forall|a: T, b: T| call_requires(plus, (a, b)),
            forall|k: int|
                0 <= k < s ==> #[trigger] source_combined(
                    negate,
                    inverse,
                    times,
                    plus,
                    normalize,
                    time.data@,
                    freq.data@,
                    window@,
                    scale,
                    zero,
                    k,
                    data@,
                ),
        decreases sources - s,
    {
        let ghost before = data@;
        let time_left = slice_subrange(
            time.data.as_slice(),
            s * WAVE_PLANE,
            s * WAVE_PLANE + DEMUCS_T,
        );
        let time_right = slice_subrange(
            time.data.as_slice(),
            s * WAVE_PLANE + DEMUCS_T,
            (s + 1) * WAVE_PLANE,
        );
        assert(waves@[s as int].0@.len() == DEMUCS_T);
        assert(waves@[s as int].1@.len() == DEMUCS_T);
        append_sum(&mut data, time_left, waves[s].0.as_slice(), plus);
        let ghost middle = data@;
        append_sum(&mut data, time_right, waves[s].1.as_slice(), plus);
        proof {
            assert(middle.subrange(before.len() as int, middle.len() as int) =~= source_wave(
                data@,
                s as int,
                0,
            )) by {
                assert forall|i: int| 0 <= i < middle.len() implies data@[i] == middle[i] by {
                    assert(data@.subrange(0, middle.len() as int)[i] == data@[i]);
                }
            }
            assert(data@.subrange(middle.len() as int, data@.len() as int) =~= source_wave(
                data@,
                s as int,
                1,
            ));
            assert(time_left@ =~= source_wave(time.data@, s as int, 0));
            assert(time_right@ =~= source_wave(time.data@, s as int, 1));
            assert(source_combined(
                negate,
                inverse,
                times,
                plus,
                normalize,
                time.data@,
                freq.data@,
                window@,
                scale,
                zero,
                s as int,
                data@,
            ));
            assert(data@.subrange(0, before.len() as int) =~= before) by {
                assert forall|i: int| 0 <= i < before.len() implies data@[i] == before[i] by {
                    assert(data@.subrange(0, middle.len() as int)[i] == data@[i]);
                    assert(middle.subrange(0, before.len() as int)[i] == middle[i]);
                }
            }
            assert forall|k: int| 0 <= k < s implies #[trigger] source_combined(
                negate,
                inverse,
                times,
                plus,
                normalize,
                time.data@,
                freq.data@,
                window@,
                scale,
                zero,
                k,
                data@,
            ) by {
                lemma_source_wave_kept(before, data@, k, 0);
                lemma_source_wave_kept(before, data@, k, 1);
                assert(source_combined(
                    negate,
                    inverse,
                    times,
                    plus,
                    normalize,
                    time.data@,
                    freq.data@,
                    window@,
                    scale,
                    zero,
                    k,
                    before,
                ));
            }
        }
        s += 1;
    }
    Ok(StemTensor { sources, len: DEMUCS_T, data })
}

/// What `run_window_demucs` returns where the window and the model's inputs
/// are in order: the model was handed the inputs built from the window; its
/// failure is returned as it is, and its answer combined.
pub open spec fn window_run<
    T,
    A: Fn(Vec<T>) -> (Vec<T>, Vec<T>),
    M: FnOnce(WindowInputs<T>) -> Result<Vec<NamedTensor<T>>, StemError>,
    G: Fn(T) -> T,
    I: Fn(Vec<T>, Vec<T>) -> Vec<T>,
    W: Fn(T, T) -> T,
    P: Fn(T, T) -> T,
    N: Fn(T, T) -> T,
>(
    transform: &A,
    infer: M,
    negate: &G,
    inverse: &I,
    times: &W,
    plus: &P,
    normalize: &N,
    left: Seq<T>,
    right: Seq<T>,
    window: Seq<T>,
    scale: T,
    zero: T,
    res: Result<StemTensor<T>, StemError>,
) -> bool {
    exists|inputs: WindowInputs<T>, answer: Result<Vec<NamedTensor<T>>, StemError>|
        #![trigger call_ensures(infer, (inputs,), answer)]
        inputs_built(times, transform, left, right, window, zero, inputs) && call_ensures(
            infer,
            (inputs,),
            answer,
        )
            && match answer {
            Ok(outputs) => answer_combined(
                negate,
                inverse,
                times,
                plus,
                normalize,
                outputs@,
                window,
                scale,
                zero,
                res,
            ),
            Err(e) => res == Err::<StemTensor<T>, StemError>(e),
        }
}

/// Separates one window of `DEMUCS_T` stereo samples into its sources.
///
/// The window is checked and turned into the model's two inputs; `infer` runs
/// the model on them and returns its named outputs; these are combined into
/// the sources' samples. `input_names` are the names of the inputs that the
/// loaded model declares. `window` is the window of both transforms and
/// `scale` the factor of the inverse one; the kernels do the arithmetic on
/// samples and the Fourier transforms of single frames.
pub fn run_window_demucs<
    T: Copy + Send + Sync,
    A: Fn(Vec<T>) -> (Vec<T>, Vec<T>),
    M: FnOnce(WindowInputs<T>) -> Result<Vec<NamedTensor<T>>, StemError>,
    G: Fn(T) -> T + Sync,
    I: Fn(Vec<T>, Vec<T>) -> Vec<T> + Sync,
    W: Fn(T, T) -> T + Sync,
    P: Fn(T, T) -> T + Sync,
    N: Fn(T, T) -> T + Sync,
>(
    left: &[T],
    right: &[T],
    zero: T,
    window: &[T],
    scale: T,
    input_names: &Vec<String>,
    transform: &A,
    infer: M,
    negate: &G,
    inverse: &I,
    times: &W,
    plus: &P,
    normalize: &N,
) -> (res: Result<StemTensor<T>, StemError>)
    requires
        window@.len() == DEMUCS_NFFT,
        forall|x: Vec<T>| x@.len() == DEMUCS_NFFT ==> call_requires(transform, (x,)),
        forall|a: T, b: T| call_requires(times, (a, b)),
        forall|inputs: WindowInputs<T>| call_requires(infer, (inputs,)),
        forall|x: T| call_requires(negate, (x,)),
        forall|re: Vec<T>, im: Vec<T>|
            re@.len() == DEMUCS_NFFT && im@.len() == DEMUCS_NFFT ==> call_requires(
                inverse,
                (re, im),
            ),
        forall|a: T, b: T| call_requires(plus, (a, b)),
        forall|a: T, b: T| call_requires(normalize, (a, b)),
    ensures
        left@.len() != right@.len() ==> res == Err::<StemTensor<T>, StemError>(
            StemError::InputInvalid(InputFault::LengthMismatch),
        ),
        left@.len() == right@.len() && left@.len() != DEMUCS_T ==> res == Err::<
            StemTensor<T>,
            StemError,
        >(StemError::InputInvalid(InputFault::WindowLength)),
        left@.len() == right@.len() && left@.len() == DEMUCS_T && !has_name(
            input_names@,
            "input"@,
        ) ==> (res matches Err(StemError::ModelInterface(missing)) && missing@ == "input"@),
        left@.len() == right@.len() && left@.len() == DEMUCS_T && has_name(
            input_names@,
            "input"@,
        ) && !has_name(input_names@, "x"@) ==> (res matches Err(
            StemError::ModelInterface(missing),
        ) && missing@ == "x"@),
        left@.len() == right@.len() && left@.len() == DEMUCS_T && has_name(
            input_names@,
            "input"@,
        ) && has_name(input_names@, "x"@) ==> window_run(
            transform,
            infer,
            negate,
            inverse,
            times,
            plus,
            normalize,
            left@,
            right@,
            window@,
            scale,
            zero,
            res,
        ),
{
    let inputs = match prepare_window(left, right, zero, window, input_names, times, transform) {
        Ok(inputs) => inputs,
        Err(e) => {
            return Err(e);
        },
    };
    let ghost handed = inputs;
    let answer = infer(inputs);
    assert(call_ensures(infer, (handed,), answer));
    match answer {
        Ok(outputs) => combine_window(
            &outputs,
            zero,
            window,
            scale,
            negate,
            inverse,
            times,
            plus,
            normalize,
        ),
        Err(e) => Err(e),
    }
}

/// One source of the identity answer: `len` samples of `left`, then `len`
/// samples of `right`.
pub open spec fn identity_source<T>(left: Seq<T>, right: Seq<T>, len: int) -> Seq<T> {
    left.subrange(0, len) + right.subrange(0, len)
}

/// The answer of an inference that changes nothing: four sources, each the
/// window itself, cut to the shorter of the two channels.
pub fn identity_stems<T: Copy>(left: &[T], right: &[T]) -> (stems: StemTensor<T>)
    requires
        8 * left@.len() <= usize::MAX,
    ensures
        stems.wf(),
        stems.sources == 4,
        stems.len == if left@.len() <= right@.len() {
            left@.len()
        } else {
            right@.len()
        },
        stems.data@ == identity_source(left@, right@, stems.len as int) + identity_source(
            left@,
            right@,
            stems.len as int,
        ) + identity_source(left@, right@, stems.len as int) + identity_source(
            left@,
            right@,
            stems.len as int,
        ),
{
    let t: usize = if left.len() <= right.len() {
        left.len()
    } else {
        right.len()
    };
    let source = joined(slice_subrange(left, 0, t), slice_subrange(right, 0, t));
    let twice = joined(source.as_slice(), source.as_slice());
    let data = joined(twice.as_slice(), twice.as_slice());
    assert(data@ =~= source@ + source@ + source@ + source@);
    StemTensor { sources: 4, len: t, data }
}

/// A hardware accelerator that the runtime may run the model on.
#[derive(Debug, Clone, Copy, PartialEq, Eq, Structural)]
pub enum Provider {
    Cuda,
    CoreMl,
    DirectMl,
    OneDnn,
}

/// Which accelerators this build and this run allow.
#[derive(Debug, Clone, Copy, PartialEq, Eq, Structural)]
pub struct ProviderConfig {
    /// CUDA is built in and the platform has it.
    pub cuda: bool,
    /// CoreML is built in and the platform has it.
    pub coreml: bool,
    /// DirectML is built in and the platform has it.
    pub directml: bool,
    /// oneDNN is built in.
    pub onednn: bool,
    /// The run opts into CoreML.
    pub enable_coreml: bool,
    /// The run opts into DirectML.
    pub enable_directml: bool,
    /// The run asks for plain CPU execution, whatever is built in.
    pub force_cpu: bool,
}

/// `provider` alone if `wanted`, else nothing.
pub open spec fn provider_if(wanted: bool, provider: Provider) -> Seq<Provider> {
    if wanted {
        seq![provider]
    } else {
        Seq::empty()
    }
}

/// The accelerators to try, in their declared order: CUDA, CoreML, DirectML,
/// oneDNN. CoreML and DirectML are tried only where the run opts in.
pub open spec fn provider_list(cfg: ProviderConfig) -> Seq<Provider> {
    provider_if(cfg.cuda, Provider::Cuda) + provider_if(
        cfg.coreml && cfg.enable_coreml,
        Provider::CoreMl,
    ) + provider_if(cfg.directml && cfg.enable_directml, Provider::DirectMl) + provider_if(
        cfg.onednn,
        Provider::OneDnn,
    )
}

/// The accelerators to try, in their declared order.
pub fn get_execution_providers(cfg: &ProviderConfig) -> (providers: Vec<Provider>)
    ensures
        providers@ == provider_list(*cfg),
{
    let mut providers: Vec<Provider> = Vec::new();
    if cfg.cuda {
        providers.push(Provider::Cuda);
    }
    if cfg.coreml && cfg.enable_coreml {
        providers.push(Provider::CoreMl);
    }
    if cfg.directml && cfg.enable_directml {
        providers.push(Provider::DirectMl);
    }
    if cfg.onednn {
        providers.push(Provider::OneDnn);
    }
    assert(providers@ =~= provider_list(*cfg));
    providers
}

/// One attempt to load the model: on an accelerator, or on the plain CPU.
#[derive(Debug, Clone, Copy, PartialEq, Eq, Structural)]
pub enum LoadAttempt {
    Accelerated(Provider),
    Cpu,
}

/// `load` may fail on the accelerator `provider`.
pub open spec fn attempt_failed<S, L: Fn(LoadAttempt) -> Result<S, StemError>>(
    load: &L,
    provider: Provider,
) -> bool {
    exists|r: Result<S, StemError>|
        #![trigger call_ensures(load, (LoadAttempt::Accelerated(provider),), r)]
        r.is_err() && call_ensures(load, (LoadAttempt::Accelerated(provider),), r)
}

/// `res` is the outcome of the attempt after `k` failures: a session on
/// accelerator `k` of `candidates`, or, after the last of them, whatever the
/// plain CPU gives.
pub open spec fn attempt_selected<S, L: Fn(LoadAttempt) -> Result<S, StemError>>(
    load: &L,
    candidates: Seq<Provider>,
    k: int,
    res: Result<S, StemError>,
) -> bool {
    if k < candidates.len() {
        res.is_ok() && call_ensures(load, (LoadAttempt::Accelerated(candidates[k]),), res)
    } else {
        call_ensures(load, (LoadAttempt::Cpu,), res)
    }
}

/// `res` is what the cascade over `candidates` ends in: some number of
/// accelerators failed, in order, and the next attempt gave `res`.
pub open spec fn cascade_result<S, L: Fn(LoadAttempt) -> Result<S, StemError>>(
    load: &L,
    candidates: Seq<Provider>,
    res: Result<S, StemError>,
) -> bool {
    exists|k: int|
        #![trigger attempt_selected(load, candidates, k, res)]
        0 <= k <= candidates.len() && (forall|j: int|
            0 <= j < k ==> attempt_failed(load, #[trigger] candidates[j])) && attempt_selected(
            load,
            candidates,
            k,
            res,
        )
}

/// Loads the model on the first of `candidates` that takes it, in order, and
/// on the plain CPU when none does. The failure of an accelerator is passed
/// over; only the failure of the plain CPU is returned.
pub fn commit_session_sequential_eps<S, L: Fn(LoadAttempt) -> Result<S, StemError>>(
    candidates: &Vec<Provider>,
    load: &L,
) -> (res: Result<S, StemError>)
    requires
        forall|attempt: LoadAttempt| call_requires(load, (attempt,)),
    ensures
        cascade_result(load, candidates@, res),
{
    let mut i: usize = 0;
    while i < candidates.len()
        invariant
            i <= candidates@.len(),
            forall|attempt: LoadAttempt| call_requires(load, (attempt,)),
            forall|j: int| 0 <= j < i ==> attempt_failed(load, #[trigger] candidates@[j]),
        decreases candidates@.len() - i,
    {
        let outcome = load(LoadAttempt::Accelerated(candidates[i]));
        if outcome.is_ok() {
            assert(attempt_selected(load, candidates@, i as int, outcome));
            return outcome;
        }
        assert(attempt_failed(load, candidates@[i as int]));
        i += 1;
    }
    let outcome = load(LoadAttempt::Cpu);
    assert(attempt_selected(load, candidates@, candidates@.len() as int, outcome));
    outcome
}

/// Loads the model as the configuration asks: on the plain CPU at once where
/// it is forced, else by the cascade over the configured accelerators.
pub fn commit_session<S, L: Fn(LoadAttempt) -> Result<S, StemError>>(
    cfg: &ProviderConfig,
    load: &L,
) -> (res: Result<S, StemError>)
    requires
        forall|attempt: LoadAttempt| call_requires(load, (attempt,)),
    ensures
        cfg.force_cpu ==> call_ensures(load, (LoadAttempt::Cpu,), res),
        !cfg.force_cpu ==> cascade_result(load, provider_list(*cfg), res),
{
    if cfg.force_cpu {
        load(LoadAttempt::Cpu)
    } else {
        let providers = get_execution_providers(cfg);
        commit_session_sequential_eps(&providers, load)
    }
}

/// Where the engine stands.
#[derive(Debug, Clone, Copy, PartialEq, Eq, Structural)]
pub enum EngineState {
    /// No model was loaded.
    Uninitialized,
    /// A model is being loaded.
    Loading,
    /// A model is loaded and idle.
    Ready,
    /// A window is being separated.
    Running,
}

/// What can happen to the engine.
#[derive(Debug, Clone, Copy, PartialEq, Eq, Structural)]
pub enum EngineEvent {
    /// Loading starts.
    LoadStarted,
    /// Loading failed.
    LoadFailed,
    /// A model was loaded.
    Loaded,
    /// A window starts.
    WindowStarted,
    /// A window ended.
    WindowEnded,
}

/// The state after `event`. An event that does not fit the state changes
/// nothing: a model that arrives when one is loaded is not swapped in.
pub open spec fn next_state(state: EngineState, event: EngineEvent) -> EngineState {
    match (state, event) {
        (EngineState::Uninitialized, EngineEvent::LoadStarted) => EngineState::Loading,
        (EngineState::Loading, EngineEvent::LoadFailed) => EngineState::Uninitialized,
        (EngineState::Uninitialized, EngineEvent::Loaded) => EngineState::Ready,
        (EngineState::Loading, EngineEvent::Loaded) => EngineState::Ready,
        (EngineState::Ready, EngineEvent::WindowStarted) => EngineState::Running,
        (EngineState::Running, EngineEvent::WindowEnded) => EngineState::Ready,
        _ => state,
    }
}

/// Whether a model is loaded in `state`.
pub open spec fn is_loaded(state: EngineState) -> bool {
    state == EngineState::Ready || state == EngineState::Running
}

/// A loaded engine stays loaded: no event leads back to a state without a
/// model.
pub proof fn lemma_loaded_is_stable(state: EngineState, event: EngineEvent)
    requires
        is_loaded(state),
    ensures
        is_loaded(next_state(state, event)),
{
}

/// A second load changes nothing: on a loaded engine `Loaded` is without
/// effect.
pub proof fn lemma_second_preload_is_noop(state: EngineState)
    requires
        is_loaded(state),
    ensures
        next_state(state, EngineEvent::Loaded) == state,
{
}

/// The engine: its state, and the manifest of the model it has loaded.
#[derive(Debug, PartialEq, Eq)]
pub struct Engine {
    pub state: EngineState,
    pub manifest: Option<ModelManifest>,
}

impl Engine {
    /// The engine holds a manifest exactly when a model is loaded.
    pub open spec fn wf(&self) -> bool {
        self.manifest.is_some() == is_loaded(self.state)
    }

    /// An engine without a model.
    pub fn new() -> (engine: Engine)
        ensures
            engine.wf(),
            engine.state == EngineState::Uninitialized,
            engine.manifest.is_none(),
    {
        Engine { state: EngineState::Uninitialized, manifest: None }
    }

    /// Takes note of an event other than the arrival of a model.
    pub fn notify(&mut self, event: EngineEvent)
        requires
            old(self).wf(),
            event != EngineEvent::Loaded,
        ensures
            final(self).wf(),
            final(self).state == next_state(old(self).state, event),
            final(self).manifest == old(self).manifest,
    {
        let next = match (self.state, event) {
            (EngineState::Uninitialized, EngineEvent::LoadStarted) => EngineState::Loading,
            (EngineState::Loading, EngineEvent::LoadFailed) => EngineState::Uninitialized,
            (EngineState::Ready, EngineEvent::WindowStarted) => EngineState::Running,
            (EngineState::Running, EngineEvent::WindowEnded) => EngineState::Ready,
            _ => self.state,
        };
        self.state = next;
    }
}

/// Makes the model of `h` the engine's model. On an engine that has a model
/// nothing changes: the model is not swapped.
pub fn preload(engine: &mut Engine, h: &ModelHandle) -> (res: Result<(), StemError>)
    requires
        old(engine).wf(),
    ensures
        res.is_ok(),
        final(engine).wf(),
        final(engine).state == next_state(old(engine).state, EngineEvent::Loaded),
        is_loaded(old(engine).state) ==> final(engine).manifest == old(engine).manifest,
        !is_loaded(old(engine).state) ==> (final(engine).manifest matches Some(m) && m.same_as(
            &h.manifest,
        )),
{
    match engine.state {
        EngineState::Uninitialized | EngineState::Loading => {
            engine.manifest = Some(h.manifest.duplicate());
            engine.state = EngineState::Ready;
        },
        _ => {},
    }
    Ok(())
}

/// What `load_model` comes to. On an engine that has a model nothing happens
/// and nothing is loaded. Else `load` was handed the path of the artifact:
/// where it failed, the failure is returned and the engine is without a model;
/// where it succeeded, the engine is ready and holds the manifest of `h`.
pub open spec fn model_loaded<L: FnOnce(String) -> Result<(), StemError>>(
    load: L,
    before: Engine,
    h: ModelHandle,
    after: Engine,
    res: Result<(), StemError>,
) -> bool {
    if is_loaded(before.state) {
        res.is_ok() && after == before
    } else {
        exists|path: String, outcome: Result<(), StemError>|
            #![trigger call_ensures(load, (path,), outcome)]
            path@ == h.local_path@ && call_ensures(load, (path,), outcome) && match outcome {
                Ok(_) => res.is_ok() && after.state == EngineState::Ready && (
                after.manifest matches Some(m) && m.same_as(&h.manifest)),
                Err(e) => res == Err::<(), StemError>(e) && after.state
                    == EngineState::Uninitialized && after.manifest.is_none(),
            }
    }
}

/// Loads the model of `h` into the engine. On an engine that has a model
/// nothing is loaded: the model is not swapped. Else the engine is loading
/// while `load` loads the artifact at the handle's path; a failure leaves the
/// engine without a model, and a success makes the model the engine's.
pub fn load_model<L: FnOnce(String) -> Result<(), StemError>>(
    engine: &mut Engine,
    h: &ModelHandle,
    load: L,
) -> (res: Result<(), StemError>)
    requires
        old(engine).wf(),
        forall|path: String| call_requires(load, (path,)),
    ensures
        final(engine).wf(),
        model_loaded(load, *old(engine), *h, *final(engine), res),
{
    match engine.state {
        EngineState::Ready | EngineState::Running => {
            return Ok(());
        },
        _ => {},
    }
    engine.notify(EngineEvent::LoadStarted);
    let path = h.local_path.clone();
    let ghost handed = path;
    let outcome = load(path);
    assert(call_ensures(load, (handed,), outcome));
    match outcome {
        Ok(()) => preload(engine, h),
        Err(e) => {
            engine.notify(EngineEvent::LoadFailed);
            Err(e)
        },
    }
}

/// The manifest of the loaded model.
pub fn manifest(engine: &Engine) -> (m: &ModelManifest)
    requires
        engine.manifest.is_some(),
    ensures
        Some(*m) == engine.manifest,
{
    engine.manifest.as_ref().unwrap()
}

} // verus!
