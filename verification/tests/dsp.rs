use rustfft::num_complex::Complex32;
use rustfft::FftPlanner;
use stem_splitter_core::dsp::{
    filled, full_spectrum, interleave_stereo, istft_cac_stereo, istft_cac_stereo_parallel,
    normalize_range, overlap_add, pad_centered, read_column, scale_by, stft_cac_stereo_centered,
    stft_dims, to_planar_stereo, weigh, write_column,
};

fn hann(n_fft: usize) -> Vec<f32> {
    if n_fft <= 1 {
        return vec![1.0];
    }
    let denom = (n_fft - 1) as f32;
    (0..n_fft)
        .map(|i| 0.5 - 0.5 * (2.0 * std::f32::consts::PI * (i as f32) / denom).cos())
        .collect()
}

fn transformer(n_fft: usize) -> impl Fn(Vec<f32>) -> (Vec<f32>, Vec<f32>) + Sync {
    let fft = FftPlanner::<f32>::new().plan_fft_forward(n_fft);
    move |frame: Vec<f32>| {
        let mut buf: Vec<Complex32> = frame.iter().map(|x| Complex32::new(*x, 0.0)).collect();
        fft.process(&mut buf);
        (buf.iter().map(|c| c.re).collect(), buf.iter().map(|c| c.im).collect())
    }
}

fn inverter(n_fft: usize) -> impl Fn(Vec<f32>, Vec<f32>) -> Vec<f32> + Sync {
    let ifft = FftPlanner::<f32>::new().plan_fft_inverse(n_fft);
    move |re: Vec<f32>, im: Vec<f32>| {
        let mut buf: Vec<Complex32> =
            re.iter().zip(im.iter()).map(|(r, i)| Complex32::new(*r, *i)).collect();
        ifft.process(&mut buf);
        buf.iter().map(|c| c.re).collect()
    }
}

fn times(a: f32, b: f32) -> f32 {
    a * b
}

fn negate(x: f32) -> f32 {
    -x
}

fn plus(a: f32, b: f32) -> f32 {
    a + b
}

fn normalize(x: f32, sum: f32) -> f32 {
    x / sum.max(1e-10)
}

#[test]
fn to_planar_stereo_mono_duplicates_channel() {
    let mono: Vec<f32> = vec![0.1, -0.2, 0.3, -0.4];
    let planar = to_planar_stereo(&mono, 1);
    assert_eq!(planar.len(), mono.len());
    for i in 0..mono.len() {
        assert!((planar[i][0] - mono[i]).abs() <= 1e-7);
        assert!((planar[i][1] - mono[i]).abs() <= 1e-7);
    }
}

#[test]
fn to_planar_stereo_interleaved_ok() {
    let stereo_inter: Vec<f32> = vec![0.1, 0.2, -0.3, -0.4, 1.0, 0.5, 0.0, -1.0];
    let planar = to_planar_stereo(&stereo_inter, 2);
    assert_eq!(planar.len(), stereo_inter.len() / 2);
    for (i, frame) in planar.iter().enumerate() {
        assert!((frame[0] - stereo_inter[2 * i]).abs() <= 1e-7);
        assert!((frame[1] - stereo_inter[2 * i + 1]).abs() <= 1e-7);
    }
}

#[test]
fn to_planar_stereo_is_exact_and_drops_an_odd_last_sample() {
    let planar = to_planar_stereo(&[1u8, 2, 3, 4, 5], 2);
    assert_eq!(planar, vec![[1u8, 2], [3, 4]]);
    let mono = to_planar_stereo(&[7u8, 9], 1);
    assert_eq!(mono, vec![[7u8, 7], [9, 9]]);
    let empty: Vec<[u8; 2]> = to_planar_stereo(&[], 2);
    assert!(empty.is_empty());
    // Any channel count but one is read as interleaved stereo.
    assert_eq!(to_planar_stereo(&[1u8, 2, 3, 4], 6), vec![[1u8, 2], [3, 4]]);
}

#[test]
fn interleave_stereo_undoes_to_planar_stereo() {
    let samples = vec![1i32, 2, 3, 4, 5, 6];
    let planar = to_planar_stereo(&samples, 2);
    assert_eq!(interleave_stereo(&planar), samples);
    assert_eq!(interleave_stereo(&[[1i32, -1], [2, -2]]), vec![1, -1, 2, -2]);
}

#[test]
fn stft_istft_roundtrip() {
    let n_fft = 1024usize;
    let hop = 256usize;
    let t = 4096usize;

    let mut left = vec![0.0f32; t];
    let mut right = vec![0.0f32; t];
    left[100] = 1.0;
    right[200] = -1.0;
    for i in 0..t {
        left[i] += (i as f32 * 0.01).cos() * 0.1;
        right[i] += (i as f32 * 0.02).sin() * 0.1;
    }

    let window = hann(n_fft);
    let (spec, f_bins, frames) = stft_cac_stereo_centered(
        &left,
        &right,
        n_fft,
        hop,
        0.0,
        &window,
        &times,
        &transformer(n_fft),
    );
    let (l2, r2) = istft_cac_stereo(
        &spec,
        f_bins,
        frames,
        n_fft,
        hop,
        t,
        0.0,
        &window,
        1.0 / (n_fft as f32),
        &negate,
        &inverter(n_fft),
        &times,
        &plus,
        &normalize,
    );
    assert_eq!(l2.len(), t);
    assert_eq!(r2.len(), t);

    let margin = n_fft;
    for i in margin..(t - margin) {
        assert!((l2[i] - left[i]).abs() <= 1e-3, "left[{}]: {} vs {}", i, l2[i], left[i]);
        assert!((r2[i] - right[i]).abs() <= 1e-3, "right[{}]: {} vs {}", i, r2[i], right[i]);
    }
}

#[test]
fn stft_demucs_dims_reference() {
    let n_fft = 4096usize;
    let hop = 1024usize;
    let t = 343_980usize;
    let left = vec![0.0f32; t];
    let right = vec![0.0f32; t];
    let (spec, f_bins, frames) = stft_cac_stereo_centered(
        &left,
        &right,
        n_fft,
        hop,
        0.0,
        &hann(n_fft),
        &times,
        &transformer(n_fft),
    );
    assert_eq!(f_bins, 2048);
    assert_eq!(frames, 1 + (t / hop));
    assert_eq!(frames, 336);
    assert_eq!(spec.len(), 4 * 2048 * 336);
}

#[test]
fn stft_dims_are_half_the_size_and_one_more_than_the_hops() {
    assert_eq!(stft_dims(343_980, 4096, 1024), (2048, 336));
    assert_eq!(stft_dims(4096, 1024, 256), (512, 17));
    assert_eq!(stft_dims(0, 8, 2), (4, 1));
    assert_eq!(stft_dims(5, 8, 2), (4, 3));
}

#[test]
fn stft_lays_frames_out_by_channel_bin_and_frame() {
    // The kernel gives back the frame itself as real part and its double as
    // imaginary part, so the layout can be read off the result.
    let transform =
        |frame: Vec<i64>| (frame.clone(), frame.iter().map(|x| 2 * x).collect::<Vec<i64>>());
    let mul = |a: i64, b: i64| a * b;
    let left: Vec<i64> = vec![1, 2, 3, 4, 5, 6];
    let right: Vec<i64> = vec![10, 20, 30, 40, 50, 60];
    let (spec, f_bins, frames) =
        stft_cac_stereo_centered(&left, &right, 4, 2, 0, &[1, 1, 1, 1], &mul, &transform);
    assert_eq!((f_bins, frames), (2, 4));
    assert_eq!(spec.len(), 4 * 2 * 4);
    // The padded left channel is 0 0 1 2 3 4 5 6 0 0; frame `fr` starts at
    // `2 * fr`, and bin `f` of it is sample `2 * fr + f`.
    let padded_left = [0i64, 0, 1, 2, 3, 4, 5, 6, 0, 0];
    let padded_right = [0i64, 0, 10, 20, 30, 40, 50, 60, 0, 0];
    for fr in 0..frames {
        for f in 0..f_bins {
            let idx = f * frames + fr;
            assert_eq!(spec[idx], padded_left[2 * fr + f]);
            assert_eq!(spec[f_bins * frames + idx], 2 * padded_left[2 * fr + f]);
            assert_eq!(spec[2 * f_bins * frames + idx], padded_right[2 * fr + f]);
            assert_eq!(spec[3 * f_bins * frames + idx], 2 * padded_right[2 * fr + f]);
        }
    }
}

#[test]
fn stft_fills_missing_bins_with_zero() {
    let transform = |_frame: Vec<i64>| (vec![9i64], Vec::<i64>::new());
    let mul = |a: i64, b: i64| a * b;
    let (spec, f_bins, frames) =
        stft_cac_stereo_centered(&[1i64, 2], &[3i64, 4], 4, 2, 0, &[1, 1, 1, 1], &mul, &transform);
    assert_eq!((f_bins, frames), (2, 2));
    // Bin 0 of the real channels is 9; everything else is zero.
    assert_eq!(spec, vec![9, 9, 0, 0, 0, 0, 0, 0, 9, 9, 0, 0, 0, 0, 0, 0]);
}

#[test]
fn pad_centered_puts_zeros_on_both_sides() {
    assert_eq!(pad_centered(&[1u8, 2, 3], 2, 0), vec![0, 0, 1, 2, 3, 0, 0]);
    assert_eq!(pad_centered(&[1u8], 0, 0), vec![1]);
    assert_eq!(pad_centered::<u8>(&[], 1, 7), vec![7, 7]);
    assert_eq!(filled(3, 5u8), vec![5, 5, 5]);
}

#[test]
fn columns_are_written_and_read_in_place() {
    let mut spec = vec![0i32; 4 * 2 * 3];
    write_column(&mut spec, &[7, 8], 1, 2, 2, 3, 0);
    assert_eq!(read_column(&spec, 1, 2, 2, 3), vec![7, 8]);
    // Channel 1 starts at 6; bin 0 of frame 2 is at 6 + 0 * 3 + 2, bin 1 at 6 + 1 * 3 + 2.
    let mut expected = vec![0i32; 24];
    expected[8] = 7;
    expected[11] = 8;
    assert_eq!(spec, expected);
    write_column(&mut spec, &[5], 1, 2, 2, 3, -1);
    assert_eq!(read_column(&spec, 1, 2, 2, 3), vec![5, -1]);
}

#[test]
fn full_spectrum_mirrors_the_conjugates() {
    let neg = |x: i32| -x;
    let (re, im) = full_spectrum(&[1, 2, 3, 4], &[10, 20, 30, 40], 8, 0, &neg);
    assert_eq!(re, vec![1, 2, 3, 4, 0, 4, 3, 2]);
    assert_eq!(im, vec![0, 20, 30, 40, 0, -40, -30, -20]);
    let (re, im) = full_spectrum(&[1, 2], &[10, 20], 8, 0, &neg);
    assert_eq!(re, vec![1, 2, 0, 0, 0, 0, 0, 2]);
    assert_eq!(im, vec![0, 20, 0, 0, 0, 0, 0, -20]);
}

#[test]
fn overlap_add_adds_in_place_and_clips_at_the_end() {
    let add = |a: i32, b: i32| a + b;
    let mut acc = vec![1, 1, 1, 1, 1];
    overlap_add(&mut acc, &[10, 20], 1, &add);
    assert_eq!(acc, vec![1, 11, 21, 1, 1]);
    overlap_add(&mut acc, &[5, 6, 7], 3, &add);
    assert_eq!(acc, vec![1, 11, 21, 6, 7]);
    overlap_add(&mut acc, &[9], 5, &add);
    assert_eq!(acc, vec![1, 11, 21, 6, 7]);
}

#[test]
fn normalize_range_divides_the_kept_part() {
    let div = |a: i32, b: i32| if b > 0 { a / b } else { a };
    let out = normalize_range(&[10, 20, 30, 40], &[1, 2, 0, 4], 1, 3, &div);
    assert_eq!(out, vec![10, 30, 10]);
}

#[test]
fn istft_adds_frames_at_their_hops() {
    // One bin for each channel; the kernel turns a frame's spectrum into the
    // four samples `re[0], re[0], re[0], re[0]`.
    let inverse = |re: Vec<i32>, _im: Vec<i32>| vec![re[0]; 4];
    let neg = |x: i32| -x;
    let add = |a: i32, b: i32| a + b;
    let keep = |x: i32, _sum: i32| x;
    // Two frames; left real parts 1 and 2, right real parts 10 and 20.
    let spec = vec![1, 2, 0, 0, 10, 20, 0, 0];
    let mul = |a: i32, b: i32| a * b;
    let (left, right) = istft_cac_stereo(
        &spec, 1, 2, 4, 2, 2, 0, &[1, 1, 1, 1], 1, &neg, &inverse, &mul, &add, &keep,
    );
    // Buffer of 2 + 4 samples: frame 0 covers 0..4, frame 1 covers 2..6;
    // the two samples of padding at either end are left out.
    assert_eq!(left, vec![3, 3]);
    assert_eq!(right, vec![30, 30]);
    let count = |_x: i32, sum: i32| sum;
    let (sums, _) = istft_cac_stereo(
        &spec, 1, 2, 4, 2, 2, 0, &[1, 1, 1, 1], 1, &neg, &inverse, &mul, &add, &count,
    );
    assert_eq!(sums, vec![2, 2]);
    // A window of 1, 2, 3, 4 and a scale of 10: frame 0 adds 10, 20, 30, 40
    // times its real part, frame 1 the same two samples later, and the energy
    // is the window squared.
    let (left, right) = istft_cac_stereo(
        &spec, 1, 2, 4, 2, 2, 0, &[1, 2, 3, 4], 10, &neg, &inverse, &mul, &add, &keep,
    );
    assert_eq!(left, vec![30 + 2 * 10, 40 + 2 * 20]);
    assert_eq!(right, vec![300 + 20 * 10, 400 + 20 * 20]);
    let (sums, _) = istft_cac_stereo(
        &spec, 1, 2, 4, 2, 2, 0, &[1, 2, 3, 4], 10, &neg, &inverse, &mul, &add, &count,
    );
    assert_eq!(sums, vec![9 + 1, 16 + 4]);
}

#[test]
fn parallel_istft_gives_each_source_in_order() {
    let n_fft = 64usize;
    let hop = 16usize;
    let t = 256usize;
    let transform = transformer(n_fft);
    let inverse = inverter(n_fft);
    let window = hann(n_fft);
    let scale = 1.0 / (n_fft as f32);
    let mut sources: Vec<Vec<f32>> = Vec::new();
    let mut dims = (0usize, 0usize);
    for s in 0..3 {
        let left: Vec<f32> = (0..t).map(|i| ((i + s) as f32 * 0.1).sin()).collect();
        let right: Vec<f32> = (0..t).map(|i| ((i * (s + 1)) as f32 * 0.05).cos()).collect();
        let (spec, f_bins, frames) =
            stft_cac_stereo_centered(&left, &right, n_fft, hop, 0.0, &window, &times, &transform);
        dims = (f_bins, frames);
        sources.push(spec);
    }
    let waves = istft_cac_stereo_parallel(
        &sources,
        dims.0,
        dims.1,
        n_fft,
        hop,
        t,
        0.0,
        &window,
        scale,
        &negate,
        &inverse,
        &times,
        &plus,
        &normalize,
    );
    assert_eq!(waves.len(), 3);
    for s in 0..3 {
        let one = istft_cac_stereo(
            &sources[s],
            dims.0,
            dims.1,
            n_fft,
            hop,
            t,
            0.0,
            &window,
            scale,
            &negate,
            &inverse,
            &times,
            &plus,
            &normalize,
        );
        assert_eq!(waves[s], one);
    }
}

#[test]
fn audio_data_counts_whole_frames() {
    let stereo = stem_splitter_core::dsp::AudioData {
        samples: vec![1i16, 2, 3, 4, 5, 6],
        sample_rate: 44_100,
        channels: 2,
    };
    assert_eq!(stereo.frames(), 3);
    assert_eq!(stereo.to_planar(), vec![[1, 2], [3, 4], [5, 6]]);
    let mono = stem_splitter_core::dsp::AudioData { samples: vec![7i16, 8], sample_rate: 8_000, channels: 1 };
    assert_eq!(mono.frames(), 2);
    assert_eq!(mono.to_planar(), vec![[7, 7], [8, 8]]);
}

#[test]
fn samples_are_weighed_and_scaled_in_place() {
    let mul = |a: i32, b: i32| a * b;
    assert_eq!(weigh(&[1, 2, 3], &[10, 20, 30], &mul), vec![10, 40, 90]);
    assert_eq!(weigh(&[1, 2, 3], &[10, 20], &mul), vec![10, 40]);
    assert_eq!(weigh(&[1], &[10, 20], &mul), vec![10]);
    assert_eq!(scale_by(&[1, 2, 3], 5, &mul), vec![5, 10, 15]);
    assert_eq!(scale_by(&[], 5, &mul), Vec::<i32>::new());
}
