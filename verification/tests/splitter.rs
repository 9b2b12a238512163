use std::cell::RefCell;
use stem_splitter_core::engine::{identity_stems, StemTensor};
use stem_splitter_core::error::{InputFault, StemError};
use stem_splitter_core::progress::SplitProgress;
use stem_splitter_core::dsp::AudioData;
use stem_splitter_core::manifest::{Artifact, ModelManifest};
use stem_splitter_core::progress::Stage;
use stem_splitter_core::splitter::{
    answer_usable, check_mentions, check_sample_rate, extract_chunk, split_file, split_planar,
    split_result, stem_index, stem_key_name, stem_output_path, window_count, SplitOptions,
    StemAccumulator, STEM_COUNT,
};

fn hann_squared(win: usize) -> Vec<f64> {
    let denom = (win - 1) as f64;
    (0..win)
        .map(|i| {
            let s = (std::f64::consts::PI * (i as f64) / denom).sin();
            s * s
        })
        .collect()
}

fn times(a: f64, b: f64) -> f64 {
    a * b
}

fn plus(a: f64, b: f64) -> f64 {
    a + b
}

fn normalize(x: f64, sum: f64) -> f64 {
    x / sum.max(1e-8)
}

fn quiet(_p: SplitProgress) {}

/// The sum of the weights and of their squares over the windows that cover
/// frame `i`.
fn sums_at(weights: &[f64], hop: usize, n: usize, i: usize) -> (f64, f64) {
    let mut sum_w = 0.0;
    let mut sum_e = 0.0;
    let mut k = 0;
    while k * hop < n {
        if k * hop <= i && i < k * hop + weights.len() {
            let w = weights[i - k * hop];
            sum_w += w;
            sum_e += w * w;
        }
        k += 1;
    }
    (sum_w, sum_e)
}

fn identity(left: Vec<f64>, right: Vec<f64>) -> Result<StemTensor<f64>, StemError> {
    Ok(identity_stems(&left, &right))
}

fn tone(frames: usize) -> Vec<[f64; 2]> {
    let sr = 44_100f64;
    (0..frames)
        .map(|i| {
            let t = i as f64 / sr;
            [
                (2.0 * std::f64::consts::PI * 440.0 * t).sin() * 0.2,
                (2.0 * std::f64::consts::PI * 660.0 * t).sin() * 0.2,
            ]
        })
        .collect()
}

fn names(list: &[&str]) -> Vec<String> {
    list.iter().map(|s| s.to_string()).collect()
}

#[test]
fn split_planar_with_identity_inference_gives_four_stems() {
    let stereo = tone(8000);
    let win = 4096;
    let hop = 2048;
    let weights = hann_squared(win);
    let stems =
        split_planar(&stereo, win, hop, 0.0, &weights, &identity, &times, &plus, &normalize, &quiet)
            .unwrap();
    assert_eq!(stems.len(), 4);
    for stem in &stems {
        assert_eq!(stem.len(), 8000);
        for i in 1..8000 {
            // Each frame is the input, scaled by the weights summed over the
            // windows that cover it and divided by their squares summed.
            let (sum_w, sum_e) = sums_at(&weights, hop, 8000, i);
            let gain = sum_w / sum_e.max(1e-8);
            assert!((stem[i][0] - stereo[i][0] * gain).abs() < 1e-9, "left {}", i);
            assert!((stem[i][1] - stereo[i][1] * gain).abs() < 1e-9, "right {}", i);
        }
    }
}

#[test]
fn overlap_add_envelope_is_flat_at_a_quarter_window_hop() {
    // A constant input, windows a quarter apart. Where four windows overlap,
    // the weights sum to 2 and their squares to 3/2, up to the window's one
    // sample of asymmetry: the envelope is flat at 4/3.
    let n = 6000;
    let stereo = vec![[1.0f64, 1.0f64]; n];
    let win = 1024;
    let hop = win / 4;
    let weights = hann_squared(win);
    let stems =
        split_planar(&stereo, win, hop, 0.0, &weights, &identity, &times, &plus, &normalize, &quiet)
            .unwrap();
    for i in win..(n - win) {
        assert!((stems[0][i][0] - 4.0 / 3.0).abs() < 1e-2, "frame {}: {}", i, stems[0][i][0]);
        assert!((stems[3][i][1] - 4.0 / 3.0).abs() < 1e-2);
        let (sum_w, sum_e) = sums_at(&weights, hop, n, i);
        assert!((stems[2][i][0] - sum_w / sum_e).abs() < 1e-9);
    }
    // At frame 0 every weight is zero, and so is the stem.
    assert_eq!(stems[0][0][0], 0.0);
}

#[test]
fn normalizing_by_the_summed_weights_gives_unit_gain() {
    // The accumulator with the weights themselves as the energy: what was
    // added is taken out again, frame by frame.
    let n = 3000;
    let win = 1024;
    let hop = 256;
    let weights = hann_squared(win);
    let stereo = tone(n);
    let mut acc: StemAccumulator<f64> = StemAccumulator::new(4, n + win, 0.0);
    let mut k = 0;
    while k * hop < n {
        let (left, right) = extract_chunk(&stereo, k * hop, win, 0.0);
        let answer = identity_stems(&left, &right);
        acc.add_window(&answer, &weights, &weights, k, hop, k * hop, &times, &plus);
        k += 1;
    }
    let stems = acc.normalize(n, &normalize);
    for i in 1..n {
        assert!((stems[0][i][0] - stereo[i][0]).abs() < 1e-6);
        assert!((stems[3][i][1] - stereo[i][1]).abs() < 1e-6);
    }
}

#[test]
fn split_planar_is_exact_on_integers() {
    // Weights of one, energy of one: each frame is the sum of the windows
    // that cover it, divided by their number.
    let stereo: Vec<[i64; 2]> = (0..10).map(|i| [i as i64 + 1, -(i as i64) - 1]).collect();
    let ones = vec![1i64; 8];
    let seen: RefCell<Vec<(Vec<i64>, Vec<i64>)>> = RefCell::new(Vec::new());
    let run = |l: Vec<i64>, r: Vec<i64>| {
        seen.borrow_mut().push((l.clone(), r.clone()));
        Ok(identity_stems(&l, &r))
    };
    let events: RefCell<Vec<SplitProgress>> = RefCell::new(Vec::new());
    let progress = |p: SplitProgress| events.borrow_mut().push(p);
    let stems = split_planar(
        &stereo,
        8,
        4,
        0,
        &ones,
        &run,
        &|a: i64, b: i64| a * b,
        &|a: i64, b: i64| a + b,
        &|a: i64, s: i64| a / s,
        &progress,
    )
    .unwrap();
    assert_eq!(stems.len(), 4);
    for stem in &stems {
        assert_eq!(*stem, stereo);
    }
    // Windows start at 0, 4 and 8; the last two reach behind the audio.
    let seen = seen.borrow();
    assert_eq!(seen.len(), 3);
    assert_eq!(seen[0].0, vec![1, 2, 3, 4, 5, 6, 7, 8]);
    assert_eq!(seen[1].0, vec![5, 6, 7, 8, 9, 10, 0, 0]);
    assert_eq!(seen[2].0, vec![9, 10, 0, 0, 0, 0, 0, 0]);
    assert_eq!(seen[2].1, vec![-9, -10, 0, 0, 0, 0, 0, 0]);
    assert_eq!(
        *events.borrow(),
        vec![
            SplitProgress::Chunks { done: 1, total: 3 },
            SplitProgress::Chunks { done: 2, total: 3 },
            SplitProgress::Chunks { done: 3, total: 3 },
        ]
    );
}

#[test]
fn split_planar_weighs_and_sums_the_windows() {
    // One source, a window that doubles the left and negates the right.
    let stereo: Vec<[i64; 2]> = vec![[1, 1], [2, 2], [3, 3]];
    let run = |l: Vec<i64>, r: Vec<i64>| {
        let mut data: Vec<i64> = l.iter().map(|x| 2 * x).collect();
        data.extend(r.iter().map(|x| -x));
        Ok(StemTensor { sources: 1, len: l.len(), data })
    };
    let stems = split_planar(
        &stereo,
        2,
        1,
        0,
        &[10, 100],
        &run,
        &|a: i64, b: i64| a * b,
        &|a: i64, b: i64| a + b,
        &|a: i64, s: i64| a * 1000 + s,
        &quiet,
    )
    .unwrap();
    // Windows at 0, 1, 2 hold (1,2), (2,3), (3,0). Frame 0 gets 2*1*10;
    // frame 1 gets 2*2*100 + 2*2*10; frame 2 gets 2*3*100 + 2*3*10.
    // The energy is 100 and 10000: its sums are 100, 10100, 10100.
    assert_eq!(stems.len(), 1);
    assert_eq!(
        stems[0],
        vec![
            [20_000 + 100, -10_000 + 100],
            [440_000 + 10_100, -220_000 + 10_100],
            [660_000 + 10_100, -330_000 + 10_100]
        ]
    );
}

#[test]
fn split_planar_turns_down_empty_audio_and_bad_windows() {
    let none: Vec<[f64; 2]> = Vec::new();
    let w = vec![1.0f64; 4];
    let split = |stereo: &[[f64; 2]], win: usize, hop: usize| {
        split_planar(stereo, win, hop, 0.0, &w, &identity, &times, &plus, &normalize, &quiet)
    };
    assert_eq!(split(&none, 4, 2).unwrap_err(), StemError::InputInvalid(InputFault::EmptyAudio));
    let one = vec![[0.5f64, 0.5f64]];
    assert_eq!(split(&one, 4, 0).unwrap_err(), StemError::InputInvalid(InputFault::WindowHop));
    assert_eq!(split(&one, 0, 0).unwrap_err(), StemError::InputInvalid(InputFault::WindowHop));
    assert_eq!(split(&one, 4, 5).unwrap_err(), StemError::InputInvalid(InputFault::WindowHop));
    assert!(split(&one, 4, 4).is_ok());
    // Empty audio is reported before a bad window.
    assert_eq!(split(&none, 0, 0).unwrap_err(), StemError::InputInvalid(InputFault::EmptyAudio));
}

#[test]
fn split_planar_stops_at_the_first_failure() {
    let stereo = vec![[1i64, 1i64]; 10];
    let calls = RefCell::new(0usize);
    let failing = |l: Vec<i64>, r: Vec<i64>| {
        *calls.borrow_mut() += 1;
        if *calls.borrow() == 2 {
            Err(StemError::InferenceFailure("second window".into()))
        } else {
            Ok(identity_stems(&l, &r))
        }
    };
    let ones = vec![1i64; 4];
    let res = split_planar(
        &stereo,
        4,
        2,
        0,
        &ones,
        &failing,
        &|a: i64, b: i64| a * b,
        &|a: i64, b: i64| a + b,
        &|a: i64, s: i64| a / s,
        &quiet,
    );
    assert_eq!(res.unwrap_err(), StemError::InferenceFailure("second window".into()));
    assert_eq!(*calls.borrow(), 2);
}

#[test]
fn split_planar_reports_answers_that_do_not_fit() {
    let stereo = vec![[1i64, 1i64]; 10];
    let ones = vec![1i64; 4];
    let split = |run: &dyn Fn(Vec<i64>, Vec<i64>) -> Result<StemTensor<i64>, StemError>| {
        split_planar(
            &stereo,
            4,
            2,
            0,
            &ones,
            &run,
            &|a: i64, b: i64| a * b,
            &|a: i64, b: i64| a + b,
            &|a: i64, s: i64| a / s,
            &quiet,
        )
    };
    let no_source = |_l: Vec<i64>, _r: Vec<i64>| Ok(StemTensor { sources: 0, len: 4, data: vec![] });
    assert_eq!(split(&no_source).unwrap_err(), StemError::ShapeMismatch);
    let short = |_l: Vec<i64>, _r: Vec<i64>| Ok(StemTensor { sources: 1, len: 4, data: vec![0; 7] });
    assert_eq!(split(&short).unwrap_err(), StemError::ShapeMismatch);
    let calls = RefCell::new(0usize);
    let changing = |l: Vec<i64>, _r: Vec<i64>| {
        *calls.borrow_mut() += 1;
        let sources = *calls.borrow();
        Ok(StemTensor { sources, len: l.len(), data: vec![0; sources * 2 * l.len()] })
    };
    assert_eq!(split(&changing).unwrap_err(), StemError::ShapeMismatch);
    assert!(answer_usable(&StemTensor { sources: 2, len: 3, data: vec![0u8; 12] }));
    assert!(!answer_usable(&StemTensor { sources: 2, len: 3, data: vec![0u8; 11] }));
    assert!(!answer_usable(&StemTensor::<u8> { sources: 0, len: 3, data: vec![] }));
}

#[test]
fn a_shorter_answer_is_added_as_far_as_it_reaches() {
    let stereo = vec![[1i64, 1i64]; 4];
    let short = |l: Vec<i64>, r: Vec<i64>| Ok(identity_stems(&l[..2], &r[..2]));
    let ones = vec![1i64; 4];
    let stems = split_planar(
        &stereo,
        4,
        4,
        0,
        &ones,
        &short,
        &|a: i64, b: i64| a * b,
        &|a: i64, b: i64| a + b,
        &|a: i64, _s: i64| a,
        &quiet,
    )
    .unwrap();
    assert_eq!(stems[0], vec![[1, 1], [1, 1], [0, 0], [0, 0]]);
}

#[test]
fn windows_are_counted_as_long_as_they_start_inside() {
    assert_eq!(window_count(10, 4), 3);
    assert_eq!(window_count(8, 4), 2);
    assert_eq!(window_count(1, 4), 1);
    assert_eq!(window_count(0, 4), 0);
    assert_eq!(window_count(8000, 2048), 4);
    assert_eq!(window_count(usize::MAX, 1), usize::MAX);
    assert_eq!(window_count(usize::MAX, 2), usize::MAX / 2 + 1);
}

#[test]
fn chunks_are_zero_padded_behind_the_audio() {
    let stereo = [[1u8, 10u8], [2, 20], [3, 30]];
    assert_eq!(extract_chunk(&stereo, 1, 4, 0), (vec![2, 3, 0, 0], vec![20, 30, 0, 0]));
    assert_eq!(extract_chunk(&stereo, 0, 2, 0), (vec![1, 2], vec![10, 20]));
    assert_eq!(extract_chunk(&stereo, 5, 2, 9), (vec![9, 9], vec![9, 9]));
    assert_eq!(extract_chunk(&stereo, 0, 0, 0), (vec![], vec![]));
}

#[test]
fn the_sample_rate_must_be_the_supported_one_on_both_sides() {
    assert_eq!(check_sample_rate(44_100, 44_100), Ok(()));
    let fault = Err(StemError::InputInvalid(InputFault::SampleRate));
    assert_eq!(check_sample_rate(48_000, 48_000), fault);
    assert_eq!(check_sample_rate(44_100, 48_000), fault);
    assert_eq!(check_sample_rate(22_050, 44_100), fault);
}

#[test]
fn stems_are_found_by_name_and_else_by_position() {
    let model = names(&["drums", "bass", "other", "vocals"]);
    assert_eq!(stem_index(&model, "vocals", 0, 4), 3);
    assert_eq!(stem_index(&model, "drums", 1, 4), 0);
    assert_eq!(stem_index(&model, "bass", 2, 4), 1);
    assert_eq!(stem_index(&model, "other", 3, 4), 2);
    // Capitals and surrounding text do not matter.
    let loud = names(&["Lead VOCALS (center)", "DrumS", "x", "y"]);
    assert_eq!(stem_index(&loud, "vocals", 0, 4), 0);
    assert_eq!(stem_index(&loud, "drums", 1, 4), 1);
    // Where no name is found the position counts.
    assert_eq!(stem_index(&loud, "bass", 2, 4), 2);
    assert_eq!(stem_index(&loud, "other", 3, 4), 3);
    assert_eq!(stem_index(&Vec::new(), "other", 3, 4), 3);
    // With fewer sources the last one stands in.
    assert_eq!(stem_index(&Vec::new(), "other", 3, 2), 1);
    assert_eq!(stem_index(&Vec::new(), "other", 3, 0), 0);
    // A name beyond the number of sources is not used.
    assert_eq!(stem_index(&model, "vocals", 0, 2), 0);
    // The first of two names counts.
    assert_eq!(stem_index(&names(&["bass 1", "bass 2"]), "bass", 2, 2), 0);
    assert!(check_mentions("My Bass", "bass"));
    assert!(!check_mentions("bas", "bass"));
    assert!(check_mentions("anything", ""));
}

#[test]
fn stem_files_are_named_after_the_input() {
    assert_eq!(stem_output_path("out/song", "vocals"), "out/song_vocals.wav");
    let result = split_result("/tmp/out/in");
    assert_eq!(result.vocals_path, "/tmp/out/in_vocals.wav");
    assert_eq!(result.drums_path, "/tmp/out/in_drums.wav");
    assert_eq!(result.bass_path, "/tmp/out/in_bass.wav");
    assert_eq!(result.other_path, "/tmp/out/in_other.wav");
}

#[test]
fn split_options_default_to_the_current_directory() {
    let options = SplitOptions::default();
    assert_eq!(options.output_dir, ".");
    assert_eq!(options.model_name, "mdx_4stem_v1");
    assert_eq!(options.manifest_url_override, None);
}

#[test]
fn the_accumulator_sums_windows_and_normalizes() {
    let mut acc: StemAccumulator<i64> = StemAccumulator::new(1, 5, 0);
    assert_eq!(acc.channels, vec![vec![0; 5], vec![0; 5]]);
    assert_eq!(acc.window_sum, vec![0; 5]);
    let mul = |a: i64, b: i64| a * b;
    let add = |a: i64, b: i64| a + b;
    let first = StemTensor { sources: 1, len: 3, data: vec![1, 2, 3, -1, -2, -3] };
    acc.add_window(&first, &[1, 10, 100], &[1, 1, 1], 0, 2, 0, &mul, &add);
    assert_eq!(acc.channels, vec![vec![1, 20, 300, 0, 0], vec![-1, -20, -300, 0, 0]]);
    assert_eq!(acc.window_sum, vec![1, 1, 1, 0, 0]);
    let second = StemTensor { sources: 1, len: 3, data: vec![4, 5, 6, 7, 8, 9] };
    acc.add_window(&second, &[1, 10, 100], &[1, 1, 1], 1, 2, 2, &mul, &add);
    assert_eq!(acc.channels, vec![vec![1, 20, 304, 50, 600], vec![-1, -20, -293, 80, 900]]);
    assert_eq!(acc.window_sum, vec![1, 1, 2, 1, 1]);
    let stems = acc.normalize(3, &|a: i64, s: i64| a / s);
    assert_eq!(stems, vec![vec![[1, -1], [20, -20], [152, -146]]]);
    let none: StemAccumulator<i64> = StemAccumulator::new(0, 2, 7);
    assert!(none.channels.is_empty());
    assert_eq!(none.window_sum, vec![7, 7]);
    assert!(none.normalize(2, &add).is_empty());
}

fn model(stems: &[&str], window: usize, hop: usize, sample_rate: u32) -> ModelManifest {
    ModelManifest {
        name: "m".to_string(),
        version: "1".to_string(),
        backend: "onnx".to_string(),
        sample_rate,
        window,
        hop,
        stems: names(stems),
        input_layout: "BCT".to_string(),
        output_layout: "BSCT".to_string(),
        artifacts: vec![Artifact {
            file: "m.onnx".to_string(),
            url: "https://example.org/m.onnx".to_string(),
            sha256: "0".repeat(64),
            size_bytes: 0,
        }],
    }
}

/// An inference whose source `s` is the window times `s + 1`.
fn scaled_sources(left: Vec<i64>, right: Vec<i64>) -> Result<StemTensor<i64>, StemError> {
    let mut data = Vec::new();
    for s in 0..4 {
        data.extend(left.iter().map(|x| x * (s + 1)));
        data.extend(right.iter().map(|x| x * (s + 1)));
    }
    Ok(StemTensor { sources: 4, len: left.len(), data })
}

fn split_to(
    audio: &AudioData<i64>,
    manifest: &ModelManifest,
    written: &RefCell<Vec<(String, Vec<i64>, u32)>>,
    events: &RefCell<Vec<SplitProgress>>,
    fail_at: Option<usize>,
) -> Result<stem_splitter_core::splitter::SplitResult, StemError> {
    let write = |path: String, samples: Vec<i64>, rate: u32| {
        if Some(written.borrow().len()) == fail_at {
            return Err(StemError::IoError(format!("disk full at {}", path)));
        }
        written.borrow_mut().push((path, samples, rate));
        Ok(())
    };
    split_file(
        audio,
        manifest,
        "out/song",
        0,
        &[1, 1, 1, 1],
        &scaled_sources,
        &|a: i64, b: i64| a * b,
        &|a: i64, b: i64| a + b,
        &|a: i64, s: i64| a / s,
        &|p: SplitProgress| events.borrow_mut().push(p),
        &write,
    )
}

#[test]
fn split_file_writes_each_stem_from_its_source() {
    let audio = AudioData { samples: vec![1i64, -1, 2, -2, 3, -3], sample_rate: 44_100, channels: 2 };
    let manifest = model(&["drums", "bass", "other", "vocals"], 4, 2, 44_100);
    let written = RefCell::new(Vec::new());
    let events = RefCell::new(Vec::new());
    let result = split_to(&audio, &manifest, &written, &events, None).unwrap();
    assert_eq!(result.vocals_path, "out/song_vocals.wav");
    assert_eq!(result.drums_path, "out/song_drums.wav");
    assert_eq!(result.bass_path, "out/song_bass.wav");
    assert_eq!(result.other_path, "out/song_other.wav");
    // The vocals are the model's fourth source, the drums its first, the bass
    // its second, the rest its third; each is the audio times its place.
    let written = written.borrow();
    assert_eq!(written.len(), 4);
    assert_eq!(written[0], ("out/song_vocals.wav".to_string(), vec![4, -4, 8, -8, 12, -12], 44_100));
    assert_eq!(written[1], ("out/song_drums.wav".to_string(), vec![1, -1, 2, -2, 3, -3], 44_100));
    assert_eq!(written[2], ("out/song_bass.wav".to_string(), vec![2, -2, 4, -4, 6, -6], 44_100));
    assert_eq!(written[3], ("out/song_other.wav".to_string(), vec![3, -3, 6, -6, 9, -9], 44_100));
    assert_eq!(
        *events.borrow(),
        vec![
            SplitProgress::Stage(Stage::Infer),
            SplitProgress::Chunks { done: 1, total: 2 },
            SplitProgress::Chunks { done: 2, total: 2 },
            SplitProgress::Stage(Stage::WriteStems),
            SplitProgress::Writing { stem: "vocals".into(), done: 1, total: 4 },
            SplitProgress::Writing { stem: "drums".into(), done: 2, total: 4 },
            SplitProgress::Writing { stem: "bass".into(), done: 3, total: 4 },
            SplitProgress::Writing { stem: "other".into(), done: 4, total: 4 },
            SplitProgress::Stage(Stage::Finalize),
            SplitProgress::Finished,
        ]
    );
    assert_eq!(STEM_COUNT, 4);
    assert_eq!(stem_key_name(0), "vocals");
    assert_eq!(stem_key_name(3), "other");
}

#[test]
fn split_file_widens_mono_and_falls_back_to_positions() {
    let audio = AudioData { samples: vec![5i64, 6], sample_rate: 44_100, channels: 1 };
    let manifest = model(&[], 2, 2, 44_100);
    let written = RefCell::new(Vec::new());
    let events = RefCell::new(Vec::new());
    split_to(&audio, &manifest, &written, &events, None).unwrap();
    let written = written.borrow();
    assert_eq!(written[0].1, vec![5, 5, 6, 6]);
    assert_eq!(written[1].1, vec![10, 10, 12, 12]);
    assert_eq!(written[2].1, vec![15, 15, 18, 18]);
    assert_eq!(written[3].1, vec![20, 20, 24, 24]);
}

#[test]
fn split_file_turns_down_what_cannot_be_split() {
    let written = RefCell::new(Vec::new());
    let events = RefCell::new(Vec::new());
    let audio = AudioData { samples: vec![1i64, 2], sample_rate: 48_000, channels: 2 };
    let manifest = model(&[], 2, 1, 44_100);
    assert_eq!(
        split_to(&audio, &manifest, &written, &events, None),
        Err(StemError::InputInvalid(InputFault::SampleRate))
    );
    let other_model = model(&[], 2, 1, 48_000);
    assert_eq!(
        split_to(&audio, &other_model, &written, &events, None),
        Err(StemError::InputInvalid(InputFault::SampleRate))
    );
    let empty = AudioData { samples: Vec::<i64>::new(), sample_rate: 44_100, channels: 2 };
    assert_eq!(
        split_to(&empty, &manifest, &written, &events, None),
        Err(StemError::InputInvalid(InputFault::EmptyAudio))
    );
    let fine = AudioData { samples: vec![1i64, 2], sample_rate: 44_100, channels: 2 };
    let bad_hop = model(&[], 2, 3, 44_100);
    assert_eq!(
        split_to(&fine, &bad_hop, &written, &events, None),
        Err(StemError::InputInvalid(InputFault::WindowHop))
    );
    assert!(written.borrow().is_empty());
}

#[test]
fn split_file_stops_where_a_file_cannot_be_written() {
    let audio = AudioData { samples: vec![1i64, 2], sample_rate: 44_100, channels: 2 };
    let manifest = model(&[], 4, 4, 44_100);
    let written = RefCell::new(Vec::new());
    let events = RefCell::new(Vec::new());
    assert_eq!(
        split_to(&audio, &manifest, &written, &events, Some(2)),
        Err(StemError::IoError("disk full at out/song_bass.wav".to_string()))
    );
    assert_eq!(written.borrow().len(), 2);
    assert_eq!(events.borrow().last(), Some(&SplitProgress::Writing { stem: "drums".into(), done: 2, total: 4 }));
}
