use std::cell::RefCell;
use stem_splitter_core::error::{InputFault, StemError};
use stem_splitter_core::net::{
    DownloadProgress, CHUNK_SIZE, CONNECT_TIMEOUT_SECS, READ_TIMEOUT_SECS,
};
use stem_splitter_core::progress::{
    emit_download_progress, emit_split_progress, percent, set_download_progress_callback,
    set_split_progress_callback, SplitProgress, Stage,
};
use stem_splitter_core::text::{eq_ignore_ascii_case, same_text, starts_with, to_ascii_lower};

#[test]
fn the_download_observer_is_set_once() {
    let seen: RefCell<Vec<(u8, u64, u64)>> = RefCell::new(Vec::new());
    let mut slot = None;
    assert!(!emit_download_progress::<fn(u64, u64)>(&None, 1, 2));
    // Both observers have the same type: one closure, made twice.
    let observer = |tag: u8| {
        let seen = &seen;
        move |done: u64, total: u64| seen.borrow_mut().push((tag, done, total))
    };
    set_download_progress_callback(&mut slot, observer(1));
    set_download_progress_callback(&mut slot, observer(2));
    assert!(emit_download_progress(&slot, 10, 100));
    assert!(emit_download_progress(&slot, 100, 100));
    assert_eq!(*seen.borrow(), vec![(1, 10, 100), (1, 100, 100)]);
}

#[test]
fn the_split_observer_is_told_of_each_event() {
    let seen: RefCell<Vec<SplitProgress>> = RefCell::new(Vec::new());
    let mut slot = None;
    set_split_progress_callback(&mut slot, |p: SplitProgress| seen.borrow_mut().push(p));
    assert!(emit_split_progress(&slot, SplitProgress::Stage(Stage::Infer)));
    assert!(emit_split_progress(&slot, SplitProgress::Chunks { done: 1, total: 2 }));
    assert!(emit_split_progress(
        &slot,
        SplitProgress::Writing { stem: "vocals".into(), done: 1, total: 4 }
    ));
    assert!(emit_split_progress(&slot, SplitProgress::Finished));
    assert_eq!(seen.borrow().len(), 4);
    assert_eq!(seen.borrow()[0], SplitProgress::Stage(Stage::Infer));
    assert_eq!(seen.borrow()[3], SplitProgress::Finished);
}

#[test]
fn stages_have_their_names() {
    assert_eq!(Stage::ResolveModel.label(), "resolve_model");
    assert_eq!(Stage::EnginePreload.label(), "engine_preload");
    assert_eq!(Stage::ReadAudio.label(), "read_audio");
    assert_eq!(Stage::Infer.label(), "infer");
    assert_eq!(Stage::WriteStems.label(), "write_stems");
    assert_eq!(Stage::Finalize.label(), "finalize");
}

#[test]
fn percent_is_the_whole_part_of_the_hundredths() {
    assert_eq!(percent(0, 3), 0);
    assert_eq!(percent(1, 3), 33);
    assert_eq!(percent(2, 3), 66);
    assert_eq!(percent(3, 3), 100);
    assert_eq!(percent(4, 3), 100);
    assert_eq!(percent(0, 0), 100);
    assert_eq!(percent(usize::MAX - 1, usize::MAX), 99);
}

#[test]
fn a_download_counts_its_chunks() {
    let (mut progress, told) = DownloadProgress::start(Some(200_000));
    assert_eq!(told, (0, 200_000));
    assert_eq!(progress.on_chunk(CHUNK_SIZE), (65_536, 200_000));
    assert_eq!(progress.on_chunk(CHUNK_SIZE), (131_072, 200_000));
    assert_eq!(progress.on_chunk(CHUNK_SIZE), (196_608, 200_000));
    assert_eq!(progress.on_chunk(3_392), (200_000, 200_000));
    assert_eq!(progress.finish(), (200_000, 200_000));
    assert_eq!(CHUNK_SIZE, 64 * 1024);
    assert_eq!(CONNECT_TIMEOUT_SECS, 10);
    assert_eq!(READ_TIMEOUT_SECS, 60 * 60);
}

#[test]
fn a_download_without_an_announced_size_ends_at_what_arrived() {
    let (mut progress, told) = DownloadProgress::start(None);
    assert_eq!(told, (0, 0));
    assert_eq!(progress.on_chunk(10), (10, 0));
    assert_eq!(progress.on_chunk(5), (15, 0));
    assert_eq!(progress.finish(), (15, 15));
    // More than was announced: the whole is what arrived.
    let (mut more, _) = DownloadProgress::start(Some(4));
    more.on_chunk(6);
    assert_eq!(more.finish(), (6, 6));
    // Less than was announced: the whole is what was announced.
    let (mut less, _) = DownloadProgress::start(Some(40));
    less.on_chunk(6);
    assert_eq!(less.finish(), (40, 40));
    let mut full = DownloadProgress { downloaded: u64::MAX - 1, total: 0 };
    assert_eq!(full.on_chunk(5), (u64::MAX, 0));
}

#[test]
fn errors_describe_themselves() {
    assert_eq!(
        StemError::ChecksumMismatch { path: "/c/m.onnx".into() }.message(),
        "Checksum mismatch for /c/m.onnx"
    );
    assert_eq!(StemError::CacheDirUnavailable.message(), "Cache dir not available");
    assert_eq!(StemError::RegistryMiss("m".into()).message(), "Registry error: m");
    assert_eq!(StemError::IoError("disk".into()).message(), "I/O error: disk");
    assert_eq!(StemError::ManifestInvalid("bad".into()).message(), "Manifest error: bad");
    assert_eq!(StemError::ShapeMismatch.message(), "Spec dims mismatch");
    assert_eq!(StemError::ModelInterface("x".into()).message(), "Model interface error: x");
    assert_eq!(StemError::InferenceFailure("oom".into()).message(), "Inference failed: oom");
    assert_eq!(StemError::Internal("bug".into()).message(), "Internal error: bug");
    assert_eq!(
        StemError::InputInvalid(InputFault::LengthMismatch).message(),
        "Invalid input: L/R length mismatch"
    );
    assert_eq!(
        StemError::InputInvalid(InputFault::WindowLength).message(),
        "Invalid input: Bad window length"
    );
    assert_eq!(StemError::InputInvalid(InputFault::EmptyAudio).message(), "Invalid input: Empty audio");
    assert_eq!(
        StemError::InputInvalid(InputFault::SampleRate).message(),
        "Invalid input: Unsupported sample rate"
    );
    assert_eq!(
        StemError::InputInvalid(InputFault::WindowHop).message(),
        "Invalid input: Bad win/hop in manifest"
    );
    assert_eq!(InputFault::EmptyAudio.text(), "Empty audio");
}

#[test]
fn texts_are_compared_with_and_without_case() {
    assert!(same_text("abc", "abc"));
    assert!(!same_text("abc", "abC"));
    assert!(!same_text("abc", "ab"));
    assert!(eq_ignore_ascii_case("AbC1", "aBc1"));
    assert!(!eq_ignore_ascii_case("abc", "abd"));
    assert!(!eq_ignore_ascii_case("abc", "abcd"));
    assert!(eq_ignore_ascii_case("", ""));
    assert!(starts_with("https://x", "https://"));
    assert!(starts_with("abc", ""));
    assert!(!starts_with("ab", "abc"));
    assert_eq!(to_ascii_lower('A'), 'a');
    assert_eq!(to_ascii_lower('Z'), 'z');
    assert_eq!(to_ascii_lower('a'), 'a');
    assert_eq!(to_ascii_lower('@'), '@');
    assert_eq!(to_ascii_lower('['), '[');
    assert_eq!(to_ascii_lower('É'), 'É');
}
