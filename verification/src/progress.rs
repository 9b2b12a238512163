//! Progress of a download and of a split, and the slot that holds its observer.

use vstd::prelude::*;

verus! {

/// A phase of a split.
#[derive(Debug, Clone, Copy, PartialEq, Eq, Structural)]
pub enum Stage {
    ResolveModel,
    EnginePreload,
    ReadAudio,
    Infer,
    WriteStems,
    Finalize,
}

impl Stage {
    /// The name under which observers know the phase.
    pub open spec fn label_text(self) -> Seq<char> {
        match self {
            Stage::ResolveModel => "resolve_model"@,
            Stage::EnginePreload => "engine_preload"@,
            Stage::ReadAudio => "read_audio"@,
            Stage::Infer => "infer"@,
            Stage::WriteStems => "write_stems"@,
            Stage::Finalize => "finalize"@,
        }
    }

    /// The name under which observers know the phase.
    pub fn label(&self) -> (name: &'static str)
        ensures
            name@ == self.label_text(),
    {
        match self {
            Stage::ResolveModel => "resolve_model",
            Stage::EnginePreload => "engine_preload",
            Stage::ReadAudio => "read_audio",
            Stage::Infer => "infer",
            Stage::WriteStems => "write_stems",
            Stage::Finalize => "finalize",
        }
    }
}

/// What an observer of a split is told.
#[derive(Debug, PartialEq, Eq)]
pub enum SplitProgress {
    /// A phase begins.
    Stage(Stage),
    /// `done` of `total` windows went through the model.
    Chunks { done: usize, total: usize },
    /// `done` of `total` stems are written; `stem` is the last one.
    Writing { stem: String, done: usize, total: usize },
    /// The split is complete.
    Finished,
}

/// The part of a whole in hundredths: `done * 100 / total`, and 100 where
/// there is nothing to do.
pub open spec fn percent_of(done: int, total: int) -> int {
    if total <= 0 {
        100
    } else if done >= total {
        100
    } else {
        done * 100 / total
    }
}

/// How far `done` of `total` is, in whole percent.
pub fn percent(done: usize, total: usize) -> (p: u8)
    ensures
        p == percent_of(done as int, total as int),
        p <= 100,
{
    if total == 0 || done >= total {
        return 100;
    }
    let scaled: u128 = done as u128 * 100u128 / total as u128;
    assert(done * 100 / (total as int) < 100) by (nonlinear_arith)
        requires
            0 <= done < total,
    ;
    scaled as u8
}

/// Installs `cb` as the observer of downloads, unless one is installed: the
/// slot is written once.
pub fn set_download_progress_callback<F: Fn(u64, u64)>(slot: &mut Option<F>, cb: F)
    ensures
        old(slot).is_some() ==> *final(slot) == *old(slot),
        old(slot).is_none() ==> *final(slot) == Some(cb),
{
    if slot.is_none() {
        *slot = Some(cb);
    }
}

/// Tells the observer of downloads, if there is one, that `done` of `total`
/// bytes have arrived.
pub fn emit_download_progress<F: Fn(u64, u64)>(slot: &Option<F>, done: u64, total: u64) -> (told:
    bool)
    requires
        slot matches Some(cb) ==> call_requires(cb, (done, total)),
    ensures
        told == slot.is_some(),
        slot matches Some(cb) ==> call_ensures(cb, (done, total), ()),
{
    match slot {
        Some(cb) => {
            cb(done, total);
            true
        },
        None => false,
    }
}

/// Installs `cb` as the observer of splits, unless one is installed.
pub fn set_split_progress_callback<F: Fn(SplitProgress)>(slot: &mut Option<F>, cb: F)
    ensures
        old(slot).is_some() ==> *final(slot) == *old(slot),
        old(slot).is_none() ==> *final(slot) == Some(cb),
{
    if slot.is_none() {
        *slot = Some(cb);
    }
}

/// Tells the observer of splits, if there is one, of `p`.
pub fn emit_split_progress<F: Fn(SplitProgress)>(slot: &Option<F>, p: SplitProgress) -> (told:
    bool)
    requires
        slot matches Some(cb) ==> call_requires(cb, (p,)),
    ensures
        told == slot.is_some(),
        slot matches Some(cb) ==> call_ensures(cb, (p,), ()),
{
    match slot {
        Some(cb) => {
            cb(p);
            true
        },
        None => false,
    }
}

} // verus!
