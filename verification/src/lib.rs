//! Verified core of a four-stem music separator.
//!
//! The library frames audio into windows, builds the two inputs of a hybrid
//! time and frequency model for each window, combines the model's two outputs,
//! and overlap-adds the windows' sources into stems. It also holds the
//! protocol that keeps a verified copy of the model in a cache on disk.
//!
//! The library does no input or output and no arithmetic on samples of its
//! own: it is generic over the sample type, and its callers hand it the
//! collaborators (the network, the disk, the inference runtime) and the
//! numeric kernels (products, sums, quotients, the Fourier transform of one
//! frame) as functions. The contracts say what was handed to which of them and
//! what was made of their answers.

pub mod crypto;
pub mod dsp;
pub mod engine;
pub mod error;
pub mod manifest;
pub mod model_manager;
pub mod net;
pub mod paths;
pub mod progress;
pub mod registry;
pub mod splitter;
pub mod text;

pub use crate::error::StemError;
pub use crate::manifest::{ModelHandle, ModelManifest};
pub use crate::model_manager::ensure_model;
pub use crate::progress::{set_download_progress_callback, set_split_progress_callback};
pub use crate::splitter::{split_file, SplitOptions, SplitResult};

use crate::engine::{load_model, model_loaded, Engine};
use vstd::prelude::*;

verus! {

/// Makes a model ready for use: given what making sure of the model's artifact
/// came to, loads the model into the engine with `load`, or passes the failure
/// on, loads nothing and leaves the engine as it is.
pub fn prepare_model<L: FnOnce(String) -> Result<(), StemError>>(
    engine: &mut Engine,
    ensured: Result<ModelHandle, StemError>,
    load: L,
) -> (res: Result<(), StemError>)
    requires
        old(engine).wf(),
        forall|path: String| call_requires(load, (path,)),
    ensures
        final(engine).wf(),
        match ensured {
            Ok(handle) => model_loaded(load, *old(engine), handle, *final(engine), res),
            Err(e) => res == Err::<(), StemError>(e) && *final(engine) == *old(engine),
        },
{
    match ensured {
        Ok(handle) => load_model(engine, &handle, load),
        Err(e) => Err(e),
    }
}

} // verus!
