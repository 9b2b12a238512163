//! The model cache: the protocol that makes sure a verified copy of a model's
//! artifact is on disk, downloading it at most once.

use crate::error::StemError;
use crate::manifest::{ModelHandle, ModelManifest};
use crate::paths::{
    cache_file_name, cache_name_text, cache_path, cache_path_text, models_cache_dir,
    models_dir_text, part_path, part_path_text,
};
use crate::registry::{first_entry, miss_text, resolve_manifest_url, target_name, Registry};
use crate::text::{eq_ignore_ascii_case, same_ignoring_case};
use vstd::prelude::*;
use vstd::string::*;

verus! {

/// Where the protocol stands.
#[derive(Debug, Clone, Copy, PartialEq, Eq, Structural)]
pub enum Phase {
    /// The manifest's address is being resolved.
    Resolve,
    /// The manifest is being fetched.
    Fetch,
    /// The cached file, if any, is being hashed.
    Probe,
    /// The artifact is being downloaded.
    Download,
    /// The downloaded file is being hashed.
    Verify,
    /// A verified copy is on disk.
    Ready,
    /// The protocol failed.
    Failed,
}

/// What a step of the protocol came to.
#[derive(Debug, Clone, Copy, PartialEq, Eq, Structural)]
pub enum Outcome {
    UrlResolved,
    RegistryMissed,
    ManifestAccepted,
    ManifestRejected,
    DigestMatched,
    DigestDiffered,
    Downloaded,
    DownloadFailed,
}

/// The phase after `outcome`. Each phase has one outcome that leads on and one
/// that does not; an outcome that does not belong to the phase fails the
/// protocol, and the two last phases are final.
pub open spec fn next_phase(phase: Phase, outcome: Outcome) -> Phase {
    match (phase, outcome) {
        (Phase::Ready, _) => Phase::Ready,
        (Phase::Resolve, Outcome::UrlResolved) => Phase::Fetch,
        (Phase::Fetch, Outcome::ManifestAccepted) => Phase::Probe,
        (Phase::Probe, Outcome::DigestMatched) => Phase::Ready,
        (Phase::Probe, Outcome::DigestDiffered) => Phase::Download,
        (Phase::Download, Outcome::Downloaded) => Phase::Verify,
        (Phase::Verify, Outcome::DigestMatched) => Phase::Ready,
        _ => Phase::Failed,
    }
}

/// The phase after `outcome`.
pub fn advance(phase: Phase, outcome: Outcome) -> (next: Phase)
    ensures
        next == next_phase(phase, outcome),
{
    match (phase, outcome) {
        (Phase::Ready, _) => Phase::Ready,
        (Phase::Resolve, Outcome::UrlResolved) => Phase::Fetch,
        (Phase::Fetch, Outcome::ManifestAccepted) => Phase::Probe,
        (Phase::Probe, Outcome::DigestMatched) => Phase::Ready,
        (Phase::Probe, Outcome::DigestDiffered) => Phase::Download,
        (Phase::Download, Outcome::Downloaded) => Phase::Verify,
        (Phase::Verify, Outcome::DigestMatched) => Phase::Ready,
        _ => Phase::Failed,
    }
}

/// Whether `outcome`, met in `phase`, makes the protocol fetch the artifact.
pub open spec fn starts_download(phase: Phase, outcome: Outcome) -> bool {
    phase == Phase::Probe && outcome == Outcome::DigestDiffered
}

/// The phase that a sequence of outcomes leads to.
pub open spec fn run(phase: Phase, outcomes: Seq<Outcome>) -> Phase
    decreases outcomes.len(),
{
    if outcomes.len() == 0 {
        phase
    } else {
        run(next_phase(phase, outcomes[0]), outcomes.drop_first())
    }
}

/// How often the artifact is fetched along a sequence of outcomes.
pub open spec fn downloads(phase: Phase, outcomes: Seq<Outcome>) -> nat
    decreases outcomes.len(),
{
    if outcomes.len() == 0 {
        0
    } else {
        (if starts_download(phase, outcomes[0]) {
            1nat
        } else {
            0nat
        }) + downloads(next_phase(phase, outcomes[0]), outcomes.drop_first())
    }
}

/// Whether the cached file verifies whenever it is probed along a sequence of
/// outcomes.
pub open spec fn cache_hits(phase: Phase, outcomes: Seq<Outcome>) -> bool
    decreases outcomes.len(),
{
    if outcomes.len() == 0 {
        true
    } else {
        !starts_download(phase, outcomes[0]) && cache_hits(
            next_phase(phase, outcomes[0]),
            outcomes.drop_first(),
        )
    }
}

/// How many phases can still follow `phase`.
pub open spec fn phases_left(phase: Phase) -> nat {
    match phase {
        Phase::Resolve => 5,
        Phase::Fetch => 4,
        Phase::Probe => 3,
        Phase::Download => 2,
        Phase::Verify => 1,
        Phase::Ready => 0,
        Phase::Failed => 0,
    }
}

/// The protocol only moves forward.
pub proof fn lemma_protocol_moves_forward(phase: Phase, outcome: Outcome)
    ensures
        phases_left(next_phase(phase, outcome)) <= phases_left(phase),
        phase != Phase::Ready && phase != Phase::Failed ==> phases_left(next_phase(phase, outcome))
            < phases_left(phase),
{
}

/// A handle is only ever given for verified bytes: the one way into `Ready`
/// is a digest that matched, of the cached file or of the downloaded one.
pub proof fn lemma_ready_needs_matching_digest(phase: Phase, outcome: Outcome)
    requires
        phase != Phase::Ready,
        next_phase(phase, outcome) == Phase::Ready,
    ensures
        outcome == Outcome::DigestMatched,
        phase == Phase::Probe || phase == Phase::Verify,
{
}

/// Once the probe is over, nothing is fetched any more.
proof fn lemma_no_download_after_probe(phase: Phase, outcomes: Seq<Outcome>)
    requires
        phases_left(phase) <= 2,
    ensures
        downloads(phase, outcomes) == 0,
    decreases outcomes.len(),
{
    if outcomes.len() > 0 {
        lemma_protocol_moves_forward(phase, outcomes[0]);
        lemma_no_download_after_probe(next_phase(phase, outcomes[0]), outcomes.drop_first());
    }
}

/// Whatever happens, one invocation fetches the artifact at most once.
pub proof fn lemma_at_most_one_download(phase: Phase, outcomes: Seq<Outcome>)
    ensures
        downloads(phase, outcomes) <= 1,
    decreases outcomes.len(),
{
    if outcomes.len() > 0 {
        if starts_download(phase, outcomes[0]) {
            lemma_no_download_after_probe(next_phase(phase, outcomes[0]), outcomes.drop_first());
        } else {
            lemma_at_most_one_download(next_phase(phase, outcomes[0]), outcomes.drop_first());
        }
    }
}

/// An invocation that finds the cached file verified fetches nothing.
pub proof fn lemma_cache_hit_fetches_nothing(phase: Phase, outcomes: Seq<Outcome>)
    requires
        cache_hits(phase, outcomes),
    ensures
        downloads(phase, outcomes) == 0,
    decreases outcomes.len(),
{
    if outcomes.len() > 0 {
        lemma_cache_hit_fetches_nothing(next_phase(phase, outcomes[0]), outcomes.drop_first());
    }
}

/// The protocol is idempotent: of two invocations in a row, the second of
/// which finds the file that the first one left verified, at most one fetches
/// the artifact, and the second fetches nothing.
pub proof fn lemma_ensure_model_idempotent(first: Seq<Outcome>, second: Seq<Outcome>)
    requires
        run(Phase::Resolve, first) == Phase::Ready,
        cache_hits(Phase::Resolve, second),
    ensures
        downloads(Phase::Resolve, second) == 0,
        downloads(Phase::Resolve, first) + downloads(Phase::Resolve, second) <= 1,
{
    lemma_at_most_one_download(Phase::Resolve, first);
    lemma_cache_hit_fetches_nothing(Phase::Resolve, second);
}

/// What a hashed file means for the protocol: the digest matched if the file
/// could be hashed and its digest is `expected`, whatever the case of its
/// letters.
pub open spec fn digest_outcome(hashed: Result<String, StemError>, expected: Seq<char>) -> Outcome {
    match hashed {
        Ok(digest) => if same_ignoring_case(digest@, expected) {
            Outcome::DigestMatched
        } else {
            Outcome::DigestDiffered
        },
        Err(_) => Outcome::DigestDiffered,
    }
}

/// What a hashed file means for the protocol.
pub fn classify_digest(hashed: &Result<String, StemError>, expected: &str) -> (outcome: Outcome)
    ensures
        outcome == digest_outcome(*hashed, expected@),
{
    match hashed {
        Ok(digest) => if eq_ignore_ascii_case(digest.as_str(), expected) {
            Outcome::DigestMatched
        } else {
            Outcome::DigestDiffered
        },
        Err(_) => Outcome::DigestDiffered,
    }
}

/// Whether a warning is due for the size of the file on disk: a size is
/// declared and the file has another.
pub fn size_differs(declared: u64, on_disk: u64) -> (warn: bool)
    ensures
        warn == (declared > 0 && on_disk != declared),
{
    declared > 0 && on_disk != declared
}

/// The path of the cached artifact of `manifest` below the cache root `root`.
pub open spec fn local_path_text(root: Seq<char>, manifest: ModelManifest) -> Seq<char> {
    cache_path_text(
        models_dir_text(root),
        cache_name_text(
            manifest.name@,
            manifest.artifacts@[0].sha256@,
            manifest.artifacts@[0].file@,
        ),
    )
}

/// `hash` has hashed the file at `path` to `expected`, whatever the case of
/// its letters.
pub open spec fn hashed_to<H: Fn(String) -> Result<String, StemError>>(
    hash: &H,
    path: Seq<char>,
    expected: Seq<char>,
) -> bool {
    exists|place: String, digest: String|
        #![trigger call_ensures(hash, (place,), Ok::<String, StemError>(digest))]
        place@ == path && call_ensures(hash, (place,), Ok::<String, StemError>(digest))
            && same_ignoring_case(digest@, expected)
}

/// The handle stands for verified bytes: its manifest is valid, its path is
/// the artifact's place in the cache, and the file at that path was hashed to
/// the digest that the manifest declares, by `file_digest` before any
/// download or by `verify_digest` after one.
pub open spec fn model_verified<
    H: Fn(String) -> Result<String, StemError>,
    V: Fn(String) -> Result<String, StemError>,
>(file_digest: &H, verify_digest: &V, root: Seq<char>, handle: ModelHandle) -> bool {
    &&& handle.manifest.wf()
    &&& handle.local_path@ == local_path_text(root, handle.manifest)
    &&& hashed_to(file_digest, handle.local_path@, handle.manifest.artifacts@[0].sha256@)
        || hashed_to(verify_digest, handle.local_path@, handle.manifest.artifacts@[0].sha256@)
}

/// `res` is the handle of `manifest` at `path`.
pub open spec fn handle_for(
    manifest: ModelManifest,
    path: Seq<char>,
    res: Result<ModelHandle, StemError>,
) -> bool {
    res matches Ok(handle) && handle.manifest == manifest && handle.local_path@ == path
}

/// What the hash of a downloaded file comes to for the artifact of `manifest`
/// at `path`: a failure to hash is passed on; the declared digest, whatever
/// the case of its letters, gives the handle; any other digest is a checksum
/// mismatch for `path`.
pub open spec fn download_settled(
    manifest: ModelManifest,
    path: Seq<char>,
    hashed: Result<String, StemError>,
    res: Result<ModelHandle, StemError>,
) -> bool {
    match hashed {
        Err(e) => res == Err::<ModelHandle, StemError>(e),
        Ok(digest) => if same_ignoring_case(digest@, manifest.artifacts@[0].sha256@) {
            handle_for(manifest, path, res)
        } else {
            res matches Err(StemError::ChecksumMismatch { path: reported }) && reported@ == path
        },
    }
}

/// Settles a download by the hash of the downloaded file: the handle where
/// the digest is the declared one, a checksum mismatch where it is another,
/// and the failure where the file could not be hashed.
pub fn settle_download(
    manifest: ModelManifest,
    local_path: String,
    hashed: Result<String, StemError>,
) -> (res: Result<ModelHandle, StemError>)
    requires
        manifest.wf(),
    ensures
        download_settled(manifest, local_path@, hashed, res),
{
    let outcome = classify_digest(&hashed, manifest.artifacts[0].sha256.as_str());
    let after_verify = advance(Phase::Verify, outcome);
    match hashed {
        Err(e) => Err(e),
        Ok(_) => if after_verify == Phase::Ready {
            Ok(ModelHandle { manifest, local_path })
        } else {
            Err(StemError::ChecksumMismatch { path: local_path })
        },
    }
}

/// What the protocol ends in once the artifact is downloaded: `verify_digest`
/// hashes the file at `path`, and that hash settles the download.
pub open spec fn verified_outcome<V: Fn(String) -> Result<String, StemError>>(
    verify_digest: &V,
    manifest: ModelManifest,
    path: Seq<char>,
    res: Result<ModelHandle, StemError>,
) -> bool {
    exists|place: String, hashed: Result<String, StemError>|
        #![trigger call_ensures(verify_digest, (place,), hashed)]
        place@ == path && call_ensures(verify_digest, (place,), hashed) && download_settled(
            manifest,
            path,
            hashed,
            res,
        )
}

/// What the protocol ends in once the cached file did not verify: the
/// artifact is downloaded from its address by way of the part file to
/// `path`; a failure is returned; else the download is verified.
pub open spec fn downloaded_outcome<
    V: Fn(String) -> Result<String, StemError>,
    D: Fn(String, String, String) -> Result<(), StemError>,
>(
    verify_digest: &V,
    download: &D,
    manifest: ModelManifest,
    path: Seq<char>,
    res: Result<ModelHandle, StemError>,
) -> bool {
    exists|url: String, part: String, dest: String, fetched: Result<(), StemError>|
        #![trigger call_ensures(download, (url, part, dest), fetched)]
        url@ == manifest.artifacts@[0].url@ && part@ == part_path_text(path) && dest@ == path
            && call_ensures(download, (url, part, dest), fetched) && match fetched {
            Err(e) => res == Err::<ModelHandle, StemError>(e),
            Ok(_) => verified_outcome(verify_digest, manifest, path, res),
        }
}

/// What the protocol ends in once the manifest is accepted: the file at
/// `path` is hashed; the declared digest gives the handle at once, and
/// anything else leads to the download.
pub open spec fn cached_outcome<
    H: Fn(String) -> Result<String, StemError>,
    V: Fn(String) -> Result<String, StemError>,
    D: Fn(String, String, String) -> Result<(), StemError>,
>(
    file_digest: &H,
    verify_digest: &V,
    download: &D,
    manifest: ModelManifest,
    path: Seq<char>,
    res: Result<ModelHandle, StemError>,
) -> bool {
    exists|place: String, probe: Result<String, StemError>|
        #![trigger call_ensures(file_digest, (place,), probe)]
        place@ == path && call_ensures(file_digest, (place,), probe) && if digest_outcome(
            probe,
            manifest.artifacts@[0].sha256@,
        ) == Outcome::DigestMatched {
            handle_for(manifest, path, res)
        } else {
            downloaded_outcome(verify_digest, download, manifest, path, res)
        }
}

/// What the protocol ends in once the manifest's address is `url`: a failure
/// to fetch the manifest is returned; a manifest that breaks an invariant is
/// reported as invalid; without a cache root there is no cache directory;
/// else the cache is looked into.
pub open spec fn fetched_outcome<
    F: Fn(String) -> Result<ModelManifest, StemError>,
    H: Fn(String) -> Result<String, StemError>,
    V: Fn(String) -> Result<String, StemError>,
    D: Fn(String, String, String) -> Result<(), StemError>,
>(
    fetch_manifest: &F,
    file_digest: &H,
    verify_digest: &V,
    download: &D,
    url: Seq<char>,
    root: Option<Seq<char>>,
    res: Result<ModelHandle, StemError>,
) -> bool {
    exists|address: String, fetched: Result<ModelManifest, StemError>|
        #![trigger call_ensures(fetch_manifest, (address,), fetched)]
        address@ == url && call_ensures(fetch_manifest, (address,), fetched) && match fetched {
            Err(e) => res == Err::<ModelHandle, StemError>(e),
            Ok(manifest) => match manifest.fault() {
                Some(text) => res matches Err(StemError::ManifestInvalid(reported)) && reported@
                    == text,
                None => match root {
                    None => res == Err::<ModelHandle, StemError>(StemError::CacheDirUnavailable),
                    Some(r) => cached_outcome(
                        file_digest,
                        verify_digest,
                        download,
                        manifest,
                        local_path_text(r, manifest),
                        res,
                    ),
                },
            },
        }
}

/// The text of an optional text.
pub open spec fn text_of(given: Option<&str>) -> Option<Seq<char>> {
    match given {
        Some(text) => Some(text@),
        None => None,
    }
}

/// Makes sure that a verified copy of the model's artifact is in the cache.
///
/// The manifest's address is `manifest_url_override` where given, else the
/// registry's address for `model_name`. `fetch_manifest` fetches and parses
/// the manifest at an address; the manifest must be valid. The artifact's
/// place is in the models directory below `cache_root`. `file_digest` hashes
/// the cached file at that place; where its digest is the declared one,
/// nothing is fetched. Else `download` fetches the artifact from its address
/// by way of a part file to that place, and `verify_digest` hashes the
/// downloaded file: the declared digest gives the handle, and a digest other
/// than the declared one is a checksum mismatch. The second hash has a
/// parameter of its own, so that the result after a download is stated of a
/// hash that was made after it.
pub fn ensure_model<
    F: Fn(String) -> Result<ModelManifest, StemError>,
    H: Fn(String) -> Result<String, StemError>,
    V: Fn(String) -> Result<String, StemError>,
    D: Fn(String, String, String) -> Result<(), StemError>,
>(
    model_name: &str,
    manifest_url_override: Option<&str>,
    registry: &Registry,
    cache_root: Option<&str>,
    fetch_manifest: &F,
    file_digest: &H,
    verify_digest: &V,
    download: &D,
) -> (res: Result<ModelHandle, StemError>)
    requires
        forall|url: String| call_requires(fetch_manifest, (url,)),
        forall|path: String| call_requires(file_digest, (path,)),
        forall|path: String| call_requires(verify_digest, (path,)),
        forall|url: String, part: String, dest: String|
            call_requires(download, (url, part, dest)),
    ensures
        match manifest_url_override {
            Some(given) => fetched_outcome(
                fetch_manifest,
                file_digest,
                verify_digest,
                download,
                given@,
                text_of(cache_root),
                res,
            ),
            None => match first_entry(registry.models@, target_name(*registry, model_name@), 0) {
                Some(i) => fetched_outcome(
                    fetch_manifest,
                    file_digest,
                    verify_digest,
                    download,
                    registry.models@[i].manifest@,
                    text_of(cache_root),
                    res,
                ),
                None => res matches Err(StemError::RegistryMiss(text)) && text@ == miss_text(
                    target_name(*registry, model_name@),
                ),
            },
        },
        res matches Ok(handle) ==> (cache_root matches Some(root) && model_verified(
            file_digest,
            verify_digest,
            root@,
            handle,
        )),
{
    let url: String = match manifest_url_override {
        Some(given) => String::from_str(given),
        None => match resolve_manifest_url(registry, model_name) {
            Ok(found) => found,
            Err(e) => {
                return Err(e);
            },
        },
    };
    let manifest: ModelManifest = match fetch_manifest(url) {
        Ok(manifest) => manifest,
        Err(e) => {
            return Err(e);
        },
    };
    match manifest.validate() {
        Ok(()) => {},
        Err(e) => {
            return Err(e);
        },
    }
    let artifact = manifest.resolve_primary_artifact();
    let dir: String = match models_cache_dir(cache_root) {
        Ok(dir) => dir,
        Err(e) => {
            return Err(e);
        },
    };
    let file_name = cache_file_name(
        manifest.name.as_str(),
        artifact.sha256.as_str(),
        artifact.file.as_str(),
    );
    let local_path = cache_path(dir.as_str(), file_name.as_str());
    let probe = file_digest(local_path.clone());
    let after_probe = advance(Phase::Probe, classify_digest(&probe, artifact.sha256.as_str()));
    if after_probe == Phase::Ready {
        return Ok(ModelHandle { manifest, local_path });
    }
    let part = part_path(local_path.as_str());
    match download(artifact.url.clone(), part, local_path.clone()) {
        Ok(()) => {},
        Err(e) => {
            return Err(e);
        },
    }
    let hashed = verify_digest(local_path.clone());
    settle_download(manifest, local_path, hashed)
}

} // verus!
