//! The declaration of a downloadable model, and what makes one valid.

use crate::error::StemError;
use crate::text::{begins_with, starts_with};
use vstd::prelude::*;
use vstd::string::*;

verus! {

/// One downloadable file of a model.
#[derive(Debug, PartialEq, Eq)]
pub struct Artifact {
    /// The file's name, whose suffix names its format.
    pub file: String,
    /// Where the file is fetched from.
    pub url: String,
    /// The SHA-256 digest of the file, in hexadecimal.
    pub sha256: String,
    /// The file's size in bytes; zero where it is not declared.
    pub size_bytes: u64,
}

/// The immutable declaration of a model.
#[derive(Debug, PartialEq, Eq)]
pub struct ModelManifest {
    pub name: String,
    pub version: String,
    pub backend: String,
    /// Samples per second.
    pub sample_rate: u32,
    /// Samples per inference window.
    pub window: usize,
    /// Samples between the starts of two windows.
    pub hop: usize,
    /// The names of the stems, in the order of the model's sources.
    pub stems: Vec<String>,
    pub input_layout: String,
    pub output_layout: String,
    pub artifacts: Vec<Artifact>,
}

/// A verified local model: its manifest and the path of the artifact on disk.
#[derive(Debug, PartialEq, Eq)]
pub struct ModelHandle {
    pub manifest: ModelManifest,
    pub local_path: String,
}

/// Whether `c` is a lowercase hexadecimal digit.
pub open spec fn is_lower_hex(c: char) -> bool {
    ('0' <= c && c <= '9') || ('a' <= c && c <= 'f')
}

/// Whether `text` is a SHA-256 digest in lowercase hexadecimal: 64 digits.
pub open spec fn is_digest(text: Seq<char>) -> bool {
    text.len() == 64 && forall|i: int| 0 <= i < text.len() ==> is_lower_hex(#[trigger] text[i])
}

/// Whether `url` is an absolute HTTP or HTTPS address.
pub open spec fn is_http_url(url: Seq<char>) -> bool {
    begins_with(url, "http://"@) || begins_with(url, "https://"@)
}

/// Whether `text` is a SHA-256 digest in lowercase hexadecimal.
pub fn check_digest(text: &str) -> (ok: bool)
    ensures
        ok == is_digest(text@),
{
    if text.unicode_len() != 64 {
        return false;
    }
    let mut i: usize = 0;
    while i < 64
        invariant
            i <= 64,
            text@.len() == 64,
            forall|k: int| 0 <= k < i ==> is_lower_hex(#[trigger] text@[k]),
        decreases 64 - i,
    {
        let c = text.get_char(i);
        if !(('0' <= c && c <= '9') || ('a' <= c && c <= 'f')) {
            return false;
        }
        i += 1;
    }
    true
}

/// Whether `url` is an absolute HTTP or HTTPS address.
pub fn check_http_url(url: &str) -> (ok: bool)
    ensures
        ok == is_http_url(url@),
{
    starts_with(url, "http://") || starts_with(url, "https://")
}

/// A copy of a list of texts.
pub fn copy_texts(texts: &Vec<String>) -> (out: Vec<String>)
    ensures
        out@.len() == texts@.len(),
        forall|i: int| 0 <= i < out@.len() ==> (#[trigger] out@[i])@ == texts@[i]@,
{
    let mut out: Vec<String> = Vec::new();
    let mut i: usize = 0;
    while i < texts.len()
        invariant
            i <= texts@.len(),
            out@.len() == i,
            forall|k: int| 0 <= k < i ==> (#[trigger] out@[k])@ == texts@[k]@,
        decreases texts@.len() - i,
    {
        out.push(texts[i].clone());
        i += 1;
    }
    out
}

impl Artifact {
    /// The digest is 64 lowercase hexadecimal digits and the address is
    /// absolute HTTP or HTTPS.
    pub open spec fn wf(&self) -> bool {
        is_digest(self.sha256@) && is_http_url(self.url@)
    }

    /// Whether two artifacts declare the same file, text by text.
    pub open spec fn same_as(&self, other: &Artifact) -> bool {
        &&& self.file@ == other.file@
        &&& self.url@ == other.url@
        &&& self.sha256@ == other.sha256@
        &&& self.size_bytes == other.size_bytes
    }

    /// A copy of this artifact.
    pub fn duplicate(&self) -> (copy: Artifact)
        ensures
            copy.same_as(self),
    {
        Artifact {
            file: self.file.clone(),
            url: self.url.clone(),
            sha256: self.sha256.clone(),
            size_bytes: self.size_bytes,
        }
    }
}

impl ModelManifest {
    /// The manifest's invariants: `0 < hop <= window`, exactly one artifact,
    /// and that artifact well formed.
    pub open spec fn wf(&self) -> bool {
        &&& 0 < self.hop <= self.window
        &&& self.artifacts@.len() == 1
        &&& self.artifacts@[0].wf()
    }

    /// The text that describes the first invariant that the manifest breaks.
    pub open spec fn fault(&self) -> Option<Seq<char>> {
        if !(0 < self.hop <= self.window) {
            Some("hop must be positive and at most window"@)
        } else if self.artifacts@.len() != 1 {
            Some("exactly one artifact is expected"@)
        } else if !is_digest(self.artifacts@[0].sha256@) {
            Some("sha256 must be 64 lowercase hex digits"@)
        } else if !is_http_url(self.artifacts@[0].url@) {
            Some("url must be absolute http or https"@)
        } else {
            None
        }
    }

    /// Whether two manifests declare the same model, text by text.
    pub open spec fn same_as(&self, other: &ModelManifest) -> bool {
        &&& self.name@ == other.name@
        &&& self.version@ == other.version@
        &&& self.backend@ == other.backend@
        &&& self.sample_rate == other.sample_rate
        &&& self.window == other.window
        &&& self.hop == other.hop
        &&& self.stems@.len() == other.stems@.len()
        &&& forall|i: int|
            0 <= i < self.stems@.len() ==> (#[trigger] self.stems@[i])@ == other.stems@[i]@
        &&& self.input_layout@ == other.input_layout@
        &&& self.output_layout@ == other.output_layout@
        &&& self.artifacts@.len() == other.artifacts@.len()
        &&& forall|i: int|
            0 <= i < self.artifacts@.len() ==> (#[trigger] self.artifacts@[i]).same_as(
                &other.artifacts@[i],
            )
    }

    /// A copy of this manifest.
    pub fn duplicate(&self) -> (copy: ModelManifest)
        ensures
            copy.same_as(self),
    {
        let mut artifacts: Vec<Artifact> = Vec::new();
        let mut i: usize = 0;
        while i < self.artifacts.len()
            invariant
                i <= self.artifacts@.len(),
                artifacts@.len() == i,
                forall|k: int|
                    0 <= k < i ==> (#[trigger] artifacts@[k]).same_as(&self.artifacts@[k]),
            decreases self.artifacts@.len() - i,
        {
            artifacts.push(self.artifacts[i].duplicate());
            i += 1;
        }
        ModelManifest {
            name: self.name.clone(),
            version: self.version.clone(),
            backend: self.backend.clone(),
            sample_rate: self.sample_rate,
            window: self.window,
            hop: self.hop,
            stems: copy_texts(&self.stems),
            input_layout: self.input_layout.clone(),
            output_layout: self.output_layout.clone(),
            artifacts,
        }
    }

    /// Checks the manifest's invariants; reports the first one that is broken.
    pub fn validate(&self) -> (res: Result<(), StemError>)
        ensures
            res.is_ok() == self.wf(),
            res.is_ok() == self.fault().is_none(),
            res matches Err(e) ==> (e matches StemError::ManifestInvalid(text) && Some(text@)
                == self.fault()),
    {
        if !(0 < self.hop && self.hop <= self.window) {
            return Err(
                StemError::ManifestInvalid(
                    String::from_str("hop must be positive and at most window"),
                ),
            );
        }
        if self.artifacts.len() != 1 {
            return Err(
                StemError::ManifestInvalid(String::from_str("exactly one artifact is expected")),
            );
        }
        if !check_digest(self.artifacts[0].sha256.as_str()) {
            return Err(
                StemError::ManifestInvalid(
                    String::from_str("sha256 must be 64 lowercase hex digits"),
                ),
            );
        }
        if !check_http_url(self.artifacts[0].url.as_str()) {
            return Err(
                StemError::ManifestInvalid(String::from_str("url must be absolute http or https")),
            );
        }
        Ok(())
    }

    /// The primary artifact: the sole artifact of a valid manifest.
    pub fn resolve_primary_artifact(&self) -> (artifact: &Artifact)
        requires
            self.wf(),
        ensures
            *artifact == self.artifacts@[0],
    {
        &self.artifacts[0]
    }
}

impl ModelHandle {
    /// A copy of this handle.
    pub fn duplicate(&self) -> (copy: ModelHandle)
        ensures
            copy.manifest.same_as(&self.manifest),
            copy.local_path@ == self.local_path@,
    {
        ModelHandle { manifest: self.manifest.duplicate(), local_path: self.local_path.clone() }
    }
}

} // verus!
