//! Where models are kept on disk: the cache directory and the names of the
//! files in it.

use crate::error::StemError;
use crate::text::characters;
use vstd::prelude::*;
use vstd::string::*;

verus! {

/// The text of the models directory below the per-user cache root `root`.
pub open spec fn models_dir_text(root: Seq<char>) -> Seq<char> {
    root + "/models"@
}

/// The directory that holds the cached models, below the per-user cache root.
/// Without a cache root there is no such directory.
pub fn models_cache_dir(cache_root: Option<&str>) -> (res: Result<String, StemError>)
    ensures
        cache_root.is_none() ==> res == Err::<String, StemError>(StemError::CacheDirUnavailable),
        cache_root matches Some(root) ==> (res matches Ok(dir) && dir@ == models_dir_text(root@)),
{
    match cache_root {
        Some(root) => Ok(String::from_str(root).concat("/models")),
        None => Err(StemError::CacheDirUnavailable),
    }
}

/// The place of the last dot in the first `upto` characters of `file`.
pub open spec fn last_dot(file: Seq<char>, upto: int) -> Option<int>
    decreases upto,
{
    if upto <= 0 {
        None
    } else if file[upto - 1] == '.' {
        Some(upto - 1)
    } else {
        last_dot(file, upto - 1)
    }
}

/// The suffix of a file name with its dot: what stands from the last dot on,
/// and nothing where the name has no dot.
pub open spec fn suffix_text(file: Seq<char>) -> Seq<char> {
    match last_dot(file, file.len() as int) {
        Some(i) => file.subrange(i, file.len() as int),
        None => Seq::empty(),
    }
}

/// The suffix of a file name with its dot.
pub fn artifact_suffix(file: &str) -> (suffix: String)
    ensures
        suffix@ == suffix_text(file@),
{
    let chars = characters(file);
    let n: usize = chars.len();
    let mut i: usize = n;
    while i > 0
        invariant
            i <= n,
            n == file@.len(),
            chars@ == file@,
            last_dot(file@, n as int) == last_dot(file@, i as int),
        decreases i,
    {
        i -= 1;
        if chars[i] == '.' {
            return String::from_str(file.substring_char(i, n));
        }
    }
    String::new()
}

/// The name of the cached file of an artifact: the model's name, a hyphen,
/// the first eight digits of the artifact's digest, and the suffix of the
/// artifact's file name.
pub open spec fn cache_name_text(name: Seq<char>, sha256: Seq<char>, file: Seq<char>) -> Seq<
    char,
> {
    name + "-"@ + sha256.subrange(0, 8) + suffix_text(file)
}

/// The name of the cached file of an artifact.
pub fn cache_file_name(name: &str, sha256: &str, file: &str) -> (file_name: String)
    requires
        sha256@.len() >= 8,
    ensures
        file_name@ == cache_name_text(name@, sha256@, file@),
{
    let suffix = artifact_suffix(file);
    String::from_str(name).concat("-").concat(sha256.substring_char(0, 8)).concat(suffix.as_str())
}

/// The path of the cached file: the cache directory, a slash, the file's name.
pub open spec fn cache_path_text(dir: Seq<char>, file_name: Seq<char>) -> Seq<char> {
    dir + "/"@ + file_name
}

/// The path of the cached file `file_name` in the directory `dir`.
pub fn cache_path(dir: &str, file_name: &str) -> (path: String)
    ensures
        path@ == cache_path_text(dir@, file_name@),
{
    String::from_str(dir).concat("/").concat(file_name)
}

/// The path a download is written to before it takes the place of `dest`.
pub open spec fn part_path_text(dest: Seq<char>) -> Seq<char> {
    dest + ".part"@
}

/// The path a download is written to before it takes the place of `dest`.
pub fn part_path(dest: &str) -> (path: String)
    ensures
        path@ == part_path_text(dest@),
{
    String::from_str(dest).concat(".part")
}

} // verus!
