//! The registry: the table from model names to the addresses of their
//! manifests.

use crate::error::StemError;
use crate::text::same_text;
use vstd::prelude::*;
use vstd::string::*;

verus! {

/// One model of the registry.
#[derive(Debug, PartialEq, Eq)]
pub struct RegistryEntry {
    pub name: String,
    /// The address of the model's manifest.
    pub manifest: String,
}

/// The registry: the models, and the name of the one that is meant where no
/// name is given.
#[derive(Debug, PartialEq, Eq)]
pub struct Registry {
    pub default: String,
    pub models: Vec<RegistryEntry>,
}

/// The name that is looked up: the default where `model_name` is empty.
pub open spec fn target_name(registry: Registry, model_name: Seq<char>) -> Seq<char> {
    if model_name.len() == 0 {
        registry.default@
    } else {
        model_name
    }
}

/// The place of the first model from `from` on that is named `target`.
pub open spec fn first_entry(models: Seq<RegistryEntry>, target: Seq<char>, from: int) -> Option<
    int,
>
    decreases models.len() - from,
{
    if from < 0 || from >= models.len() {
        None
    } else if models[from].name@ == target {
        Some(from)
    } else {
        first_entry(models, target, from + 1)
    }
}

/// What is said of a name that the registry does not have.
pub open spec fn miss_text(target: Seq<char>) -> Seq<char> {
    "Model `"@ + target + "` not found in registry"@
}

/// The address of the manifest of the model `model_name`, or of the default
/// model where the name is empty. The first entry of that name counts.
pub fn resolve_manifest_url(registry: &Registry, model_name: &str) -> (res: Result<
    String,
    StemError,
>)
    ensures
        match first_entry(registry.models@, target_name(*registry, model_name@), 0) {
            Some(i) => res matches Ok(url) && url@ == registry.models@[i].manifest@,
            None => res matches Err(StemError::RegistryMiss(text)) && text@ == miss_text(
                target_name(*registry, model_name@),
            ),
        },
{
    let target: &str = if model_name.unicode_len() == 0 {
        registry.default.as_str()
    } else {
        model_name
    };
    let mut i: usize = 0;
    while i < registry.models.len()
        invariant
            i <= registry.models@.len(),
            target@ == target_name(*registry, model_name@),
            first_entry(registry.models@, target@, 0) == first_entry(
                registry.models@,
                target@,
                i as int,
            ),
        decreases registry.models@.len() - i,
    {
        if same_text(registry.models[i].name.as_str(), target) {
            return Ok(registry.models[i].manifest.clone());
        }
        i += 1;
    }
    Err(
        StemError::RegistryMiss(
            String::from_str("Model `").concat(target).concat("` not found in registry"),
        ),
    )
}

} // verus!
