//! The API description: what the component offers, path by path.

use vstd::prelude::*;
use crate::endpoint::PathItem;
use crate::registry::Registry;

verus! {

/// The description of the API of a component.
#[derive(Clone, Debug, PartialEq, Eq)]
pub struct ApiDescription {
    pub title: String,
    pub version: String,
    pub description: String,
    /// One entry for each endpoint, under its path, in the order of the
    /// endpoints.
    pub paths: Vec<(String, PathItem)>,
}

/// The title of every description.
pub open spec fn title_text() -> Seq<char> {
    "WASM Component API"@
}

/// The version of every description.
pub open spec fn version_text() -> Seq<char> {
    "1.0"@
}

/// What every description says of itself.
pub open spec fn description_text() -> Seq<char> {
    "OpenAPI definition of a WASM component."@
}

/// Describes the API that the endpoints of a registry offer: one path item
/// for each endpoint, under the endpoint's path and in the order of the
/// endpoints, each with the operation of its endpoint.
pub fn api_description<C>(registry: &Registry<C>) -> (document: ApiDescription)
    ensures
        document.title@ == title_text(),
        document.version@ == version_text(),
        document.description@ == description_text(),
        document.paths.len() == registry.endpoints.len(),
        forall|i: int|
            0 <= i < registry.endpoints.len() ==> {
                &&& (#[trigger] document.paths[i]).0@ == registry.endpoints[i].path@
                &&& registry.endpoints[i].offers(document.paths[i].1)
            },
{
    let mut paths: Vec<(String, PathItem)> = Vec::new();
    let mut i: usize = 0;
    while i < registry.endpoints.len()
        invariant
            i <= registry.endpoints.len(),
            paths.len() == i,
            forall|k: int|
                0 <= k < i ==> {
                    &&& (#[trigger] paths[k]).0@ == registry.endpoints[k].path@
                    &&& registry.endpoints[k].offers(paths[k].1)
                },
        decreases registry.endpoints.len() - i,
    {
        let endpoint = &registry.endpoints[i];
        paths.push((endpoint.path.clone(), endpoint.into_path_item()));
        i += 1;
    }
    ApiDescription {
        title: String::from_str("WASM Component API"),
        version: String::from_str("1.0"),
        description: String::from_str("OpenAPI definition of a WASM component."),
        paths,
    }
}

} // verus!
