use vstd::prelude::*;

use crate::keyed::unique_keys;
use crate::openapi::components::Components;
use crate::openapi::extensions::Extensions;
use crate::openapi::info::Info;
use crate::openapi::paths::Paths;
use crate::openapi::reference::ReferenceOr;
use crate::openapi::server::unique_server_urls;
use crate::openapi::server::Server;

verus! {

/// One whole API description. Immutable input of the diff engine: a diff
/// computation never writes back into its documents.
#[derive(Debug)]
pub struct OpenAPI {
    /// The version of the description format itself.
    pub openapi: String,
    pub info: Info,
    pub servers: Vec<Server>,
    pub paths: Paths,
    pub components: Option<Components>,
    pub extensions: Extensions,
}

impl OpenAPI {
    /// Every mapping the diff engine walks is a proper mapping: path
    /// strings, server URLs, parameter identities, status codes, media
    /// types, property names and extension keys are unique within their
    /// mapping, recursively through the document.
    pub open spec fn well_formed(self) -> bool {
        &&& self.info.well_formed()
        &&& unique_server_urls(self.servers@)
        &&& forall|i: int| 0 <= i < self.servers@.len() ==> (#[trigger] self.servers@[i]).well_formed()
        &&& unique_keys(self.paths@)
        &&& forall|i: int|
            0 <= i < self.paths@.len() ==> match #[trigger] self.paths@[i].1 {
                ReferenceOr::Item(pi) => pi.well_formed(),
                ReferenceOr::Reference { .. } => true,
            }
    }

    pub open spec fn is_default(self) -> bool {
        &&& self.openapi@ == Seq::<char>::empty()
        &&& self.info.is_default()
        &&& self.servers@ == Seq::<Server>::empty()
        &&& self.paths@ == Seq::<(String, ReferenceOr<crate::openapi::paths::PathItem>)>::empty()
        &&& self.components is None
        &&& self.extensions@ == Seq::<(String, String)>::empty()
    }
}

impl Default for OpenAPI {
    fn default() -> (r: Self)
        ensures
            r.is_default(),
            r.well_formed(),
    {
        OpenAPI {
            openapi: String::new(),
            info: Info::default(),
            servers: Vec::new(),
            paths: Vec::new(),
            components: Option::None,
            extensions: Vec::new(),
        }
    }
}

} // verus!
