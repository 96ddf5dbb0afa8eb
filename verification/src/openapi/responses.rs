use vstd::prelude::*;

use crate::keyed::unique_keys;
use crate::openapi::extensions::Extensions;
use crate::openapi::media_type::content_well_formed;
use crate::openapi::media_type::MediaType;
use crate::openapi::reference::ReferenceOr;

verus! {

/// The possible responses of an operation, keyed by status-code string
/// (such as "200", "4XX" or "default").
#[derive(Debug)]
pub struct Responses {
    pub default: Option<ReferenceOr<Response>>,
    pub responses: Vec<(String, ReferenceOr<Response>)>,
}

/// One response: only its content mapping takes part in the diff.
#[derive(Debug)]
pub struct Response {
    pub description: Option<String>,
    pub content: Vec<(String, MediaType)>,
    pub extensions: Extensions,
}

impl Responses {
    pub open spec fn well_formed(self) -> bool {
        &&& unique_keys(self.responses@)
        &&& forall|i: int|
            0 <= i < self.responses@.len() ==> match #[trigger] self.responses@[i].1 {
                ReferenceOr::Item(r) => r.well_formed(),
                ReferenceOr::Reference { .. } => true,
            }
    }

    pub open spec fn is_default(self) -> bool {
        &&& self.default is None
        &&& self.responses@ == Seq::<(String, ReferenceOr<Response>)>::empty()
    }
}

impl Default for Responses {
    fn default() -> (r: Self)
        ensures
            r.is_default(),
            r.well_formed(),
    {
        Responses { default: Option::None, responses: Vec::new() }
    }
}

impl Response {
    pub open spec fn well_formed(self) -> bool {
        content_well_formed(self.content@)
    }
}

} // verus!
