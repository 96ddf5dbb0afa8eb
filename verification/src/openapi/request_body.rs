use vstd::prelude::*;

use crate::openapi::extensions::Extensions;
use crate::openapi::media_type::content_well_formed;
use crate::openapi::media_type::MediaType;

verus! {

/// The request body of an operation: a content mapping keyed by media type.
#[derive(Debug)]
pub struct RequestBody {
    pub description: Option<String>,
    pub content: Vec<(String, MediaType)>,
    pub required: Option<bool>,
    pub extensions: Extensions,
}

impl RequestBody {
    pub open spec fn well_formed(self) -> bool {
        content_well_formed(self.content@)
    }
}

} // verus!
