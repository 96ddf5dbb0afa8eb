use vstd::prelude::*;

use crate::keyed::unique_keys;
use crate::openapi::extensions::Extensions;
use crate::openapi::parameter::parameters_well_formed;
use crate::openapi::parameter::Parameter;
use crate::openapi::reference::ReferenceOr;
use crate::openapi::request_body::RequestBody;
use crate::openapi::responses::Responses;

verus! {

/// One API operation on a path. Tags carry set semantics for comparison;
/// parameters are matched by their identity, responses by status code.
#[derive(Debug)]
pub struct Operation {
    pub tags: Vec<String>,
    pub summary: Option<String>,
    pub description: Option<String>,
    pub operation_id: Option<String>,
    pub parameters: Vec<ReferenceOr<Parameter>>,
    pub request_body: Option<ReferenceOr<RequestBody>>,
    pub responses: Responses,
    pub extensions: Extensions,
}

impl Operation {
    pub open spec fn well_formed(self) -> bool {
        &&& parameters_well_formed(self.parameters@)
        &&& match self.request_body {
            Option::Some(ReferenceOr::Item(rb)) => rb.well_formed(),
            _ => true,
        }
        &&& self.responses.well_formed()
        &&& unique_keys(self.extensions@)
    }

    pub open spec fn is_default(self) -> bool {
        &&& self.tags@ == Seq::<String>::empty()
        &&& self.summary is None
        &&& self.description is None
        &&& self.operation_id is None
        &&& self.parameters@ == Seq::<ReferenceOr<Parameter>>::empty()
        &&& self.request_body is None
        &&& self.responses.is_default()
        &&& self.extensions@ == Seq::<(String, String)>::empty()
    }
}

impl Default for Operation {
    fn default() -> (r: Self)
        ensures
            r.is_default(),
            r.well_formed(),
    {
        Operation {
            tags: Vec::new(),
            summary: Option::None,
            description: Option::None,
            operation_id: Option::None,
            parameters: Vec::new(),
            request_body: Option::None,
            responses: Responses::default(),
            extensions: Vec::new(),
        }
    }
}

} // verus!
