use vstd::prelude::*;

use crate::openapi::extensions::Extensions;
use crate::openapi::parameter::Parameter;
use crate::openapi::reference::ReferenceOr;
use crate::openapi::request_body::RequestBody;
use crate::openapi::responses::Response;
use crate::openapi::schema::Schema;
use crate::openapi::security::SecurityScheme;

verus! {

/// Pools of reusable objects. Entries take effect only where referenced
/// from outside the pools, so the diff engine does not compare them.
#[derive(Debug)]
pub struct Components {
    pub security_schemes: Vec<(String, ReferenceOr<SecurityScheme>)>,
    pub responses: Vec<(String, ReferenceOr<Response>)>,
    pub parameters: Vec<(String, ReferenceOr<Parameter>)>,
    pub request_bodies: Vec<(String, ReferenceOr<RequestBody>)>,
    pub schemas: Vec<(String, ReferenceOr<Schema>)>,
    pub extensions: Extensions,
}

} // verus!
