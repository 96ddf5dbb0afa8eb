use vstd::prelude::*;

use crate::keyed::unique_keys;
use crate::openapi::reference::ReferenceOr;
use crate::openapi::schema::Schema;

verus! {

/// The schema describing one media type of a request or response body.
#[derive(Debug)]
pub struct MediaType {
    pub schema: Option<ReferenceOr<Schema>>,
}

impl MediaType {
    pub open spec fn well_formed(self) -> bool {
        match self.schema {
            Option::Some(ReferenceOr::Item(s)) => s.well_formed(),
            _ => true,
        }
    }
}

/// A content mapping (media-type string to media type) is a mapping with
/// well-formed values.
pub open spec fn content_well_formed(c: Seq<(String, MediaType)>) -> bool {
    &&& unique_keys(c)
    &&& forall|i: int| 0 <= i < c.len() ==> (#[trigger] c[i].1).well_formed()
}

} // verus!
