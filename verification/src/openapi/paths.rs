use vstd::prelude::*;

use crate::openapi::operation::Operation;
use crate::openapi::reference::ReferenceOr;

verus! {

/// The paths of a document: an ordered mapping from path string to path
/// item, in declaration order.
pub type Paths = Vec<(String, ReferenceOr<PathItem>)>;

/// The operations bound to one URL path, one optional slot per HTTP method.
#[derive(Debug)]
pub struct PathItem {
    pub get: Option<Operation>,
    pub put: Option<Operation>,
    pub post: Option<Operation>,
    pub delete: Option<Operation>,
    pub options: Option<Operation>,
    pub head: Option<Operation>,
    pub patch: Option<Operation>,
    pub trace: Option<Operation>,
}

pub open spec fn opt_op_well_formed(op: Option<Operation>) -> bool {
    match op {
        Option::Some(o) => o.well_formed(),
        Option::None => true,
    }
}

impl PathItem {
    pub open spec fn well_formed(self) -> bool {
        &&& opt_op_well_formed(self.get)
        &&& opt_op_well_formed(self.put)
        &&& opt_op_well_formed(self.post)
        &&& opt_op_well_formed(self.delete)
        &&& opt_op_well_formed(self.options)
        &&& opt_op_well_formed(self.head)
        &&& opt_op_well_formed(self.patch)
        &&& opt_op_well_formed(self.trace)
    }

    pub open spec fn is_default(self) -> bool {
        &&& self.get is None
        &&& self.put is None
        &&& self.post is None
        &&& self.delete is None
        &&& self.options is None
        &&& self.head is None
        &&& self.patch is None
        &&& self.trace is None
    }
}

impl Default for PathItem {
    fn default() -> (r: Self)
        ensures
            r.is_default(),
            r.well_formed(),
    {
        PathItem {
            get: Option::None,
            put: Option::None,
            post: Option::None,
            delete: Option::None,
            options: Option::None,
            head: Option::None,
            patch: Option::None,
            trace: Option::None,
        }
    }
}

} // verus!
