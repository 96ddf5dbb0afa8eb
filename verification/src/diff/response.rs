use vstd::prelude::*;

use crate::diff::content::content_differs;
use crate::diff::content::content_supported;
use crate::diff::content::ContentDiff;
use crate::diff::unsupported;
use crate::diff::DiffError;
use crate::openapi::reference::ReferenceOr;
use crate::openapi::responses::Response;

verus! {

/// Two response positions can be compared: both inline, with comparable
/// content.
pub open spec fn response_pair_supported(x: ReferenceOr<Response>, y: ReferenceOr<Response>) -> bool {
    match (x, y) {
        (ReferenceOr::Item(a), ReferenceOr::Item(b)) => content_supported(a.content@, b.content@),
        _ => false,
    }
}

/// Two inline responses differ when their content mappings differ; only
/// content takes part in the comparison.
pub open spec fn response_differs(x: ReferenceOr<Response>, y: ReferenceOr<Response>) -> bool {
    match (x, y) {
        (ReferenceOr::Item(a), ReferenceOr::Item(b)) => content_differs(a.content@, b.content@),
        _ => false,
    }
}

/// The response difference predicate as one shared function value.
pub open spec fn response_differs_fn() -> spec_fn(
    ReferenceOr<Response>,
    ReferenceOr<Response>,
) -> bool {
    |x: ReferenceOr<Response>, y: ReferenceOr<Response>| response_differs(x, y)
}

/// A response position is well-formed when an inline response is.
pub open spec fn refor_response_well_formed(x: ReferenceOr<Response>) -> bool {
    match x {
        ReferenceOr::Item(a) => a.well_formed(),
        ReferenceOr::Reference { .. } => true,
    }
}

/// The change of one response: only its content comparison.
#[derive(Debug)]
pub struct ResponseDiff {
    pub content: Option<ContentDiff>,
}

impl ResponseDiff {
    pub open spec fn is_diff_of(self, x: ReferenceOr<Response>, y: ReferenceOr<Response>) -> bool {
        match (x, y) {
            (ReferenceOr::Item(a), ReferenceOr::Item(b)) => {
                &&& (self.content is Some <==> content_differs(a.content@, b.content@))
                &&& match self.content {
                    Option::Some(c) => c.is_diff_of(a.content@, b.content@),
                    Option::None => true,
                }
            },
            _ => false,
        }
    }

    pub open spec fn spec_has_changes(self) -> bool {
        self.content is Some
    }

    pub fn has_changes(&self) -> (r: bool)
        ensures
            r == self.spec_has_changes(),
    {
        self.content.is_some()
    }

    /// Compares two response positions. Both must be inline responses; a
    /// referenced response cannot be compared by this version.
    pub fn from_responses(base: ReferenceOr<Response>, head: ReferenceOr<Response>) -> (r: Result<
        ResponseDiff,
        DiffError,
    >)
        requires
            refor_response_well_formed(base),
            refor_response_well_formed(head),
        ensures
            match r {
                Result::Ok(d) => response_pair_supported(base, head) && d.is_diff_of(base, head)
                    && d.spec_has_changes() == response_differs(base, head),
                Result::Err(e) => !response_pair_supported(base, head) && e is UnsupportedFeature,
            },
    {
        match (base, head) {
            (ReferenceOr::Item(a), ReferenceOr::Item(b)) => {
                match ContentDiff::from_content(a.content, b.content) {
                    Result::Ok(c) => {
                        let keep = c.has_changes();
                        Result::Ok(
                            ResponseDiff {
                                content: if keep {
                                    Option::Some(c)
                                } else {
                                    Option::None
                                },
                            },
                        )
                    },
                    Result::Err(e) => Result::Err(e),
                }
            },
            (ReferenceOr::Reference { reference }, _) => Result::Err(
                unsupported("cannot compare referenced response ", &reference),
            ),
            (_, ReferenceOr::Reference { reference }) => Result::Err(
                unsupported("cannot compare referenced response ", &reference),
            ),
        }
    }
}

} // verus!
