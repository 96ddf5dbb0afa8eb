use vstd::prelude::*;

use crate::diff::content::content_differs;
use crate::diff::content::content_supported;
use crate::diff::content::ContentDiff;
use crate::diff::unsupported;
use crate::diff::DiffError;
use crate::openapi::reference::ReferenceOr;
use crate::openapi::request_body::RequestBody;

verus! {

/// An optional request-body position is well-formed when an inline body is.
pub open spec fn opt_request_body_well_formed(x: Option<ReferenceOr<RequestBody>>) -> bool {
    match x {
        Option::Some(ReferenceOr::Item(rb)) => rb.well_formed(),
        _ => true,
    }
}

/// Two request-body positions can be compared: where both sides carry one,
/// both must be inline with comparable content.
pub open spec fn request_bodies_supported(
    x: Option<ReferenceOr<RequestBody>>,
    y: Option<ReferenceOr<RequestBody>>,
) -> bool {
    match (x, y) {
        (Option::Some(a), Option::Some(b)) => match (a, b) {
            (ReferenceOr::Item(ra), ReferenceOr::Item(rb)) => content_supported(
                ra.content@,
                rb.content@,
            ),
            _ => false,
        },
        _ => true,
    }
}

/// Two request-body positions differ: one side only carries a body, or
/// both carry inline bodies whose content differs.
pub open spec fn request_bodies_differ(
    x: Option<ReferenceOr<RequestBody>>,
    y: Option<ReferenceOr<RequestBody>>,
) -> bool {
    match (x, y) {
        (Option::None, Option::None) => false,
        (Option::Some(a), Option::Some(b)) => match (a, b) {
            (ReferenceOr::Item(ra), ReferenceOr::Item(rb)) => content_differs(
                ra.content@,
                rb.content@,
            ),
            _ => false,
        },
        _ => true,
    }
}

/// The change of an operation's request body: appeared, left, or kept with
/// changed content. Header and encoding data take no part.
#[derive(Debug)]
pub struct RequestBodyDiff {
    pub added: Option<ReferenceOr<RequestBody>>,
    pub removed: Option<ReferenceOr<RequestBody>>,
    pub content_changed: Option<ContentDiff>,
}

impl RequestBodyDiff {
    pub open spec fn is_diff_of(
        self,
        x: Option<ReferenceOr<RequestBody>>,
        y: Option<ReferenceOr<RequestBody>>,
    ) -> bool {
        match (x, y) {
            (Option::None, Option::None) => self.added is None && self.removed is None
                && self.content_changed is None,
            (Option::Some(v), Option::None) => self.added is None && self.removed == Option::Some(
                v,
            ) && self.content_changed is None,
            (Option::None, Option::Some(v)) => self.added == Option::Some(v) && self.removed
                is None && self.content_changed is None,
            (Option::Some(a), Option::Some(b)) => match (a, b) {
                (ReferenceOr::Item(ra), ReferenceOr::Item(rb)) => {
                    &&& self.added is None
                    &&& self.removed is None
                    &&& (self.content_changed is Some <==> content_differs(
                        ra.content@,
                        rb.content@,
                    ))
                    &&& match self.content_changed {
                        Option::Some(c) => c.is_diff_of(ra.content@, rb.content@),
                        Option::None => true,
                    }
                },
                _ => false,
            },
        }
    }

    pub open spec fn spec_has_changes(self) -> bool {
        self.added is Some || self.removed is Some || self.content_changed is Some
    }

    pub fn has_changes(&self) -> (r: bool)
        ensures
            r == self.spec_has_changes(),
    {
        self.added.is_some() || self.removed.is_some() || self.content_changed.is_some()
    }

    /// Compares two optional request bodies. Where both sides carry one,
    /// both must be inline; a referenced request body cannot be compared
    /// by this version.
    pub fn from_request_bodies(
        base: Option<ReferenceOr<RequestBody>>,
        head: Option<ReferenceOr<RequestBody>>,
    ) -> (r: Result<RequestBodyDiff, DiffError>)
        requires
            opt_request_body_well_formed(base),
            opt_request_body_well_formed(head),
        ensures
            match r {
                Result::Ok(d) => request_bodies_supported(base, head) && d.is_diff_of(base, head)
                    && d.spec_has_changes() == request_bodies_differ(base, head),
                Result::Err(e) => !request_bodies_supported(base, head) && e is UnsupportedFeature,
            },
    {
        match (base, head) {
            (Option::None, Option::None) => Result::Ok(
                RequestBodyDiff {
                    added: Option::None,
                    removed: Option::None,
                    content_changed: Option::None,
                },
            ),
            (Option::Some(v), Option::None) => Result::Ok(
                RequestBodyDiff {
                    added: Option::None,
                    removed: Option::Some(v),
                    content_changed: Option::None,
                },
            ),
            (Option::None, Option::Some(v)) => Result::Ok(
                RequestBodyDiff {
                    added: Option::Some(v),
                    removed: Option::None,
                    content_changed: Option::None,
                },
            ),
            (Option::Some(a), Option::Some(b)) => match (a, b) {
                (ReferenceOr::Item(ra), ReferenceOr::Item(rb)) => {
                    match ContentDiff::from_content(ra.content, rb.content) {
                        Result::Ok(c) => {
                            let keep = c.has_changes();
                            Result::Ok(
                                RequestBodyDiff {
                                    added: Option::None,
                                    removed: Option::None,
                                    content_changed: if keep {
                                        Option::Some(c)
                                    } else {
                                        Option::None
                                    },
                                },
                            )
                        },
                        Result::Err(e) => Result::Err(e),
                    }
                },
                (ReferenceOr::Reference { reference }, _) => Result::Err(
                    unsupported("cannot compare referenced request body ", &reference),
                ),
                (_, ReferenceOr::Reference { reference }) => Result::Err(
                    unsupported("cannot compare referenced request body ", &reference),
                ),
            },
        }
    }
}

} // verus!
