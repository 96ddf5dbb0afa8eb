use vstd::prelude::*;

use crate::diff::common::opt_str_eq;
use crate::diff::common::str_lists_equal;
use crate::diff::common::OptionalStringDiff;
use crate::diff::common::StringListDiff;
use crate::diff::parameters::params_differ;
use crate::diff::parameters::params_supported;
use crate::diff::parameters::ParametersDiff;
use crate::diff::request_body::request_bodies_differ;
use crate::diff::request_body::request_bodies_supported;
use crate::diff::request_body::RequestBodyDiff;
use crate::diff::responses::responses_differ;
use crate::diff::responses::responses_supported;
use crate::diff::responses::ResponsesDiff;
use crate::diff::DiffError;
use crate::openapi::operation::Operation;

verus! {

/// Two operations can be compared: their matched parameters, request
/// bodies and matched responses can be.
pub open spec fn operation_pair_supported(a: Operation, b: Operation) -> bool {
    &&& params_supported(a.parameters@, b.parameters@)
    &&& request_bodies_supported(a.request_body, b.request_body)
    &&& responses_supported(a.responses.responses@, b.responses.responses@)
}

/// Two operations differ in their tag set, a scalar field, a parameter,
/// the request body, or a response.
pub open spec fn operation_differs(a: Operation, b: Operation) -> bool {
    ||| !str_lists_equal(a.tags@, b.tags@)
    ||| !opt_str_eq(a.summary, b.summary)
    ||| !opt_str_eq(a.description, b.description)
    ||| !opt_str_eq(a.operation_id, b.operation_id)
    ||| params_differ(a.parameters@, b.parameters@)
    ||| request_bodies_differ(a.request_body, b.request_body)
    ||| responses_differ(a.responses.responses@, b.responses.responses@)
}

/// The change of one operation kept under its method.
#[derive(Debug)]
pub struct OperationDiff {
    pub tags: StringListDiff,
    pub summary: Option<OptionalStringDiff>,
    pub description: Option<OptionalStringDiff>,
    pub operation_id: Option<OptionalStringDiff>,
    pub parameters: ParametersDiff,
    pub request_body: Option<RequestBodyDiff>,
    pub responses: ResponsesDiff,
}

impl OperationDiff {
    pub open spec fn is_diff_of(self, a: Operation, b: Operation) -> bool {
        &&& self.tags.is_diff_of(a.tags@, b.tags@)
        &&& self.summary == OptionalStringDiff::spec_from_strings(a.summary, b.summary)
        &&& self.description == OptionalStringDiff::spec_from_strings(a.description, b.description)
        &&& self.operation_id == OptionalStringDiff::spec_from_strings(
            a.operation_id,
            b.operation_id,
        )
        &&& self.parameters.is_diff_of(a.parameters@, b.parameters@)
        &&& (self.request_body is Some <==> request_bodies_differ(a.request_body, b.request_body))
        &&& match self.request_body {
            Option::Some(d) => d.is_diff_of(a.request_body, b.request_body),
            Option::None => true,
        }
        &&& self.responses.is_diff_of(a.responses.responses@, b.responses.responses@)
    }

    pub open spec fn spec_has_changes(self) -> bool {
        ||| self.tags.spec_has_changes()
        ||| self.summary is Some
        ||| self.description is Some
        ||| self.operation_id is Some
        ||| self.parameters.spec_has_changes()
        ||| self.request_body is Some
        ||| self.responses.spec_has_changes()
    }

    pub fn has_changes(&self) -> (r: bool)
        ensures
            r == self.spec_has_changes(),
    {
        self.tags.has_changes() || self.summary.is_some() || self.description.is_some()
            || self.operation_id.is_some() || self.parameters.has_changes()
            || self.request_body.is_some() || self.responses.has_changes()
    }

    /// Compares two operations matched under one method.
    pub fn from_operations(base: Operation, head: Operation) -> (r: Result<
        OperationDiff,
        DiffError,
    >)
        requires
            base.well_formed(),
            head.well_formed(),
        ensures
            match r {
                Result::Ok(d) => operation_pair_supported(base, head) && d.is_diff_of(base, head)
                    && d.spec_has_changes() == operation_differs(base, head),
                Result::Err(e) => !operation_pair_supported(base, head) && e is UnsupportedFeature,
            },
    {
        let tags = StringListDiff::from_lists(&base.tags, &head.tags);
        let summary = OptionalStringDiff::from_strings(&base.summary, &head.summary);
        let description = OptionalStringDiff::from_strings(&base.description, &head.description);
        let operation_id = OptionalStringDiff::from_strings(
            &base.operation_id,
            &head.operation_id,
        );

        let Operation { parameters: ap, request_body: arb, responses: ars, .. } = base;
        let Operation { parameters: bp, request_body: brb, responses: brs, .. } = head;

        let parameters = match ParametersDiff::from_params(ap, bp) {
            Result::Ok(d) => d,
            Result::Err(e) => {
                return Result::Err(e);
            },
        };
        let request_body_diff = match RequestBodyDiff::from_request_bodies(arb, brb) {
            Result::Ok(d) => d,
            Result::Err(e) => {
                return Result::Err(e);
            },
        };
        let rb_changed = request_body_diff.has_changes();
        let request_body = if rb_changed {
            Option::Some(request_body_diff)
        } else {
            Option::None
        };
        let responses = match ResponsesDiff::from_responses(ars, brs) {
            Result::Ok(d) => d,
            Result::Err(e) => {
                return Result::Err(e);
            },
        };

        Result::Ok(
            OperationDiff {
                tags,
                summary,
                description,
                operation_id,
                parameters,
                request_body,
                responses,
            },
        )
    }
}

} // verus!
