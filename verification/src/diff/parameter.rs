use vstd::prelude::*;

use crate::diff::common::BooleanDiff;
use crate::diff::common::StringDiff;
use crate::diff::schema::lemma_schema_diff_changes;
use crate::diff::schema::schema_differs;
use crate::diff::schema::SchemaDiff;
use crate::diff::unsupported;
use crate::diff::DiffError;
use crate::openapi::parameter::Parameter;
use crate::openapi::parameter::ParameterData;
use crate::openapi::parameter::ParameterSchemaOrContent;
use crate::openapi::reference::ReferenceOr;

verus! {

/// Two inline parameters can be compared: both must use the plain-schema
/// form with an inline schema; the content-based form cannot be compared
/// by this version.
pub open spec fn parameter_pair_supported(x: Parameter, y: Parameter) -> bool {
    match (x.data_of().format, y.data_of().format) {
        (
            ParameterSchemaOrContent::Schema(ReferenceOr::Item(_)),
            ParameterSchemaOrContent::Schema(ReferenceOr::Item(_)),
        ) => true,
        _ => false,
    }
}

/// Two inline parameters differ in their required flag, their location, or
/// their schema.
pub open spec fn parameter_differs(x: Parameter, y: Parameter) -> bool {
    ||| x.data_of().required != y.data_of().required
    ||| x.location_of() != y.location_of()
    ||| match (x.data_of().format, y.data_of().format) {
        (
            ParameterSchemaOrContent::Schema(ReferenceOr::Item(sx)),
            ParameterSchemaOrContent::Schema(ReferenceOr::Item(sy)),
        ) => schema_differs(sx, sy),
        _ => false,
    }
}

/// The change of one parameter kept under its identity.
#[derive(Debug)]
pub struct ParameterDiff {
    pub required: Option<BooleanDiff>,
    pub in_change: Option<StringDiff>,
    pub schema: Option<SchemaDiff>,
}

impl ParameterDiff {
    pub open spec fn is_diff_of(self, x: Parameter, y: Parameter) -> bool {
        &&& self.required == BooleanDiff::spec_from_bools(
            x.data_of().required,
            y.data_of().required,
        )
        &&& (self.in_change is Some <==> x.location_of() != y.location_of())
        &&& match self.in_change {
            Option::Some(d) => d.from@ == x.location_of() && d.to@ == y.location_of(),
            Option::None => true,
        }
        &&& match (x.data_of().format, y.data_of().format) {
            (
                ParameterSchemaOrContent::Schema(ReferenceOr::Item(sx)),
                ParameterSchemaOrContent::Schema(ReferenceOr::Item(sy)),
            ) => {
                &&& (self.schema is Some <==> schema_differs(sx, sy))
                &&& match self.schema {
                    Option::Some(sd) => sd.is_diff_of(sx, sy),
                    Option::None => true,
                }
            },
            _ => self.schema is None,
        }
    }

    pub open spec fn spec_has_changes(self) -> bool {
        self.required is Some || self.in_change is Some || self.schema is Some
    }

    pub fn has_changes(&self) -> (r: bool)
        ensures
            r == self.spec_has_changes(),
    {
        self.required.is_some() || self.in_change.is_some() || self.schema.is_some()
    }

    /// The shared data of a parameter.
    pub fn parameter_data(param: &Parameter) -> (r: &ParameterData)
        ensures
            *r == param.data_of(),
    {
        match param {
            Parameter::Query { parameter_data, .. } => parameter_data,
            Parameter::Header { parameter_data } => parameter_data,
            Parameter::Path { parameter_data } => parameter_data,
            Parameter::Cookie { parameter_data } => parameter_data,
        }
    }

    /// The location of a parameter, as its `in` string.
    pub fn parameter_type(param: &Parameter) -> (r: String)
        ensures
            r@ == param.location_of(),
    {
        let s = String::new();
        let r = match param {
            Parameter::Query { .. } => s.concat("query"),
            Parameter::Header { .. } => s.concat("header"),
            Parameter::Path { .. } => s.concat("path"),
            Parameter::Cookie { .. } => s.concat("cookie"),
        };
        proof {
            assert(Seq::<char>::empty() + param.location_of() =~= param.location_of());
        }
        r
    }

    /// Compares two inline parameters matched under one identity.
    pub fn from_params(base: Parameter, head: Parameter) -> (r: Result<ParameterDiff, DiffError>)
        requires
            base.well_formed(),
            head.well_formed(),
        ensures
            match r {
                Result::Ok(d) => parameter_pair_supported(base, head) && d.is_diff_of(base, head)
                    && d.spec_has_changes() == parameter_differs(base, head),
                Result::Err(e) => !parameter_pair_supported(base, head) && e is UnsupportedFeature,
            },
    {
        let required = BooleanDiff::from_bools(
            Self::parameter_data(&base).required,
            Self::parameter_data(&head).required,
        );
        let base_location = Self::parameter_type(&base);
        let head_location = Self::parameter_type(&head);
        let in_change = StringDiff::from_strings(base_location, head_location);

        let ghost gx = base;
        let ghost gy = head;
        let base_data = into_data(base);
        let head_data = into_data(head);
        let name = base_data.name;
        match (base_data.format, head_data.format) {
            (
                ParameterSchemaOrContent::Schema(bs),
                ParameterSchemaOrContent::Schema(hs),
            ) => match SchemaDiff::from_schemas(bs, hs) {
                Result::Ok(sd) => {
                    let keep = sd.has_changes();
                    proof {
                        lemma_schema_diff_changes(
                            sd,
                            gx.data_of().format->Schema_0.item_of(),
                            gy.data_of().format->Schema_0.item_of(),
                        );
                    }
                    Result::Ok(
                        ParameterDiff {
                            required,
                            in_change,
                            schema: if keep {
                                Option::Some(sd)
                            } else {
                                Option::None
                            },
                        },
                    )
                },
                Result::Err(e) => Result::Err(e),
            },
            (ParameterSchemaOrContent::Content(_), _) => Result::Err(
                unsupported("cannot compare content-based parameter ", &name),
            ),
            (_, ParameterSchemaOrContent::Content(_)) => Result::Err(
                unsupported("cannot compare content-based parameter ", &name),
            ),
        }
    }
}

/// Takes the shared data out of a parameter.
fn into_data(p: Parameter) -> (r: ParameterData)
    ensures
        r == p.data_of(),
{
    match p {
        Parameter::Query { parameter_data, .. } => parameter_data,
        Parameter::Header { parameter_data } => parameter_data,
        Parameter::Path { parameter_data } => parameter_data,
        Parameter::Cookie { parameter_data } => parameter_data,
    }
}

} // verus!
