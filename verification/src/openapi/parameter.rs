use vstd::prelude::*;

use crate::openapi::media_type::MediaType;
use crate::openapi::reference::ReferenceOr;
use crate::openapi::schema::Schema;

verus! {

/// Data shared by all parameter kinds.
#[derive(Debug)]
pub struct ParameterData {
    pub name: String,
    pub description: Option<String>,
    pub required: bool,
    pub format: ParameterSchemaOrContent,
}

/// A parameter is described either by a single schema or by a content
/// mapping keyed by media type. The content-based form is not comparable
/// by this version of the diff engine.
#[derive(Debug)]
pub enum ParameterSchemaOrContent {
    Schema(ReferenceOr<Schema>),
    Content(Vec<(String, MediaType)>),
}

/// One operation parameter, a closed variant over its four locations.
#[derive(Debug)]
pub enum Parameter {
    Query { parameter_data: ParameterData, allow_reserved: bool, allow_empty_value: Option<bool> },
    Header { parameter_data: ParameterData },
    Path { parameter_data: ParameterData },
    Cookie { parameter_data: ParameterData },
}

impl Parameter {
    /// The shared data of any parameter kind.
    pub open spec fn data_of(self) -> ParameterData {
        match self {
            Parameter::Query { parameter_data, .. } => parameter_data,
            Parameter::Header { parameter_data } => parameter_data,
            Parameter::Path { parameter_data } => parameter_data,
            Parameter::Cookie { parameter_data } => parameter_data,
        }
    }

    /// The location of the parameter, as its `in` string.
    pub open spec fn location_of(self) -> Seq<char> {
        match self {
            Parameter::Query { .. } => "query"@,
            Parameter::Header { .. } => "header"@,
            Parameter::Path { .. } => "path"@,
            Parameter::Cookie { .. } => "cookie"@,
        }
    }

    pub open spec fn well_formed(self) -> bool {
        match self.data_of().format {
            ParameterSchemaOrContent::Schema(ReferenceOr::Item(s)) => s.well_formed(),
            _ => true,
        }
    }
}

/// The identity under which parameters are matched between two documents:
/// the reference string for a `$ref` entry, else the pair of location and
/// name. The `$ref:` tag cannot collide with a location, so a reference
/// never matches an inline parameter.
pub open spec fn parameter_identity(p: ReferenceOr<Parameter>) -> Seq<char> {
    match p {
        ReferenceOr::Reference { reference } => "$ref:"@ + reference@,
        ReferenceOr::Item(param) => param.location_of() + ":"@ + param.data_of().name@,
    }
}

/// A parameter list is a mapping under `parameter_identity`.
pub open spec fn unique_parameter_identities(s: Seq<ReferenceOr<Parameter>>) -> bool {
    forall|i: int, j: int|
        0 <= i < j < s.len() ==> parameter_identity(s[i]) != parameter_identity(s[j])
}

pub open spec fn parameters_well_formed(s: Seq<ReferenceOr<Parameter>>) -> bool {
    &&& unique_parameter_identities(s)
    &&& forall|i: int|
        0 <= i < s.len() ==> match #[trigger] s[i] {
            ReferenceOr::Item(p) => p.well_formed(),
            ReferenceOr::Reference { .. } => true,
        }
}

} // verus!
