use vstd::prelude::*;

use crate::diff::schema::lemma_schema_diff_changes;
use crate::diff::schema::schema_differs;
use crate::diff::schema::SchemaDiff;
use crate::diff::DiffError;
use crate::openapi::media_type::MediaType;
use crate::openapi::reference::ReferenceOr;
use crate::openapi::schema::Schema;

verus! {

/// Two media types differ when both carry inline schemas and those differ.
/// A schema appearing or leaving outright is recorded by the diff but does
/// not by itself mark the media type as changed.
pub open spec fn media_type_differs(a: MediaType, b: MediaType) -> bool {
    match (a.schema, b.schema) {
        (
            Option::Some(ReferenceOr::Item(x)),
            Option::Some(ReferenceOr::Item(y)),
        ) => schema_differs(x, y),
        _ => false,
    }
}

/// The media-type difference predicate as one shared function value.
pub open spec fn media_type_differs_fn() -> spec_fn(MediaType, MediaType) -> bool {
    |a: MediaType, b: MediaType| media_type_differs(a, b)
}

/// Two media types can be compared: where both sides carry a schema, both
/// schemas must be inline.
pub open spec fn media_type_pair_supported(a: MediaType, b: MediaType) -> bool {
    match (a.schema, b.schema) {
        (Option::Some(x), Option::Some(y)) => x is Item && y is Item,
        _ => true,
    }
}

/// The change of one media type: its schema changed, appeared or left.
#[derive(Debug)]
pub struct MediaTypeDiff {
    pub schema_changed: Option<SchemaDiff>,
    pub schema_added: Option<ReferenceOr<Schema>>,
    pub schema_removed: Option<ReferenceOr<Schema>>,
}

impl MediaTypeDiff {
    pub open spec fn is_diff_of(self, a: MediaType, b: MediaType) -> bool {
        &&& (self.schema_changed is Some <==> media_type_differs(a, b))
        &&& match self.schema_changed {
            Option::Some(d) => match (a.schema, b.schema) {
                (
                    Option::Some(ReferenceOr::Item(x)),
                    Option::Some(ReferenceOr::Item(y)),
                ) => d.is_diff_of(x, y),
                _ => false,
            },
            Option::None => true,
        }
        &&& match (a.schema, b.schema) {
            (Option::None, Option::Some(y)) => self.schema_added == Option::Some(y),
            _ => self.schema_added is None,
        }
        &&& match (a.schema, b.schema) {
            (Option::Some(x), Option::None) => self.schema_removed == Option::Some(x),
            _ => self.schema_removed is None,
        }
    }

    /// A media type counts as changed only when its schema changed on both
    /// sides; wholesale appearance or removal of a schema is carried along
    /// without marking the entry as changed.
    pub open spec fn spec_has_changes(self) -> bool {
        self.schema_changed is Some
    }

    pub fn has_changes(&self) -> (r: bool)
        ensures
            r == self.spec_has_changes(),
    {
        self.schema_changed.is_some()
    }

    pub fn from_media_types(base: MediaType, head: MediaType) -> (r: Result<
        MediaTypeDiff,
        DiffError,
    >)
        requires
            base.well_formed(),
            head.well_formed(),
        ensures
            match r {
                Result::Ok(d) => media_type_pair_supported(base, head) && d.is_diff_of(base, head)
                    && d.spec_has_changes() == media_type_differs(base, head),
                Result::Err(e) => !media_type_pair_supported(base, head)
                    && e is UnsupportedFeature,
            },
    {
        let ghost ga = base;
        let ghost gb = head;
        match (base.schema, head.schema) {
            (Option::Some(x), Option::Some(y)) => match SchemaDiff::from_schemas(x, y) {
                Result::Ok(sd) => {
                    let keep = sd.has_changes();
                    proof {
                        lemma_schema_diff_changes(sd, ga.schema.unwrap().item_of(), gb.schema.unwrap().item_of());
                    }
                    Result::Ok(
                        MediaTypeDiff {
                            schema_changed: if keep {
                                Option::Some(sd)
                            } else {
                                Option::None
                            },
                            schema_added: Option::None,
                            schema_removed: Option::None,
                        },
                    )
                },
                Result::Err(e) => Result::Err(e),
            },
            (Option::Some(x), Option::None) => Result::Ok(
                MediaTypeDiff {
                    schema_changed: Option::None,
                    schema_added: Option::None,
                    schema_removed: Option::Some(x),
                },
            ),
            (Option::None, Option::Some(y)) => Result::Ok(
                MediaTypeDiff {
                    schema_changed: Option::None,
                    schema_added: Option::Some(y),
                    schema_removed: Option::None,
                },
            ),
            (Option::None, Option::None) => Result::Ok(
                MediaTypeDiff {
                    schema_changed: Option::None,
                    schema_added: Option::None,
                    schema_removed: Option::None,
                },
            ),
        }
    }
}

} // verus!
