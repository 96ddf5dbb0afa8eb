use vstd::prelude::*;

use crate::keyed::unique_keys;
use crate::openapi::extensions::Extensions;
use crate::openapi::reference::ReferenceOr;

verus! {

/// One schema node: a recursive, owned tree describing a data shape.
/// Children (`properties`, `items`, the composition slots) are owned by
/// their parent, so the tree is acyclic by construction.
#[derive(Debug)]
pub struct Schema {
    pub schema_type: Option<String>,
    pub format: Option<String>,
    pub description: Option<String>,
    pub title: Option<String>,
    pub enum_values: Option<Vec<Option<String>>>,
    pub required: Option<Vec<String>>,
    pub properties: Option<Vec<(String, Schema)>>,
    pub items: Option<Box<Schema>>,
    pub nullable: Option<bool>,
    pub read_only: Option<bool>,
    pub additional_properties: Option<AdditionalProperties>,
    pub all_of: Option<Vec<ReferenceOr<Schema>>>,
    pub one_of: Option<Vec<ReferenceOr<Schema>>>,
    pub any_of: Option<Vec<ReferenceOr<Schema>>>,
    pub not: Option<Vec<ReferenceOr<Schema>>>,
    pub extensions: Extensions,
}

/// `additionalProperties` is either a boolean switch or a nested schema.
#[derive(Debug)]
pub enum AdditionalProperties {
    Any(bool),
    Schema(Box<ReferenceOr<Schema>>),
}

impl Schema {
    /// The mapping-shaped parts the diff engine walks have unique keys,
    /// recursively through the tree.
    pub open spec fn well_formed(self) -> bool
        decreases self,
    {
        &&& unique_keys(self.extensions@)
        &&& match self.properties {
            Option::Some(ps) => unique_keys(ps@) && (forall|i: int|
                0 <= i < ps@.len() ==> (#[trigger] ps@[i].1).well_formed()),
            Option::None => true,
        }
        &&& match self.items {
            Option::Some(b) => (*b).well_formed(),
            Option::None => true,
        }
    }

    pub open spec fn is_default(self) -> bool {
        &&& self.schema_type is None
        &&& self.format is None
        &&& self.description is None
        &&& self.title is None
        &&& self.enum_values is None
        &&& self.required is None
        &&& self.properties is None
        &&& self.items is None
        &&& self.nullable is None
        &&& self.read_only is None
        &&& self.additional_properties is None
        &&& self.all_of is None
        &&& self.one_of is None
        &&& self.any_of is None
        &&& self.not is None
        &&& self.extensions@ == Seq::<(String, String)>::empty()
    }
}

impl Default for Schema {
    fn default() -> (r: Self)
        ensures
            r.is_default(),
            r.well_formed(),
    {
        Schema {
            schema_type: Option::None,
            format: Option::None,
            description: Option::None,
            title: Option::None,
            enum_values: Option::None,
            required: Option::None,
            properties: Option::None,
            items: Option::None,
            nullable: Option::None,
            read_only: Option::None,
            additional_properties: Option::None,
            all_of: Option::None,
            one_of: Option::None,
            any_of: Option::None,
            not: Option::None,
            extensions: Vec::new(),
        }
    }
}

} // verus!
