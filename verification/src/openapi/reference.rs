use vstd::prelude::*;

verus! {

/// Either an inline value or a `$ref` string pointing at a value defined
/// elsewhere. This is the sole mechanism of indirection in the model; the
/// diff engine follows no reference that appears inside a schema.
#[derive(Debug)]
pub enum ReferenceOr<T> {
    Reference { reference: String },
    Item(T),
}

impl<T> ReferenceOr<T> {
    /// The wrapped inline value; meaningful only for `Item`.
    pub open spec fn item_of(self) -> T
        recommends
            self is Item,
    {
        match self {
            ReferenceOr::Item(t) => t,
            ReferenceOr::Reference { .. } => arbitrary(),
        }
    }

    /// The reference string; meaningful only for `Reference`.
    pub open spec fn ref_of(self) -> Seq<char>
        recommends
            self is Reference,
    {
        match self {
            ReferenceOr::Reference { reference } => reference@,
            ReferenceOr::Item(_) => arbitrary(),
        }
    }
}

} // verus!
