use vstd::prelude::*;

use crate::diff::common::opt_str_eq;
use crate::diff::common::opt_str_missing;
use crate::diff::common::opt_str_missing_from;
use crate::diff::common::str_lists_equal;
use crate::diff::common::BooleanDiff;
use crate::diff::common::OptionalStringDiff;
use crate::diff::common::StringListDiff;
use crate::diff::unsupported;
use crate::diff::DiffError;
use crate::keyed::absent_entries;
use crate::keyed::changed_triples;
use crate::keyed::has_skey;
use crate::keyed::lemma_absent_members;
use crate::keyed::lemma_changed_push;
use crate::keyed::lemma_matched_members;
use crate::keyed::lemma_skey_index;
use crate::keyed::lemma_split_empty;
use crate::keyed::map_split;
use crate::keyed::matched_entries;
use crate::keyed::skey_index;
use crate::keyed::slookup;
use crate::keyed::unique_keys;
use crate::openapi::reference::ReferenceOr;
use crate::openapi::schema::Schema;

verus! {

broadcast use vstd::seq::axiom_seq_index_decreases;

/// The property mapping of a schema, empty when absent.
pub open spec fn props_of(s: Schema) -> Seq<(String, Schema)> {
    match s.properties {
        Option::Some(v) => v@,
        Option::None => Seq::empty(),
    }
}

/// The required-property list of a schema, empty when absent.
pub open spec fn req_of(s: Schema) -> Seq<String> {
    match s.required {
        Option::Some(v) => v@,
        Option::None => Seq::empty(),
    }
}

/// The nullable flag of a schema, false when absent.
pub open spec fn opt_bool_or_false(x: Option<bool>) -> bool {
    match x {
        Option::Some(b) => b,
        Option::None => false,
    }
}

/// Two enum declarations differ: exactly one side declares one, or both do
/// and the value sets are not equal.
pub open spec fn enums_differ(
    ea: Option<Vec<Option<String>>>,
    eb: Option<Vec<Option<String>>>,
) -> bool {
    match (ea, eb) {
        (Option::None, Option::None) => false,
        (Option::Some(x), Option::Some(y)) => opt_str_missing(y@, x@).len() > 0 || opt_str_missing(
            x@,
            y@,
        ).len() > 0,
        _ => true,
    }
}

/// The property mappings of two schemas differ: a property is new, gone,
/// or kept under its name with a differing schema.
pub open spec fn props_differ(a: Schema, b: Schema) -> bool
    decreases a, 0int,
{
    ||| (exists|j: int|
        0 <= j < props_of(a).len() && !has_skey(props_of(b), (#[trigger] props_of(a)[j]).0@))
    ||| (exists|j: int|
        0 <= j < props_of(b).len() && !has_skey(props_of(a), (#[trigger] props_of(b)[j]).0@))
    ||| (exists|j: int|
        0 <= j < props_of(a).len() && has_skey(props_of(b), (#[trigger] props_of(a)[j]).0@)
            && schema_differs(props_of(a)[j].1, slookup(props_of(b), props_of(a)[j].0@)))
}

/// The item schemas of two schemas differ; asymmetric presence of `items`
/// is not a difference of its own (it shows up in the type field instead).
pub open spec fn items_differ(a: Schema, b: Schema) -> bool
    decreases a, 0int,
{
    match (a.items, b.items) {
        (Option::Some(x), Option::Some(y)) => schema_differs(*x, *y),
        _ => false,
    }
}

/// Two schema nodes differ in something this engine compares: a scalar
/// field, the nullable flag, the required set, the enum values, a
/// property (recursively), or the item schema (recursively).
pub open spec fn schema_differs(a: Schema, b: Schema) -> bool
    decreases a, 1int,
{
    ||| !opt_str_eq(a.schema_type, b.schema_type)
    ||| !opt_str_eq(a.description, b.description)
    ||| !opt_str_eq(a.format, b.format)
    ||| opt_bool_or_false(a.nullable) != opt_bool_or_false(b.nullable)
    ||| !str_lists_equal(req_of(a), req_of(b))
    ||| enums_differ(a.enum_values, b.enum_values)
    ||| props_differ(a, b)
    ||| items_differ(a, b)
}

/// The schema difference predicate as one shared function value.
pub open spec fn schema_differs_fn() -> spec_fn(Schema, Schema) -> bool {
    |a: Schema, b: Schema| schema_differs(a, b)
}

/// `props_differ`, stated over two property mappings directly.
pub open spec fn props_entries_differ(pa: Seq<(String, Schema)>, pb: Seq<(String, Schema)>) -> bool {
    ||| (exists|j: int| 0 <= j < pa.len() && !has_skey(pb, (#[trigger] pa[j]).0@))
    ||| (exists|j: int| 0 <= j < pb.len() && !has_skey(pa, (#[trigger] pb[j]).0@))
    ||| (exists|j: int|
        0 <= j < pa.len() && has_skey(pb, (#[trigger] pa[j]).0@) && schema_differs(
            pa[j].1,
            slookup(pb, pa[j].0@),
        ))
}

/// The change of an enum declaration: added or removed wholesale, or the
/// sets of values that appeared and left.
#[derive(Debug)]
pub struct EnumDiff {
    pub added: bool,
    pub removed: bool,
    pub values_added: Vec<Option<String>>,
    pub values_removed: Vec<Option<String>>,
}

impl EnumDiff {
    pub open spec fn is_diff_of(
        self,
        ea: Option<Vec<Option<String>>>,
        eb: Option<Vec<Option<String>>>,
    ) -> bool {
        match (ea, eb) {
            (Option::None, Option::None) => !self.added && !self.removed && self.values_added@
                == Seq::<Option<String>>::empty() && self.values_removed@ == Seq::<
                Option<String>,
            >::empty(),
            (Option::Some(x), Option::Some(y)) => !self.added && !self.removed
                && self.values_added@ == opt_str_missing(y@, x@) && self.values_removed@
                == opt_str_missing(x@, y@),
            (Option::Some(_), Option::None) => !self.added && self.removed && self.values_added@
                == Seq::<Option<String>>::empty() && self.values_removed@ == Seq::<
                Option<String>,
            >::empty(),
            (Option::None, Option::Some(_)) => self.added && !self.removed && self.values_added@
                == Seq::<Option<String>>::empty() && self.values_removed@ == Seq::<
                Option<String>,
            >::empty(),
        }
    }

    pub open spec fn spec_has_changes(self) -> bool {
        self.added || self.removed || self.values_added@.len() > 0 || self.values_removed@.len()
            > 0
    }

    pub fn has_changes(&self) -> (r: bool)
        ensures
            r == self.spec_has_changes(),
    {
        self.added || self.removed || self.values_added.len() > 0 || self.values_removed.len() > 0
    }

    /// Compares the enum declarations of two schemas.
    pub fn from_schemas(base: &Schema, head: &Schema) -> (r: Self)
        ensures
            r.is_diff_of(base.enum_values, head.enum_values),
            r.spec_has_changes() == enums_differ(base.enum_values, head.enum_values),
    {
        match (&base.enum_values, &head.enum_values) {
            (Option::Some(x), Option::Some(y)) => EnumDiff {
                added: false,
                removed: false,
                values_added: opt_str_missing_from(y, x),
                values_removed: opt_str_missing_from(x, y),
            },
            (Option::Some(_), Option::None) => EnumDiff {
                added: false,
                removed: true,
                values_added: Vec::new(),
                values_removed: Vec::new(),
            },
            (Option::None, Option::Some(_)) => EnumDiff {
                added: true,
                removed: false,
                values_added: Vec::new(),
                values_removed: Vec::new(),
            },
            (Option::None, Option::None) => EnumDiff {
                added: false,
                removed: false,
                values_added: Vec::new(),
                values_removed: Vec::new(),
            },
        }
    }
}

/// The change of a property mapping: properties that appeared, properties
/// that left, and properties kept under their name whose schema changed.
#[derive(Debug)]
pub struct PropertiesDiff {
    pub added: Vec<(String, Schema)>,
    pub removed: Vec<(String, Schema)>,
    pub changed: Vec<(String, SchemaDiff)>,
}

impl PropertiesDiff {
    pub open spec fn spec_has_changes(self) -> bool {
        self.added@.len() > 0 || self.removed@.len() > 0 || self.changed@.len() > 0
    }

    pub fn has_changes(&self) -> (r: bool)
        ensures
            r == self.spec_has_changes(),
    {
        self.added.len() > 0 || self.removed.len() > 0 || self.changed.len() > 0
    }

    /// Compares two property mappings, comparing kept properties
    /// recursively.
    #[verifier::rlimit(50)]
    #[verifier::loop_isolation(false)]
    pub fn from_props(base: Vec<(String, Schema)>, head: Vec<(String, Schema)>) -> (r:
        PropertiesDiff)
        requires
            unique_keys(base@),
            unique_keys(head@),
            forall|i: int| 0 <= i < base@.len() ==> (#[trigger] base@[i].1).well_formed(),
            forall|i: int| 0 <= i < head@.len() ==> (#[trigger] head@[i].1).well_formed(),
        ensures
            r.added@ == absent_entries(head@, base@),
            r.removed@ == absent_entries(base@, head@),
            r.changed@.len() == changed_triples(
                matched_entries(base@, head@),
                schema_differs_fn(),
            ).len(),
            forall|i: int|
                0 <= i < r.changed@.len() ==> (#[trigger] r.changed@[i]).0 == changed_triples(
                    matched_entries(base@, head@),
                    schema_differs_fn(),
                )[i].0,
            forall|i: int|
                #![trigger r.changed@[i]]
                0 <= i < r.changed@.len() ==> has_skey(base@, r.changed@[i].0@) && has_skey(
                    head@,
                    r.changed@[i].0@,
                ) && r.changed@[i].1.is_diff_of(
                    slookup(base@, r.changed@[i].0@),
                    slookup(head@, r.changed@[i].0@),
                ),
            r.spec_has_changes() == props_entries_differ(base@, head@),
        decreases base, 0int,
    {
        let ghost bvec = base;
        let ghost base0 = base@;
        let ghost head0 = head@;
        let split = map_split(base, head);
        let mut m = split.common;
        let ghost ms = m@;
        let mut changed: Vec<(String, SchemaDiff)> = Vec::new();
        let ghost mut i: int = 0;
        while m.len() > 0
            invariant
                0 <= i <= ms.len(),
                m@ == ms.skip(i),
                bvec@ == base0,
                ms == matched_entries(base0, head0),
                unique_keys(base0),
                unique_keys(head0),
                forall|k: int| 0 <= k < base0.len() ==> (#[trigger] base0[k].1).well_formed(),
                forall|k: int| 0 <= k < head0.len() ==> (#[trigger] head0[k].1).well_formed(),
                changed@.len() == changed_triples(ms.take(i), schema_differs_fn()).len(),
                forall|k: int|
                    0 <= k < changed@.len() ==> (#[trigger] changed@[k]).0 == changed_triples(
                        ms.take(i),
                        schema_differs_fn(),
                    )[k].0,
                forall|k: int|
                    #![trigger changed@[k]]
                    0 <= k < changed@.len() ==> has_skey(base0, changed@[k].0@) && has_skey(
                        head0,
                        changed@[k].0@,
                    ) && changed@[k].1.is_diff_of(
                        slookup(base0, changed@[k].0@),
                        slookup(head0, changed@[k].0@),
                    ),
            decreases m@.len(),
        {
            proof {
                assert(ms.skip(i)[0] == ms[i]);
                assert(ms.skip(i).remove(0) =~= ms.skip(i + 1));
            }
            let t = m.remove(0);
            let ghost tk = t.0@;
            proof {
                // The matched base value is a property of `base`, the head
                // value the property of `head` under the same name; both are
                // well-formed, and the base value sits below `base`.
                lemma_matched_members(base0, head0);
                assert(t == ms[i]);
                assert(exists|j: int|
                    0 <= j < base0.len() && ms[i].0 == base0[j].0 && ms[i].1 == base0[j].1);
                let j1 = choose|j: int|
                    0 <= j < base0.len() && ms[i].0 == base0[j].0 && ms[i].1 == base0[j].1;
                assert(0 <= j1 < base0.len() && ms[i].0 == base0[j1].0 && ms[i].1 == base0[j1].1);
                assert(bvec@ == base0);
                assert(has_skey(head0, tk));
                let j2 = skey_index(head0, tk);
                assert(0 <= j2 < head0.len() && head0[j2].0@ == tk);
                lemma_skey_index(head0, tk, j2);
                assert(ms[i].2 == slookup(head0, tk));
                assert(ms[i].2 == head0[j2].1);
                assert(decreases_to!(bvec => bvec@));
                assert(decreases_to!(bvec@ => bvec@[j1]));
                assert(decreases_to!(bvec@[j1] => bvec@[j1].1));
                assert(t.1 == bvec@[j1].1);
                assert(decreases_to!(bvec => t.1));
            }
            let key = t.0;
            let d = SchemaDiff::from_items(t.1, t.2);
            let keep = d.has_changes();
            proof {
                assert(ms.take(i + 1) =~= ms.take(i).push(ms[i]));
                lemma_changed_push(ms.take(i), ms[i], schema_differs_fn());
                lemma_schema_diff_changes(d, ms[i].1, ms[i].2);
            }
            if keep {
                let ghost c0 = changed@;
                changed.push((key, d));
                proof {
                    lemma_matched_members(base0, head0);
                    assert(ms[i] == matched_entries(base0, head0)[i]);
                    assert(exists|j: int|
                        0 <= j < base0.len() && ms[i].0 == base0[j].0 && ms[i].1 == base0[j].1);
                    let jb = choose|j: int|
                        0 <= j < base0.len() && ms[i].0 == base0[j].0 && ms[i].1 == base0[j].1;
                    lemma_skey_index(base0, tk, jb);
                    assert(ms[i].1 == slookup(base0, tk));
                    assert(has_skey(head0, tk));
                    assert(ms[i].2 == slookup(head0, tk));
                    assert forall|k: int|
                        #![trigger changed@[k]]
                        0 <= k < changed@.len() implies has_skey(base0, changed@[k].0@)
                        && has_skey(head0, changed@[k].0@) && changed@[k].1.is_diff_of(
                        slookup(base0, changed@[k].0@),
                        slookup(head0, changed@[k].0@),
                    ) by {
                        if k < c0.len() {
                            assert(changed@[k] == c0[k]);
                        } else {
                            assert(changed@[k] == (ms[i].0, d));
                            assert(changed@[k].0@ == tk);
                        }
                    }
                }
            }
            proof {
                i = i + 1;
            }
        }
        proof {
            assert(i == ms.len());
            assert(ms.take(i) =~= ms);
        }
        let r = PropertiesDiff { added: split.added, removed: split.removed, changed };
        proof {
            lemma_absent_members(base0, head0);
            lemma_absent_members(head0, base0);
            crate::keyed::lemma_changed_exists(base0, head0, schema_differs_fn());
            if r.changed@.len() > 0 {
                let j = choose|j: int|
                    0 <= j < base0.len() && has_skey(head0, (#[trigger] base0[j]).0@)
                        && schema_differs_fn()(base0[j].1, slookup(head0, base0[j].0@));
                assert(has_skey(head0, (base0[j]).0@) && schema_differs(
                    base0[j].1,
                    slookup(head0, base0[j].0@),
                ));
            }
            if props_entries_differ(base0, head0) && r.added@.len() == 0 && r.removed@.len() == 0 {
                let j = choose|j: int|
                    0 <= j < base0.len() && has_skey(head0, (#[trigger] base0[j]).0@)
                        && schema_differs(base0[j].1, slookup(head0, base0[j].0@));
                assert(schema_differs_fn()(base0[j].1, slookup(head0, base0[j].0@)));
                assert(r.changed@.len() > 0);
            }
        }
        r
    }
}

/// The change-tree of one schema node: one optional slot per compared
/// aspect, present only if that aspect changed.
#[derive(Debug)]
pub struct SchemaDiff {
    pub type_changed: Option<OptionalStringDiff>,
    pub description_changed: Option<OptionalStringDiff>,
    pub format_changed: Option<OptionalStringDiff>,
    pub required_changed: Option<StringListDiff>,
    pub properties_changed: Option<PropertiesDiff>,
    pub enum_changed: Option<EnumDiff>,
    pub items_changed: Option<Box<SchemaDiff>>,
    pub nullable_changed: Option<BooleanDiff>,
}

impl SchemaDiff {
    /// The diff describes exactly the differences between `a` and `b`:
    /// every slot is present exactly when that aspect differs, and then
    /// carries the exact comparison.
    pub open spec fn is_diff_of(self, a: Schema, b: Schema) -> bool
        decreases a, 2int,
    {
        &&& self.type_changed == OptionalStringDiff::spec_from_strings(a.schema_type, b.schema_type)
        &&& self.description_changed == OptionalStringDiff::spec_from_strings(
            a.description,
            b.description,
        )
        &&& self.format_changed == OptionalStringDiff::spec_from_strings(a.format, b.format)
        &&& self.nullable_changed == BooleanDiff::spec_from_bools(
            opt_bool_or_false(a.nullable),
            opt_bool_or_false(b.nullable),
        )
        &&& (self.required_changed is Some <==> !str_lists_equal(req_of(a), req_of(b)))
        &&& match self.required_changed {
            Option::Some(d) => d.is_diff_of(req_of(a), req_of(b)),
            Option::None => true,
        }
        &&& (self.enum_changed is Some <==> enums_differ(a.enum_values, b.enum_values))
        &&& match self.enum_changed {
            Option::Some(d) => d.is_diff_of(a.enum_values, b.enum_values),
            Option::None => true,
        }
        &&& (self.properties_changed is Some <==> props_differ(a, b))
        &&& match self.properties_changed {
            Option::Some(p) => {
                let pa = props_of(a);
                let pb = props_of(b);
                let ct = changed_triples(matched_entries(pa, pb), schema_differs_fn());
                &&& p.added@ == absent_entries(pb, pa)
                &&& p.removed@ == absent_entries(pa, pb)
                &&& p.changed@.len() == ct.len()
                &&& (forall|i: int| 0 <= i < ct.len() ==> (#[trigger] p.changed@[i]).0 == ct[i].0)
                &&& (forall|i: int|
                    #![trigger p.changed@[i]]
                    0 <= i < p.changed@.len() ==> has_skey(pa, p.changed@[i].0@) && has_skey(
                        pb,
                        p.changed@[i].0@,
                    ) && p.changed@[i].1.is_diff_of(
                        slookup(pa, p.changed@[i].0@),
                        slookup(pb, p.changed@[i].0@),
                    ))
            },
            Option::None => true,
        }
        &&& (self.items_changed is Some <==> items_differ(a, b))
        &&& match self.items_changed {
            Option::Some(bx) => match (a.items, b.items) {
                (Option::Some(x), Option::Some(y)) => (*bx).is_diff_of(*x, *y),
                _ => false,
            },
            Option::None => true,
        }
    }

    pub open spec fn spec_has_changes(self) -> bool {
        self.type_changed is Some || self.properties_changed is Some || self.description_changed
            is Some || self.format_changed is Some || self.required_changed is Some
            || self.enum_changed is Some || self.items_changed is Some || self.nullable_changed
            is Some
    }

    pub fn has_changes(&self) -> (r: bool)
        ensures
            r == self.spec_has_changes(),
    {
        self.type_changed.is_some() || self.properties_changed.is_some()
            || self.description_changed.is_some() || self.format_changed.is_some()
            || self.required_changed.is_some() || self.enum_changed.is_some()
            || self.items_changed.is_some() || self.nullable_changed.is_some()
    }

    /// Compares two schema positions. Both sides must be inline schemas:
    /// a reference in schema position cannot be compared by this version
    /// and is reported as a recoverable error.
    pub fn from_schemas(base: ReferenceOr<Schema>, head: ReferenceOr<Schema>) -> (r: Result<
        SchemaDiff,
        DiffError,
    >)
        requires
            (base is Item ==> base.item_of().well_formed()),
            (head is Item ==> head.item_of().well_formed()),
        ensures
            match r {
                Result::Ok(d) => base is Item && head is Item && d.is_diff_of(
                    base.item_of(),
                    head.item_of(),
                ),
                Result::Err(e) => !(base is Item && head is Item) && e is UnsupportedFeature,
            },
    {
        match (base, head) {
            (ReferenceOr::Item(a), ReferenceOr::Item(b)) => Result::Ok(Self::from_items(a, b)),
            (ReferenceOr::Reference { reference }, _) => Result::Err(
                unsupported("cannot compare referenced schema ", &reference),
            ),
            (_, ReferenceOr::Reference { reference }) => Result::Err(
                unsupported("cannot compare referenced schema ", &reference),
            ),
        }
    }

    /// Compares two inline schema nodes, recursively.
    #[verifier::rlimit(100)]
    pub fn from_items(a: Schema, b: Schema) -> (r: SchemaDiff)
        requires
            a.well_formed(),
            b.well_formed(),
        ensures
            r.is_diff_of(a, b),
        decreases a, 1int,
    {
        let enum_diff = EnumDiff::from_schemas(&a, &b);
        let enum_changed = if enum_diff.has_changes() {
            Option::Some(enum_diff)
        } else {
            Option::None
        };

        let empty_req: Vec<String> = Vec::new();
        let ra = match &a.required {
            Option::Some(v) => v,
            Option::None => &empty_req,
        };
        let rb = match &b.required {
            Option::Some(v) => v,
            Option::None => &empty_req,
        };
        let req_diff = StringListDiff::from_lists(ra, rb);
        let required_changed = if req_diff.has_changes() {
            Option::Some(req_diff)
        } else {
            Option::None
        };

        let type_changed = OptionalStringDiff::from_strings(&a.schema_type, &b.schema_type);
        let description_changed = OptionalStringDiff::from_strings(&a.description, &b.description);
        let format_changed = OptionalStringDiff::from_strings(&a.format, &b.format);
        let na = match &a.nullable {
            Option::Some(x) => *x,
            Option::None => false,
        };
        let nb = match &b.nullable {
            Option::Some(x) => *x,
            Option::None => false,
        };
        let nullable_changed = BooleanDiff::from_bools(na, nb);

        let ghost ga = a;
        let ghost gb = b;
        let Schema { properties: pa_opt, items: ia_opt, .. } = a;
        let Schema { properties: pb_opt, items: ib_opt, .. } = b;

        let properties_changed = match (pa_opt, pb_opt) {
            (Option::Some(va), Option::Some(vb)) => {
                proof {
                    assert(decreases_to!(ga => va));
                }
                let ghost pa = va@;
                let ghost pb = vb@;
                let p = PropertiesDiff::from_props(va, vb);
                let keep = p.has_changes();
                proof {
                    assert(pa == props_of(ga));
                    assert(pb == props_of(gb));
                    assert(p.spec_has_changes() == props_entries_differ(props_of(ga), props_of(gb)));
                    lemma_props_forms(ga, gb);
                }
                if keep {
                    Option::Some(p)
                } else {
                    Option::None
                }
            },
            (Option::Some(va), Option::None) => {
                proof {
                    lemma_split_empty::<Schema>(va@);
                    lemma_absent_members(va@, Seq::<(String, Schema)>::empty());
                    lemma_props_forms(ga, gb);
                }
                let keep = va.len() > 0;
                let p = PropertiesDiff { added: Vec::new(), removed: va, changed: Vec::new() };
                if keep {
                    Option::Some(p)
                } else {
                    Option::None
                }
            },
            (Option::None, Option::Some(vb)) => {
                proof {
                    lemma_split_empty::<Schema>(vb@);
                    lemma_absent_members(vb@, Seq::<(String, Schema)>::empty());
                    lemma_props_forms(ga, gb);
                }
                let keep = vb.len() > 0;
                let p = PropertiesDiff { added: vb, removed: Vec::new(), changed: Vec::new() };
                if keep {
                    Option::Some(p)
                } else {
                    Option::None
                }
            },
            (Option::None, Option::None) => {
                proof {
                    lemma_props_forms(ga, gb);
                }
                Option::None
            },
        };

        let items_changed = match (ia_opt, ib_opt) {
            (Option::Some(bx), Option::Some(by)) => {
                proof {
                    assert(ga.items == Option::Some(bx));
                    assert(decreases_to!(ga => *bx));
                }
                let d = SchemaDiff::from_items(*bx, *by);
                let keep = d.has_changes();
                proof {
                    lemma_schema_diff_changes(d, *ga.items.unwrap(), *gb.items.unwrap());
                }
                if keep {
                    Option::Some(Box::new(d))
                } else {
                    Option::None
                }
            },
            _ => Option::None,
        };

        SchemaDiff {
            type_changed,
            description_changed,
            format_changed,
            required_changed,
            properties_changed,
            enum_changed,
            items_changed,
            nullable_changed,
        }
    }
}

/// The two statements of a property difference, over the schemas and over
/// their property mappings, agree.
pub proof fn lemma_props_forms(a: Schema, b: Schema)
    ensures
        props_differ(a, b) == props_entries_differ(props_of(a), props_of(b)),
{
}

/// A computed schema diff reports changes exactly when the schemas differ.
pub proof fn lemma_schema_diff_changes(d: SchemaDiff, a: Schema, b: Schema)
    requires
        d.is_diff_of(a, b),
    ensures
        d.spec_has_changes() == schema_differs(a, b),
{
    assert(d.type_changed is Some <==> !opt_str_eq(a.schema_type, b.schema_type));
    assert(d.description_changed is Some <==> !opt_str_eq(a.description, b.description));
    assert(d.format_changed is Some <==> !opt_str_eq(a.format, b.format));
    assert(d.nullable_changed is Some <==> opt_bool_or_false(a.nullable) != opt_bool_or_false(
        b.nullable,
    ));
}

/// Equal, well-formed schemas do not differ.
pub proof fn lemma_schema_differs_irrefl(a: Schema)
    requires
        a.well_formed(),
    ensures
        !schema_differs(a, a),
    decreases a,
{
    crate::diff::common::lemma_str_missing_members(req_of(a), req_of(a));
    assert forall|j: int| 0 <= j < req_of(a).len() implies crate::diff::common::str_in(
        req_of(a),
        #[trigger] req_of(a)[j]@,
    ) by {
        assert(req_of(a)[j]@ == req_of(a)[j]@);
    }
    match a.enum_values {
        Option::Some(x) => {
            crate::diff::common::lemma_opt_str_missing_members(x@, x@);
            assert forall|j: int| 0 <= j < x@.len() implies crate::diff::common::opt_str_in(
                x@,
                #[trigger] x@[j],
            ) by {
                assert(opt_str_eq(x@[j], x@[j]));
            }
        },
        Option::None => {},
    }
    let pa = props_of(a);
    match a.properties {
        Option::Some(v) => {
            assert(unique_keys(pa));
            assert forall|j: int|
                0 <= j < pa.len() implies has_skey(pa, (#[trigger] pa[j]).0@) && !schema_differs(
                pa[j].1,
                slookup(pa, pa[j].0@),
            ) by {
                lemma_skey_index(pa, pa[j].0@, j);
                assert(pa[j].1.well_formed());
                lemma_schema_differs_irrefl(pa[j].1);
            }
        },
        Option::None => {
            assert(pa.len() == 0);
        },
    }
    match a.items {
        Option::Some(bx) => {
            lemma_schema_differs_irrefl(*bx);
        },
        Option::None => {},
    }
}

} // verus!
