use vstd::prelude::*;

use crate::diff::operations::operation_differs;
use crate::diff::operations::operation_pair_supported;
use crate::diff::operations::OperationDiff;
use crate::diff::unsupported;
use crate::diff::DiffError;
use crate::openapi::operation::Operation;
use crate::openapi::paths::opt_op_well_formed;
use crate::openapi::paths::PathItem;
use crate::openapi::reference::ReferenceOr;

verus! {

/// One method slot was removed: present in base, absent in head.
pub open spec fn rem_cond(x: Option<Operation>, y: Option<Operation>) -> bool {
    x is Some && y is None
}

/// One method slot was added: absent in base, present in head.
pub open spec fn add_cond(x: Option<Operation>, y: Option<Operation>) -> bool {
    x is None && y is Some
}

/// One method slot is kept and its operations differ.
pub open spec fn chg_cond(x: Option<Operation>, y: Option<Operation>) -> bool {
    match (x, y) {
        (Option::Some(a), Option::Some(b)) => operation_differs(a, b),
        _ => false,
    }
}

/// A kept method slot can be compared.
pub open spec fn slot_supported(x: Option<Operation>, y: Option<Operation>) -> bool {
    match (x, y) {
        (Option::Some(a), Option::Some(b)) => operation_pair_supported(a, b),
        _ => true,
    }
}

/// Any method slot of the two path items differs.
pub open spec fn path_items_differ(a: PathItem, b: PathItem) -> bool {
    ||| rem_cond(a.get, b.get) || add_cond(a.get, b.get) || chg_cond(a.get, b.get)
    ||| rem_cond(a.put, b.put) || add_cond(a.put, b.put) || chg_cond(a.put, b.put)
    ||| rem_cond(a.post, b.post) || add_cond(a.post, b.post) || chg_cond(a.post, b.post)
    ||| rem_cond(a.delete, b.delete) || add_cond(a.delete, b.delete) || chg_cond(a.delete, b.delete)
    ||| rem_cond(a.options, b.options) || add_cond(a.options, b.options) || chg_cond(
        a.options,
        b.options,
    )
    ||| rem_cond(a.head, b.head) || add_cond(a.head, b.head) || chg_cond(a.head, b.head)
    ||| rem_cond(a.patch, b.patch) || add_cond(a.patch, b.patch) || chg_cond(a.patch, b.patch)
    ||| rem_cond(a.trace, b.trace) || add_cond(a.trace, b.trace) || chg_cond(a.trace, b.trace)
}

/// Every kept method slot of the two path items can be compared.
pub open spec fn path_items_supported(a: PathItem, b: PathItem) -> bool {
    &&& slot_supported(a.get, b.get)
    &&& slot_supported(a.put, b.put)
    &&& slot_supported(a.post, b.post)
    &&& slot_supported(a.delete, b.delete)
    &&& slot_supported(a.options, b.options)
    &&& slot_supported(a.head, b.head)
    &&& slot_supported(a.patch, b.patch)
    &&& slot_supported(a.trace, b.trace)
}

/// Two path-item positions can be compared: both inline, slots comparable.
pub open spec fn path_item_pair_supported(x: ReferenceOr<PathItem>, y: ReferenceOr<PathItem>) -> bool {
    match (x, y) {
        (ReferenceOr::Item(a), ReferenceOr::Item(b)) => path_items_supported(a, b),
        _ => false,
    }
}

/// Two inline path items differ.
pub open spec fn path_item_pair_differs(x: ReferenceOr<PathItem>, y: ReferenceOr<PathItem>) -> bool {
    match (x, y) {
        (ReferenceOr::Item(a), ReferenceOr::Item(b)) => path_items_differ(a, b),
        _ => false,
    }
}

/// The pair difference predicate as one shared function value.
pub open spec fn path_item_pair_differs_fn() -> spec_fn(
    ReferenceOr<PathItem>,
    ReferenceOr<PathItem>,
) -> bool {
    |x: ReferenceOr<PathItem>, y: ReferenceOr<PathItem>| path_item_pair_differs(x, y)
}

/// A path-item position is well-formed when an inline item is.
pub open spec fn refor_path_item_well_formed(x: ReferenceOr<PathItem>) -> bool {
    match x {
        ReferenceOr::Item(a) => a.well_formed(),
        ReferenceOr::Reference { .. } => true,
    }
}

/// The operation stored under a method name.
pub open spec fn method_slot(a: PathItem, m: Seq<char>) -> Option<Operation> {
    if m == "get"@ {
        a.get
    } else if m == "put"@ {
        a.put
    } else if m == "post"@ {
        a.post
    } else if m == "delete"@ {
        a.delete
    } else if m == "options"@ {
        a.options
    } else if m == "head"@ {
        a.head
    } else if m == "patch"@ {
        a.patch
    } else if m == "trace"@ {
        a.trace
    } else {
        Option::None
    }
}

/// A one-element name list when the condition holds, else empty.
pub open spec fn maybe_name(m: Seq<char>, c: bool) -> Seq<Seq<char>> {
    if c {
        seq![m]
    } else {
        Seq::empty()
    }
}

/// The method names whose slot was removed, in canonical method order.
pub open spec fn removed_method_names(a: PathItem, b: PathItem) -> Seq<Seq<char>> {
    maybe_name("get"@, rem_cond(a.get, b.get)) + maybe_name("put"@, rem_cond(a.put, b.put))
        + maybe_name("post"@, rem_cond(a.post, b.post)) + maybe_name(
        "delete"@,
        rem_cond(a.delete, b.delete),
    ) + maybe_name("options"@, rem_cond(a.options, b.options)) + maybe_name(
        "head"@,
        rem_cond(a.head, b.head),
    ) + maybe_name("patch"@, rem_cond(a.patch, b.patch)) + maybe_name(
        "trace"@,
        rem_cond(a.trace, b.trace),
    )
}

/// The method names whose slot was added, in canonical method order.
pub open spec fn added_method_names(a: PathItem, b: PathItem) -> Seq<Seq<char>> {
    maybe_name("get"@, add_cond(a.get, b.get)) + maybe_name("put"@, add_cond(a.put, b.put))
        + maybe_name("post"@, add_cond(a.post, b.post)) + maybe_name(
        "delete"@,
        add_cond(a.delete, b.delete),
    ) + maybe_name("options"@, add_cond(a.options, b.options)) + maybe_name(
        "head"@,
        add_cond(a.head, b.head),
    ) + maybe_name("patch"@, add_cond(a.patch, b.patch)) + maybe_name(
        "trace"@,
        add_cond(a.trace, b.trace),
    )
}

/// The method names whose kept slot differs, in canonical method order.
pub open spec fn changed_method_names(a: PathItem, b: PathItem) -> Seq<Seq<char>> {
    maybe_name("get"@, chg_cond(a.get, b.get)) + maybe_name("put"@, chg_cond(a.put, b.put))
        + maybe_name("post"@, chg_cond(a.post, b.post)) + maybe_name(
        "delete"@,
        chg_cond(a.delete, b.delete),
    ) + maybe_name("options"@, chg_cond(a.options, b.options)) + maybe_name(
        "head"@,
        chg_cond(a.head, b.head),
    ) + maybe_name("patch"@, chg_cond(a.patch, b.patch)) + maybe_name(
        "trace"@,
        chg_cond(a.trace, b.trace),
    )
}

/// The keys of a method-keyed entry list, as text.
pub open spec fn entry_keys<V>(s: Seq<(String, V)>) -> Seq<Seq<char>> {
    s.map_values(|e: (String, V)| e.0@)
}


/// The eight method names are pairwise distinct texts.
pub proof fn lemma_method_names_distinct()
    ensures
        "put"@ != "get"@,
        "post"@ != "get"@,
        "post"@ != "put"@,
        "delete"@ != "get"@,
        "delete"@ != "put"@,
        "delete"@ != "post"@,
        "options"@ != "get"@,
        "options"@ != "put"@,
        "options"@ != "post"@,
        "options"@ != "delete"@,
        "head"@ != "get"@,
        "head"@ != "put"@,
        "head"@ != "post"@,
        "head"@ != "delete"@,
        "head"@ != "options"@,
        "patch"@ != "get"@,
        "patch"@ != "put"@,
        "patch"@ != "post"@,
        "patch"@ != "delete"@,
        "patch"@ != "options"@,
        "patch"@ != "head"@,
        "trace"@ != "get"@,
        "trace"@ != "put"@,
        "trace"@ != "post"@,
        "trace"@ != "delete"@,
        "trace"@ != "options"@,
        "trace"@ != "head"@,
        "trace"@ != "patch"@,
{
    reveal_strlit("get");
    reveal_strlit("put");
    reveal_strlit("post");
    reveal_strlit("delete");
    reveal_strlit("options");
    reveal_strlit("head");
    reveal_strlit("patch");
    reveal_strlit("trace");
    assert("get"@[0] == 'g');
    assert("put"@[0] == 'p');
    assert("put"@[1] == 'u');
    assert("post"@[0] == 'p');
    assert("post"@[1] == 'o');
    assert("delete"@[0] == 'd');
    assert("options"@[0] == 'o');
    assert("head"@[0] == 'h');
    assert("patch"@[0] == 'p');
    assert("patch"@[1] == 'a');
    assert("trace"@[0] == 't');
}

/// The change of one path item: operations that were added, removed, or
/// kept under their method with changes, in canonical method order
/// (get, put, post, delete, options, head, patch, trace).
#[derive(Debug)]
pub struct PathItemDiff {
    pub operations_added: Vec<(String, Operation)>,
    pub operations_removed: Vec<(String, Operation)>,
    pub operations_changed: Vec<(String, OperationDiff)>,
}

impl PathItemDiff {
    pub open spec fn is_diff_of(self, x: ReferenceOr<PathItem>, y: ReferenceOr<PathItem>) -> bool {
        match (x, y) {
            (ReferenceOr::Item(a), ReferenceOr::Item(b)) => {
                &&& entry_keys(self.operations_removed@) == removed_method_names(a, b)
                &&& entry_keys(self.operations_added@) == added_method_names(a, b)
                &&& entry_keys(self.operations_changed@) == changed_method_names(a, b)
                &&& (forall|i: int|
                    #![trigger self.operations_removed@[i]]
                    0 <= i < self.operations_removed@.len() ==> method_slot(
                        a,
                        self.operations_removed@[i].0@,
                    ) == Option::Some(self.operations_removed@[i].1))
                &&& (forall|i: int|
                    #![trigger self.operations_added@[i]]
                    0 <= i < self.operations_added@.len() ==> method_slot(
                        b,
                        self.operations_added@[i].0@,
                    ) == Option::Some(self.operations_added@[i].1))
                &&& (forall|i: int|
                    #![trigger self.operations_changed@[i]]
                    0 <= i < self.operations_changed@.len() ==> method_slot(
                        a,
                        self.operations_changed@[i].0@,
                    ) is Some && method_slot(b, self.operations_changed@[i].0@) is Some
                        && self.operations_changed@[i].1.is_diff_of(
                        method_slot(a, self.operations_changed@[i].0@).unwrap(),
                        method_slot(b, self.operations_changed@[i].0@).unwrap(),
                    ))
            },
            _ => false,
        }
    }

    pub open spec fn spec_has_change(self) -> bool {
        self.operations_added@.len() > 0 || self.operations_removed@.len() > 0
            || self.operations_changed@.len() > 0
    }

    pub fn has_change(&self) -> (r: bool)
        ensures
            r == self.spec_has_change(),
    {
        self.operations_added.len() > 0 || self.operations_removed.len() > 0
            || self.operations_changed.len() > 0
    }

    /// Compares two path-item positions, method slot by method slot. Both
    /// must be inline path items; a referenced path item cannot be
    /// compared by this version.
    #[verifier::rlimit(100)]
    pub fn from_path_items(base: ReferenceOr<PathItem>, head: ReferenceOr<PathItem>) -> (r: Result<
        PathItemDiff,
        DiffError,
    >)
        requires
            refor_path_item_well_formed(base),
            refor_path_item_well_formed(head),
        ensures
            match r {
                Result::Ok(d) => path_item_pair_supported(base, head) && d.is_diff_of(base, head)
                    && d.spec_has_change() == path_item_pair_differs(base, head),
                Result::Err(e) => !path_item_pair_supported(base, head) && e is UnsupportedFeature,
            },
    {
        let (a, b) = match (base, head) {
            (ReferenceOr::Item(a), ReferenceOr::Item(b)) => (a, b),
            (ReferenceOr::Reference { reference }, _) => {
                return Result::Err(unsupported("cannot compare referenced path item ", &reference));
            },
            (_, ReferenceOr::Reference { reference }) => {
                return Result::Err(unsupported("cannot compare referenced path item ", &reference));
            },
        };
        let ghost ga = a;
        let ghost gb = b;
        proof {
            lemma_method_names_distinct();
        }
        let mut added: Vec<(String, Operation)> = Vec::new();
        let mut removed: Vec<(String, Operation)> = Vec::new();
        let mut changed: Vec<(String, OperationDiff)> = Vec::new();

        let PathItem {
            get: ag,
            put: apu,
            post: apo,
            delete: ad,
            options: ao,
            head: ah,
            patch: apa,
            trace: at,
        } = a;
        let PathItem {
            get: bg,
            put: bpu,
            post: bpo,
            delete: bd,
            options: bo,
            head: bh,
            patch: bpa,
            trace: bt,
        } = b;

        match diff_method("get", ag, bg, &mut added, &mut removed, &mut changed, Ghost(ga), Ghost(gb)) {
            Result::Ok(()) => {},
            Result::Err(e) => {
                return Result::Err(e);
            },
        }
        match diff_method("put", apu, bpu, &mut added, &mut removed, &mut changed, Ghost(ga), Ghost(gb)) {
            Result::Ok(()) => {},
            Result::Err(e) => {
                return Result::Err(e);
            },
        }
        match diff_method("post", apo, bpo, &mut added, &mut removed, &mut changed, Ghost(ga), Ghost(gb)) {
            Result::Ok(()) => {},
            Result::Err(e) => {
                return Result::Err(e);
            },
        }
        match diff_method("delete", ad, bd, &mut added, &mut removed, &mut changed, Ghost(ga), Ghost(gb)) {
            Result::Ok(()) => {},
            Result::Err(e) => {
                return Result::Err(e);
            },
        }
        match diff_method("options", ao, bo, &mut added, &mut removed, &mut changed, Ghost(ga), Ghost(gb)) {
            Result::Ok(()) => {},
            Result::Err(e) => {
                return Result::Err(e);
            },
        }
        match diff_method("head", ah, bh, &mut added, &mut removed, &mut changed, Ghost(ga), Ghost(gb)) {
            Result::Ok(()) => {},
            Result::Err(e) => {
                return Result::Err(e);
            },
        }
        match diff_method("patch", apa, bpa, &mut added, &mut removed, &mut changed, Ghost(ga), Ghost(gb)) {
            Result::Ok(()) => {},
            Result::Err(e) => {
                return Result::Err(e);
            },
        }
        match diff_method("trace", at, bt, &mut added, &mut removed, &mut changed, Ghost(ga), Ghost(gb)) {
            Result::Ok(()) => {},
            Result::Err(e) => {
                return Result::Err(e);
            },
        }

        let d = PathItemDiff {
            operations_added: added,
            operations_removed: removed,
            operations_changed: changed,
        };
        proof {
            assert(entry_keys(d.operations_removed@) =~= removed_method_names(ga, gb));
            assert(entry_keys(d.operations_added@) =~= added_method_names(ga, gb));
            assert(entry_keys(d.operations_changed@) =~= changed_method_names(ga, gb));
        }
        Result::Ok(d)
    }
}

/// Compares one method slot, appending to the diff lists: a removed or
/// added operation is recorded under its method name, a kept pair is
/// compared and recorded when it differs.
fn diff_method(
    name: &str,
    x: Option<Operation>,
    y: Option<Operation>,
    added: &mut Vec<(String, Operation)>,
    removed: &mut Vec<(String, Operation)>,
    changed: &mut Vec<(String, OperationDiff)>,
    Ghost(ga): Ghost<PathItem>,
    Ghost(gb): Ghost<PathItem>,
) -> (r: Result<(), DiffError>)
    requires
        opt_op_well_formed(x),
        opt_op_well_formed(y),
        x == method_slot(ga, name@),
        y == method_slot(gb, name@),
        forall|i: int|
            #![trigger old(removed)@[i]]
            0 <= i < old(removed)@.len() ==> method_slot(ga, old(removed)@[i].0@) == Option::Some(
                old(removed)@[i].1,
            ),
        forall|i: int|
            #![trigger old(added)@[i]]
            0 <= i < old(added)@.len() ==> method_slot(gb, old(added)@[i].0@) == Option::Some(
                old(added)@[i].1,
            ),
        forall|i: int|
            #![trigger old(changed)@[i]]
            0 <= i < old(changed)@.len() ==> method_slot(ga, old(changed)@[i].0@) is Some
                && method_slot(gb, old(changed)@[i].0@) is Some && old(changed)@[i].1.is_diff_of(
                method_slot(ga, old(changed)@[i].0@).unwrap(),
                method_slot(gb, old(changed)@[i].0@).unwrap(),
            ),
    ensures
        match r {
            Result::Ok(()) => {
                &&& slot_supported(x, y)
                &&& (forall|i: int|
                    #![trigger final(removed)@[i]]
                    0 <= i < final(removed)@.len() ==> method_slot(ga, final(removed)@[i].0@)
                        == Option::Some(final(removed)@[i].1))
                &&& (forall|i: int|
                    #![trigger final(added)@[i]]
                    0 <= i < final(added)@.len() ==> method_slot(gb, final(added)@[i].0@)
                        == Option::Some(final(added)@[i].1))
                &&& (forall|i: int|
                    #![trigger final(changed)@[i]]
                    0 <= i < final(changed)@.len() ==> method_slot(ga, final(changed)@[i].0@)
                        is Some && method_slot(gb, final(changed)@[i].0@) is Some
                        && final(changed)@[i].1.is_diff_of(
                        method_slot(ga, final(changed)@[i].0@).unwrap(),
                        method_slot(gb, final(changed)@[i].0@).unwrap(),
                    ))
                &&& entry_keys(final(added)@) == entry_keys(old(added)@) + maybe_name(
                    name@,
                    add_cond(x, y),
                )
                &&& entry_keys(final(removed)@) == entry_keys(old(removed)@) + maybe_name(
                    name@,
                    rem_cond(x, y),
                )
                &&& entry_keys(final(changed)@) == entry_keys(old(changed)@) + maybe_name(
                    name@,
                    chg_cond(x, y),
                )
                &&& (forall|i: int|
                    0 <= i < old(added)@.len() ==> final(added)@[i] == #[trigger] old(added)@[i])
                &&& (forall|i: int|
                    0 <= i < old(removed)@.len() ==> final(removed)@[i] == #[trigger] old(removed)@[i])
                &&& (forall|i: int|
                    0 <= i < old(changed)@.len() ==> final(changed)@[i] == #[trigger] old(changed)@[i])
                &&& (add_cond(x, y) ==> final(added)@.last().0@ == name@
                    && final(added)@.last().1 == y.unwrap())
                &&& (rem_cond(x, y) ==> final(removed)@.last().0@ == name@
                    && final(removed)@.last().1 == x.unwrap())
                &&& (chg_cond(x, y) ==> final(changed)@.last().0@ == name@
                    && final(changed)@.last().1.is_diff_of(x.unwrap(), y.unwrap()))
            },
            Result::Err(e) => !slot_supported(x, y) && e is UnsupportedFeature,
        },
{
    match (x, y) {
        (Option::Some(ox), Option::Some(oy)) => {
            match OperationDiff::from_operations(ox, oy) {
                Result::Ok(d) => {
                    let keep = d.has_changes();
                    if keep {
                        let key = String::new();
                        let key = key.concat(name);
                        proof {
                            assert(Seq::<char>::empty() + name@ =~= name@);
                        }
                        changed.push((key, d));
                        proof {
                            assert(entry_keys(changed@) =~= entry_keys(old(changed)@) + maybe_name(
                                name@,
                                chg_cond(x, y),
                            ));
                        }
                    } else {
                        proof {
                            assert(entry_keys(changed@) =~= entry_keys(old(changed)@) + maybe_name(
                                name@,
                                chg_cond(x, y),
                            ));
                        }
                    }
                    proof {
                        assert(entry_keys(added@) =~= entry_keys(old(added)@) + maybe_name(
                            name@,
                            add_cond(x, y),
                        ));
                        assert(entry_keys(removed@) =~= entry_keys(old(removed)@) + maybe_name(
                            name@,
                            rem_cond(x, y),
                        ));
                    }
                    Result::Ok(())
                },
                Result::Err(e) => Result::Err(e),
            }
        },
        (Option::Some(ox), Option::None) => {
            let key = String::new();
            let key = key.concat(name);
            proof {
                assert(Seq::<char>::empty() + name@ =~= name@);
            }
            removed.push((key, ox));
            proof {
                assert(entry_keys(removed@) =~= entry_keys(old(removed)@) + maybe_name(
                    name@,
                    rem_cond(x, y),
                ));
                assert(entry_keys(added@) =~= entry_keys(old(added)@) + maybe_name(
                    name@,
                    add_cond(x, y),
                ));
                assert(entry_keys(changed@) =~= entry_keys(old(changed)@) + maybe_name(
                    name@,
                    chg_cond(x, y),
                ));
            }
            Result::Ok(())
        },
        (Option::None, Option::Some(oy)) => {
            let key = String::new();
            let key = key.concat(name);
            proof {
                assert(Seq::<char>::empty() + name@ =~= name@);
            }
            added.push((key, oy));
            proof {
                assert(entry_keys(added@) =~= entry_keys(old(added)@) + maybe_name(
                    name@,
                    add_cond(x, y),
                ));
                assert(entry_keys(removed@) =~= entry_keys(old(removed)@) + maybe_name(
                    name@,
                    rem_cond(x, y),
                ));
                assert(entry_keys(changed@) =~= entry_keys(old(changed)@) + maybe_name(
                    name@,
                    chg_cond(x, y),
                ));
            }
            Result::Ok(())
        },
        (Option::None, Option::None) => {
            proof {
                assert(entry_keys(added@) =~= entry_keys(old(added)@) + maybe_name(
                    name@,
                    add_cond(x, y),
                ));
                assert(entry_keys(removed@) =~= entry_keys(old(removed)@) + maybe_name(
                    name@,
                    rem_cond(x, y),
                ));
                assert(entry_keys(changed@) =~= entry_keys(old(changed)@) + maybe_name(
                    name@,
                    chg_cond(x, y),
                ));
            }
            Result::Ok(())
        },
    }
}

} // verus!
