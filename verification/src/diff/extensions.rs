use vstd::prelude::*;

use crate::keyed::absent_entries;
use crate::keyed::changed_triples;
use crate::keyed::has_skey;
use crate::keyed::lemma_absent_members;
use crate::keyed::lemma_changed_members;
use crate::keyed::lemma_changed_push;
use crate::keyed::lemma_matched_members;
use crate::keyed::lemma_self_split;
use crate::keyed::lemma_skey_index;
use crate::keyed::map_split_ref;
use crate::keyed::matched_entries;
use crate::keyed::slookup;
use crate::keyed::unique_keys;
use crate::openapi::extensions::Extensions;

verus! {

/// A changed extension value: the serialized text on each side.
#[derive(Debug)]
pub struct ExtensionDiff {
    pub from: String,
    pub to: String,
}

impl ExtensionDiff {
    pub open spec fn spec_has_changes(self) -> bool {
        self.from@ != self.to@
    }

    pub fn from_values(base: &String, head: &String) -> (r: Self)
        ensures
            r.from == *base,
            r.to == *head,
    {
        ExtensionDiff { from: base.clone(), to: head.clone() }
    }

    pub fn has_changes(&self) -> (r: bool)
        ensures
            r == self.spec_has_changes(),
    {
        !(self.from == self.to)
    }
}

/// Two extension values differ.
pub open spec fn extension_differs(a: String, b: String) -> bool {
    a@ != b@
}

/// The difference predicate on extension values, as one shared function
/// value for specs and proofs.
pub open spec fn extension_differs_fn() -> spec_fn(String, String) -> bool {
    |a: String, b: String| extension_differs(a, b)
}

/// The comparison of two extension mappings: keys that appeared, keys that
/// left, and keys kept on both sides whose value text changed.
#[derive(Debug)]
pub struct ExtensionsDiff {
    pub added: Vec<(String, String)>,
    pub removed: Vec<(String, String)>,
    pub changed: Vec<(String, ExtensionDiff)>,
}

impl ExtensionsDiff {
    pub open spec fn is_diff_of(self, base: Seq<(String, String)>, head: Seq<(String, String)>) -> bool {
        let ct = changed_triples(matched_entries(base, head), extension_differs_fn());
        &&& self.added@ == absent_entries(head, base)
        &&& self.removed@ == absent_entries(base, head)
        &&& self.changed@.len() == ct.len()
        &&& forall|i: int|
            0 <= i < ct.len() ==> (#[trigger] self.changed@[i]).0 == ct[i].0 && self.changed@[i].1.from
                == ct[i].1 && self.changed@[i].1.to == ct[i].2
    }

    pub open spec fn spec_has_changes(self) -> bool {
        self.added@.len() > 0 || self.removed@.len() > 0 || self.changed@.len() > 0
    }

    pub fn has_changes(&self) -> (r: bool)
        ensures
            r == self.spec_has_changes(),
    {
        self.added.len() > 0 || self.removed.len() > 0 || self.changed.len() > 0
    }

    pub fn from_extensions(base: &Extensions, head: &Extensions) -> (r: Self)
        requires
            unique_keys(base@),
            unique_keys(head@),
        ensures
            r.is_diff_of(base@, head@),
    {
        let split = map_split_ref(base, head);
        let m = split.common;
        let ghost ms = m@;
        let mut changed: Vec<(String, ExtensionDiff)> = Vec::new();
        let mut i: usize = 0;
        while i < m.len()
            invariant
                i <= ms.len(),
                m@ == ms,
                changed@.len() == changed_triples(ms.take(i as int), extension_differs_fn()).len(),
                forall|k: int|
                    0 <= k < changed@.len() ==> {
                        let ct = changed_triples(ms.take(i as int), extension_differs_fn());
                        (#[trigger] changed@[k]).0 == ct[k].0 && changed@[k].1.from == ct[k].1
                            && changed@[k].1.to == ct[k].2
                    },
            decreases ms.len() - i,
        {
            let ghost t = ms.take(i as int);
            let e = &m[i];
            let d = ExtensionDiff::from_values(&e.1, &e.2);
            let keep = d.has_changes();
            if keep {
                changed.push((e.0.clone(), d));
            }
            proof {
                assert(ms.take(i as int + 1) =~= t.push(ms[i as int]));
                lemma_changed_push(t, ms[i as int], extension_differs_fn());
            }
            i += 1;
        }
        proof {
            assert(ms.take(ms.len() as int) =~= ms);
        }
        ExtensionsDiff { added: split.added, removed: split.removed, changed }
    }
}

/// Two extension mappings differ somewhere: a key is new, a key left, or a
/// kept key's value text changed.
pub open spec fn extensions_differ(base: Seq<(String, String)>, head: Seq<(String, String)>) -> bool {
    ||| exists|j: int| 0 <= j < base.len() && !has_skey(head, (#[trigger] base[j]).0@)
    ||| exists|j: int| 0 <= j < head.len() && !has_skey(base, (#[trigger] head[j]).0@)
    ||| exists|j: int|
        0 <= j < base.len() && has_skey(head, (#[trigger] base[j]).0@) && base[j].1@ != slookup(
            head,
            base[j].0@,
        )@
}

/// A computed extensions diff reports changes exactly when the mappings
/// differ.
pub proof fn lemma_extensions_diff_changes(
    d: ExtensionsDiff,
    base: Seq<(String, String)>,
    head: Seq<(String, String)>,
)
    requires
        unique_keys(base),
        unique_keys(head),
        d.is_diff_of(base, head),
    ensures
        d.spec_has_changes() == extensions_differ(base, head),
{
    lemma_absent_members(base, head);
    lemma_absent_members(head, base);
    lemma_matched_members(base, head);
    let m = matched_entries(base, head);
    lemma_changed_members(m, extension_differs_fn());
    if d.changed@.len() > 0 {
        assert(exists|k: int| 0 <= k < m.len() && extension_differs(#[trigger] m[k].1, m[k].2));
        let k = choose|k: int| 0 <= k < m.len() && extension_differs(#[trigger] m[k].1, m[k].2);
        let j = choose|j: int| 0 <= j < base.len() && m[k].0 == base[j].0 && m[k].1 == base[j].1;
        assert(has_skey(head, base[j].0@) && base[j].1@ != slookup(head, base[j].0@)@);
    }
    if extensions_differ(base, head) && d.added@.len() == 0 && d.removed@.len() == 0 {
        let j = choose|j: int|
            0 <= j < base.len() && has_skey(head, (#[trigger] base[j]).0@) && base[j].1@
                != slookup(head, base[j].0@)@;
        assert(exists|k: int|
            0 <= k < m.len() && #[trigger] m[k] == (base[j].0, base[j].1, slookup(head, base[j].0@)));
        let k = choose|k: int|
            0 <= k < m.len() && #[trigger] m[k] == (base[j].0, base[j].1, slookup(head, base[j].0@));
        assert(extension_differs(m[k].1, m[k].2));
        assert(d.changed@.len() > 0);
    }
}

/// Equal extension mappings do not differ.
pub proof fn lemma_extensions_differ_irrefl(e: Seq<(String, String)>)
    requires
        unique_keys(e),
    ensures
        !extensions_differ(e, e),
{
    lemma_self_split(e);
    assert forall|j: int| 0 <= j < e.len() implies has_skey(e, (#[trigger] e[j]).0@) && e[j].1@
        == slookup(e, e[j].0@)@ by {
        lemma_skey_index(e, e[j].0@, j);
    }
}

} // verus!
