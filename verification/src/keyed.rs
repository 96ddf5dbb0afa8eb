//! Keyed entry sequences: the shared core of the diff engine.
//!
//! Every ordered mapping of the document model (paths, properties, media
//! types, response codes, extensions, ...) is carried as a vector of
//! key/value entries in declaration order. Comparing two such mappings
//! always follows one pattern: entries present on only one side are
//! reported as added or removed, entries present on both sides are matched
//! up by key so that an entity-specific comparison can decide whether they
//! changed. `map_split` performs that three-way split once, generically,
//! with an exact contract; the entity modules are thin instantiations.
//!
//! The splitting function consumes its two mappings and moves every entry
//! into its place in the result, so each reported entry is spec-equal to
//! the document entry it came from. For mappings whose values are plain
//! strings a borrowing variant, `map_split_ref`, is offered as well.

use vstd::prelude::*;

verus! {

/// A key `k` occurs among the entries `s`.
pub open spec fn has_skey<V>(s: Seq<(String, V)>, k: Seq<char>) -> bool {
    exists|i: int| 0 <= i < s.len() && s[i].0@ == k
}

/// Some index of an entry of `s` whose key is `k` (unique when keys are unique).
pub open spec fn skey_index<V>(s: Seq<(String, V)>, k: Seq<char>) -> int {
    choose|i: int| 0 <= i < s.len() && s[i].0@ == k
}

/// The value stored under key `k`.
pub open spec fn slookup<V>(s: Seq<(String, V)>, k: Seq<char>) -> V {
    s[skey_index(s, k)].1
}

/// The entries form a mapping: no key occurs twice.
pub open spec fn unique_keys<V>(s: Seq<(String, V)>) -> bool {
    forall|i: int, j: int| 0 <= i < j < s.len() ==> s[i].0@ != s[j].0@
}

/// The entries of `base` whose key does not occur in `head`, in `base` order.
pub open spec fn absent_entries<V>(base: Seq<(String, V)>, head: Seq<(String, V)>) -> Seq<
    (String, V),
>
    decreases base.len(),
{
    if base.len() == 0 {
        Seq::empty()
    } else {
        let rest = absent_entries(base.drop_last(), head);
        if !has_skey(head, base.last().0@) {
            rest.push(base.last())
        } else {
            rest
        }
    }
}

/// The entries of `base` whose key does occur in `head`, in `base` order.
pub open spec fn present_entries<V>(base: Seq<(String, V)>, head: Seq<(String, V)>) -> Seq<
    (String, V),
>
    decreases base.len(),
{
    if base.len() == 0 {
        Seq::empty()
    } else {
        let rest = present_entries(base.drop_last(), head);
        if has_skey(head, base.last().0@) {
            rest.push(base.last())
        } else {
            rest
        }
    }
}

/// For every entry of `base` whose key also occurs in `head`: the key, the
/// `base` value and the `head` value, in `base` order.
pub open spec fn matched_entries<V>(base: Seq<(String, V)>, head: Seq<(String, V)>) -> Seq<
    (String, V, V),
>
    decreases base.len(),
{
    if base.len() == 0 {
        Seq::empty()
    } else {
        let rest = matched_entries(base.drop_last(), head);
        if has_skey(head, base.last().0@) {
            rest.push((base.last().0, base.last().1, slookup(head, base.last().0@)))
        } else {
            rest
        }
    }
}

/// The matched triples whose two values differ according to `p`, in order.
/// Entity modules instantiate `p` with their own difference predicate; the
/// result lists exactly the entries a diff must report as changed.
pub open spec fn changed_triples<V>(
    m: Seq<(String, V, V)>,
    p: spec_fn(V, V) -> bool,
) -> Seq<(String, V, V)>
    decreases m.len(),
{
    if m.len() == 0 {
        Seq::empty()
    } else {
        let rest = changed_triples(m.drop_last(), p);
        if p(m.last().1, m.last().2) {
            rest.push(m.last())
        } else {
            rest
        }
    }
}

/// Every clone of a `V` is spec-equal to the value cloned; true of `String`.
pub open spec fn clone_exact<V: Clone>() -> bool {
    forall|a: V, b: V| #[trigger] cloned::<V>(a, b) ==> a == b
}

pub proof fn lemma_clone_exact_string()
    ensures
        clone_exact::<String>(),
{
    assert forall|a: String, b: String| #[trigger] cloned::<String>(a, b) implies a == b by {}
}

/// Clones an optional value whose `Clone` preserves it.
pub fn clone_opt<V: Clone>(x: &Option<V>) -> (r: Option<V>)
    requires
        clone_exact::<V>(),
    ensures
        r == *x,
{
    match x {
        Option::None => Option::None,
        Option::Some(v) => {
            let c = v.clone();
            proof {
                assert(cloned::<V>(*v, c));
            }
            Option::Some(c)
        },
    }
}

pub proof fn lemma_skey_index<V>(s: Seq<(String, V)>, k: Seq<char>, j: int)
    requires
        unique_keys(s),
        0 <= j < s.len(),
        s[j].0@ == k,
    ensures
        skey_index(s, k) == j,
        slookup(s, k) == s[j].1,
{
    assert(has_skey(s, k));
    let i = skey_index(s, k);
    assert(0 <= i < s.len() && s[i].0@ == k);
    if i != j {
        assert(s[i].0@ != s[j].0@);
    }
}

pub proof fn lemma_absent_push<V>(t: Seq<(String, V)>, x: (String, V), head: Seq<(String, V)>)
    ensures
        absent_entries(t.push(x), head) == if !has_skey(head, x.0@) {
            absent_entries(t, head).push(x)
        } else {
            absent_entries(t, head)
        },
{
    assert(t.push(x).drop_last() =~= t);
    assert(t.push(x).last() == x);
}

pub proof fn lemma_present_push<V>(t: Seq<(String, V)>, x: (String, V), head: Seq<(String, V)>)
    ensures
        present_entries(t.push(x), head) == if has_skey(head, x.0@) {
            present_entries(t, head).push(x)
        } else {
            present_entries(t, head)
        },
{
    assert(t.push(x).drop_last() =~= t);
    assert(t.push(x).last() == x);
}

pub proof fn lemma_matched_push<V>(t: Seq<(String, V)>, x: (String, V), head: Seq<(String, V)>)
    ensures
        matched_entries(t.push(x), head) == if has_skey(head, x.0@) {
            matched_entries(t, head).push((x.0, x.1, slookup(head, x.0@)))
        } else {
            matched_entries(t, head)
        },
{
    assert(t.push(x).drop_last() =~= t);
    assert(t.push(x).last() == x);
}

pub proof fn lemma_changed_push<V>(m: Seq<(String, V, V)>, x: (String, V, V), p: spec_fn(V, V) -> bool)
    ensures
        changed_triples(m.push(x), p) == if p(x.1, x.2) {
            changed_triples(m, p).push(x)
        } else {
            changed_triples(m, p)
        },
{
    assert(m.push(x).drop_last() =~= m);
    assert(m.push(x).last() == x);
}

/// Every reported triple is one of the matched triples, and its two values
/// differ; conversely some matched triple differs as soon as any is reported.
pub proof fn lemma_changed_members<V>(m: Seq<(String, V, V)>, p: spec_fn(V, V) -> bool)
    ensures
        forall|k: int|
            0 <= k < changed_triples(m, p).len() ==> (exists|j: int|
                0 <= j < m.len() && #[trigger] changed_triples(m, p)[k] == m[j]),
        forall|k: int|
            0 <= k < changed_triples(m, p).len() ==> p(
                #[trigger] changed_triples(m, p)[k].1,
                changed_triples(m, p)[k].2,
            ),
        changed_triples(m, p).len() == 0 <==> (forall|j: int|
            0 <= j < m.len() ==> !p(#[trigger] m[j].1, m[j].2)),
    decreases m.len(),
{
    if m.len() > 0 {
        let m0 = m.drop_last();
        lemma_changed_members(m0, p);
        assert(m0.len() == m.len() - 1);
        assert(forall|j: int| 0 <= j < m.len() - 1 ==> #[trigger] m0[j] == m[j]);
        assert(m.last() == m[m.len() - 1]);
        if p(m.last().1, m.last().2) {
            assert(changed_triples(m, p) == changed_triples(m0, p).push(m.last()));
            assert(changed_triples(m, p).len() > 0);
            assert(p(m[m.len() - 1].1, m[m.len() - 1].2));
        } else {
            assert(changed_triples(m, p) == changed_triples(m0, p));
            if changed_triples(m, p).len() == 0 {
                assert forall|j: int| 0 <= j < m.len() implies !p(#[trigger] m[j].1, m[j].2) by {
                    if j < m.len() - 1 {
                        assert(m0[j] == m[j]);
                    }
                }
            }
        }
    }
}

/// Every absent entry of the split is an entry of `base`, with its key
/// missing from `head`; and there are none exactly when every key of
/// `base` occurs in `head`.
pub proof fn lemma_absent_members<V>(base: Seq<(String, V)>, head: Seq<(String, V)>)
    ensures
        forall|k: int|
            0 <= k < absent_entries(base, head).len() ==> (exists|j: int|
                0 <= j < base.len() && #[trigger] absent_entries(base, head)[k] == base[j]),
        forall|k: int|
            0 <= k < absent_entries(base, head).len() ==> !has_skey(
                head,
                #[trigger] absent_entries(base, head)[k].0@,
            ),
        absent_entries(base, head).len() == 0 <==> (forall|j: int|
            0 <= j < base.len() ==> has_skey(head, #[trigger] base[j].0@)),
    decreases base.len(),
{
    if base.len() > 0 {
        let b0 = base.drop_last();
        lemma_absent_members(b0, head);
        assert(b0.len() == base.len() - 1);
        assert(forall|j: int| 0 <= j < base.len() - 1 ==> #[trigger] b0[j] == base[j]);
        assert(base.last() == base[base.len() - 1]);
        if !has_skey(head, base.last().0@) {
            assert(absent_entries(base, head) == absent_entries(b0, head).push(base.last()));
            assert(absent_entries(base, head).len() > 0);
            assert(!has_skey(head, base[base.len() - 1].0@));
        } else {
            assert(absent_entries(base, head) == absent_entries(b0, head));
            if absent_entries(base, head).len() == 0 {
                assert forall|j: int| 0 <= j < base.len() implies has_skey(
                    head,
                    #[trigger] base[j].0@,
                ) by {
                    if j < base.len() - 1 {
                        assert(b0[j] == base[j]);
                    }
                }
            }
        }
    }
}

/// The present entries are exactly the entries of `base` whose key occurs
/// in `head`, keeping order, keys and values; their keys stay unique when
/// the keys of `base` were.
pub proof fn lemma_present_members<V>(base: Seq<(String, V)>, head: Seq<(String, V)>)
    ensures
        forall|k: int|
            0 <= k < present_entries(base, head).len() ==> (exists|j: int|
                0 <= j < base.len() && #[trigger] present_entries(base, head)[k] == base[j]),
        forall|k: int|
            0 <= k < present_entries(base, head).len() ==> has_skey(
                head,
                #[trigger] present_entries(base, head)[k].0@,
            ),
        forall|j: int|
            0 <= j < base.len() && has_skey(head, #[trigger] base[j].0@) ==> has_skey(
                present_entries(base, head),
                base[j].0@,
            ),
        unique_keys(base) ==> unique_keys(present_entries(base, head)),
    decreases base.len(),
{
    if base.len() > 0 {
        let b0 = base.drop_last();
        lemma_present_members(b0, head);
        let p0 = present_entries(b0, head);
        let p = present_entries(base, head);
        assert(b0.len() == base.len() - 1);
        assert(forall|j: int| 0 <= j < base.len() - 1 ==> #[trigger] b0[j] == base[j]);
        assert(base.last() == base[base.len() - 1]);
        if has_skey(head, base.last().0@) {
            assert(p == p0.push(base.last()));
            assert forall|j: int|
                0 <= j < base.len() && has_skey(head, #[trigger] base[j].0@) implies has_skey(
                p,
                base[j].0@,
            ) by {
                if j < base.len() - 1 {
                    assert(has_skey(p0, b0[j].0@));
                    let k = choose|k: int| 0 <= k < p0.len() && p0[k].0@ == b0[j].0@;
                    assert(p[k] == p0[k]);
                } else {
                    assert(p[p.len() - 1] == base[j]);
                }
            }
            if unique_keys(base) {
                assert(unique_keys(b0));
                assert forall|i: int, j: int| 0 <= i < j < p.len() implies p[i].0@ != p[j].0@ by {
                    if j < p.len() - 1 {
                        assert(p[i] == p0[i] && p[j] == p0[j]);
                    } else {
                        assert(p[i] == p0[i]);
                        let w = choose|w: int| 0 <= w < b0.len() && p0[i] == b0[w];
                        assert(base[w] == b0[w]);
                        assert(base[w].0@ != base[base.len() - 1].0@);
                    }
                }
            }
        } else {
            assert(p == p0);
            assert forall|j: int|
                0 <= j < base.len() && has_skey(head, #[trigger] base[j].0@) implies has_skey(
                p,
                base[j].0@,
            ) by {
                assert(j < base.len() - 1);
                assert(b0[j] == base[j]);
            }
        }
    }
}

/// The matched triples pair every key common to `base` and `head` with the
/// two stored values, in `base` order.
pub proof fn lemma_matched_members<V>(base: Seq<(String, V)>, head: Seq<(String, V)>)
    requires
        unique_keys(base),
    ensures
        forall|k: int|
            0 <= k < matched_entries(base, head).len() ==> (exists|j: int|
                0 <= j < base.len() && #[trigger] matched_entries(base, head)[k].0 == base[j].0
                    && matched_entries(base, head)[k].1 == base[j].1),
        forall|k: int|
            0 <= k < matched_entries(base, head).len() ==> has_skey(
                head,
                #[trigger] matched_entries(base, head)[k].0@,
            ) && matched_entries(base, head)[k].2 == slookup(
                head,
                matched_entries(base, head)[k].0@,
            ),
        forall|j: int|
            0 <= j < base.len() && has_skey(head, #[trigger] base[j].0@) ==> (exists|k: int|
                0 <= k < matched_entries(base, head).len()
                    && #[trigger] matched_entries(base, head)[k] == (
                base[j].0,
                base[j].1,
                slookup(head, base[j].0@),
                )),
        matched_entries(base, head).len() == 0 <==> (forall|j: int|
            0 <= j < base.len() ==> !has_skey(head, #[trigger] base[j].0@)),
    decreases base.len(),
{
    if base.len() > 0 {
        let b0 = base.drop_last();
        assert(unique_keys(b0));
        lemma_matched_members(b0, head);
        let m0 = matched_entries(b0, head);
        let m = matched_entries(base, head);
        let x = base.last();
        assert(x == base[base.len() - 1]);
        assert(forall|j: int| 0 <= j < base.len() - 1 ==> #[trigger] b0[j] == base[j]);
        if has_skey(head, x.0@) {
            assert(m == m0.push((x.0, x.1, slookup(head, x.0@))));
            assert forall|k: int| 0 <= k < m.len() implies (exists|j: int|
                0 <= j < base.len() && #[trigger] m[k].0 == base[j].0 && m[k].1 == base[j].1) by {
                if k < m0.len() {
                    assert(m[k] == m0[k]);
                    let j = choose|j: int|
                        0 <= j < b0.len() && m0[k].0 == b0[j].0 && m0[k].1 == b0[j].1;
                    assert(0 <= j < base.len() && m[k].0 == base[j].0 && m[k].1 == base[j].1);
                } else {
                    assert(m[k] == (x.0, x.1, slookup(head, x.0@)));
                    assert(m[k].0 == base[base.len() - 1].0 && m[k].1 == base[base.len() - 1].1);
                }
            }
            assert forall|k: int| 0 <= k < m.len() implies has_skey(head, #[trigger] m[k].0@)
                && m[k].2 == slookup(head, m[k].0@) by {
                if k < m0.len() {
                    assert(m[k] == m0[k]);
                } else {
                    assert(m[k] == (x.0, x.1, slookup(head, x.0@)));
                }
            }
            assert forall|j: int|
                0 <= j < base.len() && has_skey(head, #[trigger] base[j].0@) implies (exists|k: int|
                0 <= k < m.len() && #[trigger] m[k] == (
                base[j].0,
                base[j].1,
                slookup(head, base[j].0@),
                )) by {
                if j < base.len() - 1 {
                    let k = choose|k: int|
                        0 <= k < m0.len() && #[trigger] m0[k] == (
                        b0[j].0,
                        b0[j].1,
                        slookup(head, b0[j].0@),
                        );
                    assert(m[k] == m0[k]);
                } else {
                    assert(m[m.len() - 1] == (base[j].0, base[j].1, slookup(head, base[j].0@)));
                }
            }
            assert(m.len() > 0);
            assert(has_skey(head, base[base.len() - 1].0@));
        } else {
            assert(m == m0);
            assert forall|k: int| 0 <= k < m.len() implies (exists|j: int|
                0 <= j < base.len() && #[trigger] m[k].0 == base[j].0 && m[k].1 == base[j].1) by {
                let j = choose|j: int|
                    0 <= j < b0.len() && m0[k].0 == b0[j].0 && m0[k].1 == b0[j].1;
                assert(0 <= j < base.len() && m[k].0 == base[j].0 && m[k].1 == base[j].1);
            }
            assert forall|j: int|
                0 <= j < base.len() && has_skey(head, #[trigger] base[j].0@) implies (exists|k: int|
                0 <= k < m.len() && #[trigger] m[k] == (
                base[j].0,
                base[j].1,
                slookup(head, base[j].0@),
                )) by {
                assert(j < base.len() - 1);
                assert(b0[j] == base[j]);
            }
        }
    }
}

/// Splitting a mapping against itself leaves nothing absent, and every
/// matched triple pairs an entry's value with itself.
pub proof fn lemma_self_split<V>(s: Seq<(String, V)>)
    requires
        unique_keys(s),
    ensures
        absent_entries(s, s).len() == 0,
        forall|k: int|
            0 <= k < matched_entries(s, s).len() ==> #[trigger] matched_entries(s, s)[k].1
                == matched_entries(s, s)[k].2,
{
    lemma_absent_members(s, s);
    lemma_matched_members(s, s);
    let m = matched_entries(s, s);
    assert forall|k: int| 0 <= k < m.len() implies #[trigger] m[k].1 == m[k].2 by {
        let j = choose|j: int| 0 <= j < s.len() && m[k].0 == s[j].0 && m[k].1 == s[j].1;
        lemma_skey_index(s, s[j].0@, j);
        assert(m[k].2 == slookup(s, m[k].0@));
    }
}

/// Some matched triple differs according to `p` exactly when some key of
/// `base` also occurs in `head` with a differing value.
pub proof fn lemma_changed_exists<V>(
    base: Seq<(String, V)>,
    head: Seq<(String, V)>,
    p: spec_fn(V, V) -> bool,
)
    requires
        unique_keys(base),
    ensures
        changed_triples(matched_entries(base, head), p).len() > 0 <==> (exists|j: int|
            0 <= j < base.len() && has_skey(head, (#[trigger] base[j]).0@) && p(
                base[j].1,
                slookup(head, base[j].0@),
            )),
{
    lemma_matched_members(base, head);
    let m = matched_entries(base, head);
    lemma_changed_members(m, p);
    if changed_triples(m, p).len() > 0 {
        let k = choose|k: int| 0 <= k < m.len() && p(#[trigger] m[k].1, m[k].2);
        let j = choose|j: int|
            0 <= j < base.len() && #[trigger] m[k].0 == base[j].0 && m[k].1 == base[j].1;
        assert(m[k].2 == slookup(head, m[k].0@));
        assert(has_skey(head, base[j].0@) && p(base[j].1, slookup(head, base[j].0@)));
    }
    if exists|j: int|
        0 <= j < base.len() && has_skey(head, (#[trigger] base[j]).0@) && p(
            base[j].1,
            slookup(head, base[j].0@),
        ) {
        let j = choose|j: int|
            0 <= j < base.len() && has_skey(head, (#[trigger] base[j]).0@) && p(
                base[j].1,
                slookup(head, base[j].0@),
            );
        assert(exists|k: int|
            0 <= k < m.len() && #[trigger] m[k] == (base[j].0, base[j].1, slookup(head, base[j].0@)));
        let k = choose|k: int|
            0 <= k < m.len() && #[trigger] m[k] == (base[j].0, base[j].1, slookup(head, base[j].0@));
        assert(p(m[k].1, m[k].2));
        assert(changed_triples(m, p).len() > 0);
    }
}

/// Splitting against an empty mapping: everything is absent, nothing is
/// matched.
pub proof fn lemma_split_empty<V>(s: Seq<(String, V)>)
    ensures
        absent_entries(s, Seq::<(String, V)>::empty()) == s,
        absent_entries(Seq::<(String, V)>::empty(), s) == Seq::<(String, V)>::empty(),
        matched_entries(s, Seq::<(String, V)>::empty()) == Seq::<(String, V, V)>::empty(),
    decreases s.len(),
{
    let e = Seq::<(String, V)>::empty();
    if s.len() == 0 {
        assert(absent_entries(s, e) == s);
    } else {
        lemma_split_empty(s.drop_last());
        assert(!has_skey(e, s.last().0@));
        assert(absent_entries(s, e) == absent_entries(s.drop_last(), e).push(s.last()));
        assert(absent_entries(s.drop_last(), e).push(s.last()) =~= s);
        assert(matched_entries(s, e) == matched_entries(s.drop_last(), e));
    }
}

/// Result of the three-way split of two ordered mappings.
#[derive(Debug)]
pub struct MapSplit<V> {
    /// Entries of the base mapping whose key left, in base order.
    pub removed: Vec<(String, V)>,
    /// Key, base value and head value for every key present on both sides,
    /// in base order.
    pub common: Vec<(String, V, V)>,
    /// Entries of the head mapping whose key is new, in head order.
    pub added: Vec<(String, V)>,
}

/// Linear search for a key among the entries.
pub fn find_key<V>(s: &Vec<(String, V)>, k: &String) -> (r: Option<usize>)
    ensures
        match r {
            Some(j) => j < s@.len() && s@[j as int].0@ == k@,
            None => !has_skey(s@, k@),
        },
{
    let mut j: usize = 0;
    while j < s.len()
        invariant
            j <= s@.len(),
            forall|i: int| 0 <= i < j ==> s@[i].0@ != k@,
        decreases s@.len() - j,
    {
        if s[j].0 == *k {
            return Some(j);
        }
        j += 1;
    }
    None
}

/// Splits two ordered mappings into removed, matched and added entries.
///
/// This is the one generic comparison primitive behind every mapping-shaped
/// diff in the crate. Both inputs must be mappings (unique keys). Every
/// entry of the inputs is moved into its place in the result, so the
/// reported entries are the document's own values.
pub fn map_split<V>(base: Vec<(String, V)>, head: Vec<(String, V)>) -> (r: MapSplit<V>)
    requires
        unique_keys(base@),
        unique_keys(head@),
    ensures
        r.removed@ == absent_entries(base@, head@),
        r.added@ == absent_entries(head@, base@),
        r.common@ == matched_entries(base@, head@),
{
    let ghost base0 = base@;
    let ghost head0 = head@;
    let mut base = base;
    let mut head = head;
    let mut added: Vec<(String, V)> = Vec::new();
    let mut matched: Vec<(String, V)> = Vec::new();

    // First pass: move each head entry either to the new entries or to the
    // pool of entries whose key the base mapping also has.
    let ghost mut h: int = 0;
    while head.len() > 0
        invariant
            0 <= h <= head0.len(),
            head@ == head0.skip(h),
            base@ == base0,
            added@ == absent_entries(head0.take(h), base0),
            matched@ == present_entries(head0.take(h), base0),
        decreases head@.len(),
    {
        proof {
            assert(head0.skip(h)[0] == head0[h]);
            assert(head0.skip(h).remove(0) =~= head0.skip(h + 1));
        }
        let e = head.remove(0);
        let found = find_key(&base, &e.0);
        proof {
            assert(head0.take(h + 1) =~= head0.take(h).push(head0[h]));
            lemma_absent_push(head0.take(h), head0[h], base0);
            lemma_present_push(head0.take(h), head0[h], base0);
        }
        match found {
            Some(_) => {
                matched.push(e);
            },
            None => {
                added.push(e);
            },
        }
        proof {
            h = h + 1;
        }
    }
    proof {
        assert(h == head0.len());
        assert(head0.take(h) =~= head0);
        lemma_present_members(head0, base0);
        assert forall|m: int| 0 <= m < matched@.len() implies has_skey(
            head0,
            #[trigger] matched@[m].0@,
        ) && matched@[m].1 == slookup(head0, matched@[m].0@) && has_skey(base0, matched@[m].0@)
            && !has_skey(base0.take(0), matched@[m].0@) by {
            let j = choose|j: int| 0 <= j < head0.len() && matched@[m] == head0[j];
            lemma_skey_index(head0, matched@[m].0@, j);
        }
        assert forall|ii: int|
            0 <= ii < base0.len() && has_skey(head0, #[trigger] base0[ii].0@) implies has_skey(
            matched@,
            base0[ii].0@,
        ) by {
            let j = skey_index(head0, base0[ii].0@);
            assert(0 <= j < head0.len() && head0[j].0@ == base0[ii].0@);
            assert(has_skey(base0, head0[j].0@));
        }
    }

    // Second pass: move each base entry either to the removed entries or,
    // together with the pooled head value of its key, to the matched triples.
    let mut removed: Vec<(String, V)> = Vec::new();
    let mut common: Vec<(String, V, V)> = Vec::new();
    let ghost mut i: int = 0;
    while base.len() > 0
        invariant
            0 <= i <= base0.len(),
            base@ == base0.skip(i),
            unique_keys(base0),
            unique_keys(head0),
            removed@ == absent_entries(base0.take(i), head0),
            common@ == matched_entries(base0.take(i), head0),
            unique_keys(matched@),
            forall|m: int|
                0 <= m < matched@.len() ==> has_skey(head0, #[trigger] matched@[m].0@)
                    && matched@[m].1 == slookup(head0, matched@[m].0@) && has_skey(
                    base0,
                    matched@[m].0@,
                ) && !has_skey(base0.take(i), matched@[m].0@),
            forall|ii: int|
                i <= ii < base0.len() && has_skey(head0, #[trigger] base0[ii].0@) ==> has_skey(
                    matched@,
                    base0[ii].0@,
                ),
        decreases base@.len(),
    {
        proof {
            assert(base0.skip(i)[0] == base0[i]);
            assert(base0.skip(i).remove(0) =~= base0.skip(i + 1));
        }
        let e = base.remove(0);
        let ghost k = base0[i].0@;
        let ghost old_matched = matched@;
        let found = find_key(&matched, &e.0);
        proof {
            assert(base0.take(i + 1) =~= base0.take(i).push(base0[i]));
            lemma_absent_push(base0.take(i), base0[i], head0);
            lemma_matched_push(base0.take(i), base0[i], head0);
            assert forall|ii: int| 0 <= ii < i implies !(#[trigger] base0[ii].0@ == k) by {
                assert(base0[ii].0@ != base0[i].0@);
            }
        }
        match found {
            Some(j) => {
                let w = matched.swap_remove(j);
                proof {
                    assert(w == old_matched[j as int]);
                    assert(w.0@ == k);
                    assert(w.1 == slookup(head0, k));
                    assert(matched@ =~= old_matched.update(j as int, old_matched.last()).drop_last());
                    // The pool keeps its invariants: entries only permuted,
                    // and the one entry with key `k` is gone.
                    assert forall|m: int| 0 <= m < matched@.len() implies has_skey(
                        head0,
                        #[trigger] matched@[m].0@,
                    ) && matched@[m].1 == slookup(head0, matched@[m].0@) && has_skey(
                        base0,
                        matched@[m].0@,
                    ) && !has_skey(base0.take(i + 1), matched@[m].0@) by {
                        let src: int = if m == j { old_matched.len() - 1 } else { m };
                        assert(matched@[m] == old_matched[src]);
                        assert(!has_skey(base0.take(i), old_matched[src].0@));
                        if old_matched[src].0@ == k {
                            assert(src != j ==> old_matched[src].0@ != old_matched[j as int].0@);
                            assert(src == j);
                            assert(m == j && j == old_matched.len() - 1);
                            assert(false);
                        }
                        assert forall|ii: int|
                            0 <= ii < i + 1 implies !(#[trigger] base0.take(i + 1)[ii].0@
                            == old_matched[src].0@) by {
                            if ii < i {
                                assert(!has_skey(base0.take(i), old_matched[src].0@));
                                assert(base0.take(i)[ii] == base0.take(i + 1)[ii]);
                            } else {
                                assert(base0.take(i + 1)[ii] == base0[i]);
                            }
                        }
                    }
                    assert forall|m1: int, m2: int| 0 <= m1 < m2 < matched@.len() implies
                        matched@[m1].0@ != matched@[m2].0@ by {
                        let s1: int = if m1 == j { old_matched.len() - 1 } else { m1 };
                        let s2: int = if m2 == j { old_matched.len() - 1 } else { m2 };
                        assert(matched@[m1] == old_matched[s1]);
                        assert(matched@[m2] == old_matched[s2]);
                        assert(s1 != s2);
                    }
                    assert forall|ii: int|
                        i + 1 <= ii < base0.len() && has_skey(head0, #[trigger] base0[ii].0@)
                        implies has_skey(matched@, base0[ii].0@) by {
                        assert(has_skey(old_matched, base0[ii].0@));
                        let m = choose|m: int|
                            0 <= m < old_matched.len() && old_matched[m].0@ == base0[ii].0@;
                        assert(base0[ii].0@ != k);
                        assert(m != j);
                        if m == old_matched.len() - 1 {
                            assert(matched@[j as int] == old_matched[m]);
                        } else {
                            assert(matched@[m] == old_matched[m]);
                        }
                    }
                }
                common.push((e.0, e.1, w.1));
            },
            None => {
                proof {
                    // No pooled entry has key `k`, so `head0` has no such key.
                    if has_skey(head0, k) {
                        assert(has_skey(old_matched, k));
                    }
                    assert forall|m: int| 0 <= m < matched@.len() implies !has_skey(
                        base0.take(i + 1),
                        #[trigger] matched@[m].0@,
                    ) by {
                        assert(!has_skey(base0.take(i), matched@[m].0@));
                        assert forall|ii: int|
                            0 <= ii < i + 1 implies !(#[trigger] base0.take(i + 1)[ii].0@
                            == matched@[m].0@) by {
                            if ii < i {
                                assert(base0.take(i)[ii] == base0.take(i + 1)[ii]);
                            } else {
                                assert(base0.take(i + 1)[ii] == base0[i]);
                                assert(matched@[m].0@ != k);
                            }
                        }
                    }
                }
                removed.push(e);
            },
        }
        proof {
            i = i + 1;
        }
    }
    proof {
        assert(i == base0.len());
        assert(base0.take(i) =~= base0);
    }

    MapSplit { removed, common, added }
}

/// Splits two borrowed string-valued mappings, cloning the entries.
/// Cloning a string preserves its value, so the contract matches the
/// moving variant's.
pub fn map_split_ref(base: &Vec<(String, String)>, head: &Vec<(String, String)>) -> (r: MapSplit<
    String,
>)
    requires
        unique_keys(base@),
        unique_keys(head@),
    ensures
        r.removed@ == absent_entries(base@, head@),
        r.added@ == absent_entries(head@, base@),
        r.common@ == matched_entries(base@, head@),
{
    let mut removed: Vec<(String, String)> = Vec::new();
    let mut common: Vec<(String, String, String)> = Vec::new();
    let mut added: Vec<(String, String)> = Vec::new();

    let mut i: usize = 0;
    while i < base.len()
        invariant
            i <= base@.len(),
            unique_keys(base@),
            unique_keys(head@),
            removed@ == absent_entries(base@.take(i as int), head@),
            common@ == matched_entries(base@.take(i as int), head@),
        decreases base@.len() - i,
    {
        let ghost t = base@.take(i as int);
        let ghost x = base@[i as int];
        let e = &base[i];
        match find_key(head, &e.0) {
            Some(j) => {
                proof {
                    lemma_skey_index(head@, x.0@, j as int);
                }
                common.push((e.0.clone(), e.1.clone(), head[j].1.clone()));
            },
            None => {
                removed.push((e.0.clone(), e.1.clone()));
            },
        }
        proof {
            assert(base@.take(i as int + 1) =~= t.push(x));
            lemma_absent_push(t, x, head@);
            lemma_matched_push(t, x, head@);
        }
        i += 1;
    }
    proof {
        assert(base@.take(base@.len() as int) =~= base@);
    }

    let mut h: usize = 0;
    while h < head.len()
        invariant
            h <= head@.len(),
            unique_keys(base@),
            unique_keys(head@),
            added@ == absent_entries(head@.take(h as int), base@),
        decreases head@.len() - h,
    {
        let ghost t = head@.take(h as int);
        let ghost x = head@[h as int];
        let e = &head[h];
        match find_key(base, &e.0) {
            Some(_) => {},
            None => {
                added.push((e.0.clone(), e.1.clone()));
            },
        }
        proof {
            assert(head@.take(h as int + 1) =~= t.push(x));
            lemma_absent_push(t, x, base@);
        }
        h += 1;
    }
    proof {
        assert(head@.take(head@.len() as int) =~= head@);
    }

    MapSplit { removed, common, added }
}

} // verus!
