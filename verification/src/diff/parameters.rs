use vstd::prelude::*;

use crate::diff::parameter::parameter_differs;
use crate::diff::parameter::parameter_pair_supported;
use crate::diff::parameter::ParameterDiff;
use crate::diff::DiffError;
use crate::keyed::absent_entries;
use crate::keyed::changed_triples;
use crate::keyed::has_skey;
use crate::keyed::lemma_skey_index;
use crate::keyed::map_split;
use crate::keyed::matched_entries;
use crate::keyed::slookup;
use crate::keyed::unique_keys;
use crate::openapi::parameter::parameter_identity;
use crate::openapi::parameter::parameters_well_formed;
use crate::openapi::parameter::unique_parameter_identities;
use crate::openapi::parameter::Parameter;
use crate::openapi::reference::ReferenceOr;

verus! {

/// An identity occurs among the parameters `s`.
pub open spec fn pid_in(s: Seq<ReferenceOr<Parameter>>, k: Seq<char>) -> bool {
    exists|i: int| 0 <= i < s.len() && parameter_identity(#[trigger] s[i]) == k
}

/// Some index of a parameter with identity `k` (unique when identities are).
pub open spec fn pid_index(s: Seq<ReferenceOr<Parameter>>, k: Seq<char>) -> int {
    choose|i: int| 0 <= i < s.len() && parameter_identity(#[trigger] s[i]) == k
}

/// The parameter stored under identity `k`.
pub open spec fn pid_lookup(s: Seq<ReferenceOr<Parameter>>, k: Seq<char>) -> ReferenceOr<Parameter> {
    s[pid_index(s, k)]
}

/// The parameters of `base` whose identity does not occur in `head`, in
/// `base` order.
pub open spec fn params_missing(
    base: Seq<ReferenceOr<Parameter>>,
    head: Seq<ReferenceOr<Parameter>>,
) -> Seq<ReferenceOr<Parameter>>
    decreases base.len(),
{
    if base.len() == 0 {
        Seq::empty()
    } else {
        let rest = params_missing(base.drop_last(), head);
        if !pid_in(head, parameter_identity(base.last())) {
            rest.push(base.last())
        } else {
            rest
        }
    }
}

/// A matched pair of parameter positions can be compared: both inline and
/// each in the plain-schema form. Two references matched under one
/// identity cannot be compared by this version.
pub open spec fn param_pair_supported(x: ReferenceOr<Parameter>, y: ReferenceOr<Parameter>) -> bool {
    match (x, y) {
        (ReferenceOr::Item(a), ReferenceOr::Item(b)) => parameter_pair_supported(a, b),
        _ => false,
    }
}

/// A matched pair of inline parameters differs.
pub open spec fn param_pair_differs(x: ReferenceOr<Parameter>, y: ReferenceOr<Parameter>) -> bool {
    match (x, y) {
        (ReferenceOr::Item(a), ReferenceOr::Item(b)) => parameter_differs(a, b),
        _ => false,
    }
}

/// The pair difference predicate as one shared function value.
pub open spec fn param_pair_differs_fn() -> spec_fn(
    ReferenceOr<Parameter>,
    ReferenceOr<Parameter>,
) -> bool {
    |x: ReferenceOr<Parameter>, y: ReferenceOr<Parameter>| param_pair_differs(x, y)
}

/// The parameters of `base` kept under their identity in `head` with a
/// differing counterpart, in `base` order.
pub open spec fn params_changed_list(
    base: Seq<ReferenceOr<Parameter>>,
    head: Seq<ReferenceOr<Parameter>>,
) -> Seq<ReferenceOr<Parameter>>
    decreases base.len(),
{
    if base.len() == 0 {
        Seq::empty()
    } else {
        let rest = params_changed_list(base.drop_last(), head);
        let k = parameter_identity(base.last());
        if pid_in(head, k) && param_pair_differs(base.last(), pid_lookup(head, k)) {
            rest.push(base.last())
        } else {
            rest
        }
    }
}

/// Every parameter kept under its identity can be compared.
pub open spec fn params_supported(
    base: Seq<ReferenceOr<Parameter>>,
    head: Seq<ReferenceOr<Parameter>>,
) -> bool {
    forall|j: int|
        0 <= j < base.len() && pid_in(head, parameter_identity(#[trigger] base[j]))
            ==> param_pair_supported(base[j], pid_lookup(head, parameter_identity(base[j])))
}

/// Two parameter lists differ: an identity is new, gone, or kept with a
/// differing parameter.
pub open spec fn params_differ(
    base: Seq<ReferenceOr<Parameter>>,
    head: Seq<ReferenceOr<Parameter>>,
) -> bool {
    ||| params_missing(base, head).len() > 0
    ||| params_missing(head, base).len() > 0
    ||| params_changed_list(base, head).len() > 0
}

/// Entries that key each parameter by its identity string.
pub open spec fn keys_match(
    pa: Seq<ReferenceOr<Parameter>>,
    ka: Seq<(String, ReferenceOr<Parameter>)>,
) -> bool {
    ka.len() == pa.len() && (forall|i: int|
        0 <= i < pa.len() ==> (#[trigger] ka[i]).1 == pa[i] && ka[i].0@ == parameter_identity(
            pa[i],
        ))
}

/// Key membership and lookup over keyed entries agree with identity
/// membership and lookup over the parameter list.
pub proof fn lemma_pid_membership(
    pa: Seq<ReferenceOr<Parameter>>,
    ka: Seq<(String, ReferenceOr<Parameter>)>,
)
    requires
        keys_match(pa, ka),
        unique_parameter_identities(pa),
    ensures
        unique_keys(ka),
        forall|k: Seq<char>| #[trigger] has_skey(ka, k) == pid_in(pa, k),
        forall|k: Seq<char>| #[trigger] pid_in(pa, k) ==> slookup(ka, k) == pid_lookup(pa, k),
{
    assert forall|k: Seq<char>| #[trigger] has_skey(ka, k) == pid_in(pa, k) by {
        if has_skey(ka, k) {
            let i = choose|i: int| 0 <= i < ka.len() && ka[i].0@ == k;
            assert(parameter_identity(pa[i]) == k);
        }
        if pid_in(pa, k) {
            let i = choose|i: int| 0 <= i < pa.len() && parameter_identity(#[trigger] pa[i]) == k;
            assert(ka[i].0@ == k);
        }
    }
    assert forall|k: Seq<char>| #[trigger] pid_in(pa, k) implies slookup(ka, k) == pid_lookup(
        pa,
        k,
    ) by {
        let i = pid_index(pa, k);
        assert(0 <= i < pa.len() && parameter_identity(pa[i]) == k);
        assert(ka[i].0@ == k);
        lemma_skey_index(ka, k, i);
    }
}

/// The split of the keyed entries computes exactly the identity-level
/// absent and changed lists.
pub proof fn lemma_pid_split(
    pa: Seq<ReferenceOr<Parameter>>,
    ka: Seq<(String, ReferenceOr<Parameter>)>,
    pb: Seq<ReferenceOr<Parameter>>,
    kb: Seq<(String, ReferenceOr<Parameter>)>,
)
    requires
        keys_match(pa, ka),
        keys_match(pb, kb),
        unique_parameter_identities(pa),
        unique_parameter_identities(pb),
    ensures
        absent_entries(ka, kb).map_values(|e: (String, ReferenceOr<Parameter>)| e.1)
            == params_missing(pa, pb),
        changed_triples(matched_entries(ka, kb), param_pair_differs_fn()).len()
            == params_changed_list(pa, pb).len(),
        forall|i: int|
            #![trigger params_changed_list(pa, pb)[i]]
            0 <= i < params_changed_list(pa, pb).len() ==> changed_triples(
                matched_entries(ka, kb),
                param_pair_differs_fn(),
            )[i].0@ == parameter_identity(params_changed_list(pa, pb)[i]),
    decreases pa.len(),
{
    lemma_pid_membership(pb, kb);
    if pa.len() == 0 {
        assert(absent_entries(ka, kb).map_values(|e: (String, ReferenceOr<Parameter>)| e.1)
            =~= params_missing(pa, pb));
    } else {
        let pa0 = pa.drop_last();
        let ka0 = ka.drop_last();
        assert(keys_match(pa0, ka0)) by {
            assert(forall|i: int| 0 <= i < pa0.len() ==> #[trigger] ka0[i] == ka[i] && pa0[i] == pa[i]);
        }
        assert(unique_parameter_identities(pa0)) by {
            assert(forall|i: int| 0 <= i < pa0.len() ==> #[trigger] pa0[i] == pa[i]);
        }
        lemma_pid_split(pa0, ka0, pb, kb);
        let x = ka.last();
        let px = pa.last();
        assert(x.1 == px && x.0@ == parameter_identity(px));
        assert(pa0.len() == pa.len() - 1);
        // Unfold one step on each side.
        assert(absent_entries(ka, kb) == if !has_skey(kb, x.0@) {
            absent_entries(ka0, kb).push(x)
        } else {
            absent_entries(ka0, kb)
        });
        assert(params_missing(pa, pb) == if !pid_in(pb, parameter_identity(px)) {
            params_missing(pa0, pb).push(px)
        } else {
            params_missing(pa0, pb)
        });
        assert(has_skey(kb, x.0@) == pid_in(pb, parameter_identity(px)));
        if !has_skey(kb, x.0@) {
            assert(absent_entries(ka, kb).map_values(|e: (String, ReferenceOr<Parameter>)| e.1)
                =~= absent_entries(ka0, kb).map_values(|e: (String, ReferenceOr<Parameter>)| e.1).push(
                x.1,
            ));
        } else {
            assert(absent_entries(ka, kb).map_values(|e: (String, ReferenceOr<Parameter>)| e.1)
                == absent_entries(ka0, kb).map_values(|e: (String, ReferenceOr<Parameter>)| e.1));
        }
        // Matched and changed: one step.
        assert(matched_entries(ka, kb) == if has_skey(kb, x.0@) {
            matched_entries(ka0, kb).push((x.0, x.1, slookup(kb, x.0@)))
        } else {
            matched_entries(ka0, kb)
        });
        let m0 = matched_entries(ka0, kb);
        if has_skey(kb, x.0@) {
            let triple = (x.0, x.1, slookup(kb, x.0@));
            assert(matched_entries(ka, kb).drop_last() =~= m0);
            assert(changed_triples(matched_entries(ka, kb), param_pair_differs_fn())
                == if param_pair_differs_fn()(triple.1, triple.2) {
                changed_triples(m0, param_pair_differs_fn()).push(triple)
            } else {
                changed_triples(m0, param_pair_differs_fn())
            }) by {
                crate::keyed::lemma_changed_push(m0, triple, param_pair_differs_fn());
                assert(m0.push(triple) =~= matched_entries(ka, kb));
            }
            assert(slookup(kb, x.0@) == pid_lookup(pb, parameter_identity(px)));
            assert(param_pair_differs_fn()(triple.1, triple.2) == param_pair_differs(
                px,
                pid_lookup(pb, parameter_identity(px)),
            ));
            assert(params_changed_list(pa, pb) == if pid_in(pb, parameter_identity(px))
                && param_pair_differs(px, pid_lookup(pb, parameter_identity(px))) {
                params_changed_list(pa0, pb).push(px)
            } else {
                params_changed_list(pa0, pb)
            });
        } else {
            assert(changed_triples(matched_entries(ka, kb), param_pair_differs_fn())
                == changed_triples(m0, param_pair_differs_fn()));
            assert(params_changed_list(pa, pb) == params_changed_list(pa0, pb));
        }
        assert forall|i: int|
            #![trigger params_changed_list(pa, pb)[i]]
            0 <= i < params_changed_list(pa, pb).len() implies changed_triples(
            matched_entries(ka, kb),
            param_pair_differs_fn(),
        )[i].0@ == parameter_identity(params_changed_list(pa, pb)[i]) by {
            let ct = changed_triples(matched_entries(ka, kb), param_pair_differs_fn());
            let cl = params_changed_list(pa, pb);
            let ct0 = changed_triples(m0, param_pair_differs_fn());
            let cl0 = params_changed_list(pa0, pb);
            if i < cl0.len() {
                assert(cl[i] == cl0[i]);
                assert(ct[i] == ct0[i]);
            }
        }
    }
}

/// The comparison of two parameter lists, matched by identity. Added and
/// removed entries keep the declaration order of the side they came from.
#[derive(Debug)]
pub struct ParametersDiff {
    pub added: Vec<ReferenceOr<Parameter>>,
    pub removed: Vec<ReferenceOr<Parameter>>,
    pub changed: Vec<(String, ParameterDiff)>,
}

impl ParametersDiff {
    pub open spec fn is_diff_of(
        self,
        pa: Seq<ReferenceOr<Parameter>>,
        pb: Seq<ReferenceOr<Parameter>>,
    ) -> bool {
        &&& self.added@ == params_missing(pb, pa)
        &&& self.removed@ == params_missing(pa, pb)
        &&& self.changed@.len() == params_changed_list(pa, pb).len()
        &&& (forall|i: int|
            #![trigger self.changed@[i]]
            0 <= i < self.changed@.len() ==> {
                &&& self.changed@[i].0@ == parameter_identity(params_changed_list(pa, pb)[i])
                &&& pid_in(pa, self.changed@[i].0@)
                &&& pid_in(pb, self.changed@[i].0@)
                &&& match (
                    pid_lookup(pa, self.changed@[i].0@),
                    pid_lookup(pb, self.changed@[i].0@),
                ) {
                    (ReferenceOr::Item(x), ReferenceOr::Item(y)) => self.changed@[i].1.is_diff_of(
                        x,
                        y,
                    ),
                    _ => false,
                }
            })
    }

    pub open spec fn spec_has_changes(self) -> bool {
        self.added@.len() > 0 || self.removed@.len() > 0 || self.changed@.len() > 0
    }

    pub fn has_changes(&self) -> (r: bool)
        ensures
            r == self.spec_has_changes(),
    {
        self.added.len() > 0 || self.removed.len() > 0 || self.changed.len() > 0
    }

    /// The name of an inline parameter.
    pub fn param_name(param: &Parameter) -> (r: String)
        ensures
            r@ == param.data_of().name@,
    {
        ParameterDiff::parameter_data(param).name.clone()
    }

    /// Compares two parameter lists. Parameters are matched by identity:
    /// the reference string of a `$ref` entry, else location and name.
    /// Two references under one identity, and any matched content-based
    /// parameter, cannot be compared by this version. Two references with
    /// different strings are never matched: they are reported as one
    /// removed and one added parameter, whatever they resolve to.
    #[verifier::rlimit(80)]
    #[verifier::loop_isolation(false)]
    pub fn from_params(
        base: Vec<ReferenceOr<Parameter>>,
        head: Vec<ReferenceOr<Parameter>>,
    ) -> (r: Result<ParametersDiff, DiffError>)
        requires
            parameters_well_formed(base@),
            parameters_well_formed(head@),
        ensures
            match r {
                Result::Ok(d) => params_supported(base@, head@) && d.is_diff_of(base@, head@)
                    && d.spec_has_changes() == params_differ(base@, head@),
                Result::Err(e) => !params_supported(base@, head@) && e is UnsupportedFeature,
            },
    {
        let ghost pa = base@;
        let ghost pb = head@;
        let kbase = key_params(base);
        let khead = key_params(head);
        let ghost ka = kbase@;
        let ghost kb = khead@;
        proof {
            lemma_pid_membership(pa, ka);
            lemma_pid_membership(pb, kb);
            lemma_pid_split(pa, ka, pb, kb);
            lemma_pid_split(pb, kb, pa, ka);
        }
        let split = map_split(kbase, khead);
        let removed = unkey_params(split.removed);
        let added = unkey_params(split.added);
        let mut m = split.common;
        let ghost ms = m@;
        let mut changed: Vec<(String, ParameterDiff)> = Vec::new();
        let ghost mut i: int = 0;
        while m.len() > 0
            invariant
                0 <= i <= ms.len(),
                m@ == ms.skip(i),
                ms == matched_entries(ka, kb),
                keys_match(pa, ka),
                keys_match(pb, kb),
                unique_keys(ka),
                unique_keys(kb),
                unique_parameter_identities(pa),
                unique_parameter_identities(pb),
                parameters_well_formed(pa),
                parameters_well_formed(pb),
                changed@.len() == changed_triples(ms.take(i), param_pair_differs_fn()).len(),
                forall|k: int|
                    0 <= k < changed@.len() ==> (#[trigger] changed@[k]).0 == changed_triples(
                        ms.take(i),
                        param_pair_differs_fn(),
                    )[k].0,
                forall|k: int|
                    #![trigger changed@[k]]
                    0 <= k < changed@.len() ==> {
                        &&& pid_in(pa, changed@[k].0@)
                        &&& pid_in(pb, changed@[k].0@)
                        &&& match (
                            pid_lookup(pa, changed@[k].0@),
                            pid_lookup(pb, changed@[k].0@),
                        ) {
                            (ReferenceOr::Item(x), ReferenceOr::Item(y)) => changed@[k].1.is_diff_of(
                                x,
                                y,
                            ),
                            _ => false,
                        }
                    },
                forall|k: int| 0 <= k < i ==> param_pair_supported((#[trigger] ms[k]).1, ms[k].2),
            decreases m@.len(),
        {
            proof {
                assert(ms.skip(i)[0] == ms[i]);
                assert(ms.skip(i).remove(0) =~= ms.skip(i + 1));
            }
            let t = m.remove(0);
            let ghost tk = t.0@;
            proof {
                crate::keyed::lemma_matched_members(ka, kb);
                assert(t == ms[i]);
                assert(exists|j: int| 0 <= j < ka.len() && ms[i].0 == ka[j].0 && ms[i].1 == ka[j].1);
                let jb = choose|j: int|
                    0 <= j < ka.len() && ms[i].0 == ka[j].0 && ms[i].1 == ka[j].1;
                lemma_skey_index(ka, tk, jb);
                assert(ms[i].1 == slookup(ka, tk));
                assert(has_skey(kb, tk));
                assert(ms[i].2 == slookup(kb, tk));
                assert(pid_in(pa, tk) && pid_in(pb, tk));
                assert(ms[i].1 == pid_lookup(pa, tk));
                assert(ms[i].2 == pid_lookup(pb, tk));
                let ja = pid_index(pa, tk);
                assert(0 <= ja < pa.len() && pa[ja] == pid_lookup(pa, tk));
                let jb2 = pid_index(pb, tk);
                assert(0 <= jb2 < pb.len() && pb[jb2] == pid_lookup(pb, tk));
            }
            let key = t.0;
            match (t.1, t.2) {
                (ReferenceOr::Item(x), ReferenceOr::Item(y)) => {
                    match ParameterDiff::from_params(x, y) {
                        Result::Ok(d) => {
                            let keep = d.has_changes();
                            proof {
                                assert(ms.take(i + 1) =~= ms.take(i).push(ms[i]));
                                crate::keyed::lemma_changed_push(
                                    ms.take(i),
                                    ms[i],
                                    param_pair_differs_fn(),
                                );
                            }
                            if keep {
                                let ghost c0 = changed@;
                                changed.push((key, d));
                                proof {
                                    assert forall|k: int|
                                        #![trigger changed@[k]]
                                        0 <= k < changed@.len() implies {
                                        &&& pid_in(pa, changed@[k].0@)
                                        &&& pid_in(pb, changed@[k].0@)
                                        &&& match (
                                            pid_lookup(pa, changed@[k].0@),
                                            pid_lookup(pb, changed@[k].0@),
                                        ) {
                                            (
                                                ReferenceOr::Item(xx),
                                                ReferenceOr::Item(yy),
                                            ) => changed@[k].1.is_diff_of(xx, yy),
                                            _ => false,
                                        }
                                    } by {
                                        if k < c0.len() {
                                            assert(changed@[k] == c0[k]);
                                        } else {
                                            assert(changed@[k] == (ms[i].0, d));
                                            assert(changed@[k].0@ == tk);
                                        }
                                    }
                                }
                            }
                            proof {
                                i = i + 1;
                            }
                        },
                        Result::Err(e) => {
                            proof {
                                let ja = pid_index(pa, tk);
                                assert(!param_pair_supported(pa[ja], pid_lookup(pb, tk)));
                                assert(pid_in(pb, parameter_identity(pa[ja])));
                            }
                            return Result::Err(e);
                        },
                    }
                },
                (ReferenceOr::Reference { reference }, _) => {
                    proof {
                        let ja = pid_index(pa, tk);
                        assert(!param_pair_supported(pa[ja], pid_lookup(pb, tk)));
                        assert(pid_in(pb, parameter_identity(pa[ja])));
                    }
                    return Result::Err(
                        crate::diff::unsupported(
                            "cannot compare matched referenced parameter ",
                            &reference,
                        ),
                    );
                },
                (_, ReferenceOr::Reference { reference }) => {
                    proof {
                        let ja = pid_index(pa, tk);
                        assert(!param_pair_supported(pa[ja], pid_lookup(pb, tk)));
                        assert(pid_in(pb, parameter_identity(pa[ja])));
                    }
                    return Result::Err(
                        crate::diff::unsupported(
                            "cannot compare matched referenced parameter ",
                            &reference,
                        ),
                    );
                },
            }
        }
        proof {
            assert(i == ms.len());
            assert(ms.take(i) =~= ms);
        }
        let r = ParametersDiff { added, removed, changed };
        proof {
            assert forall|j: int|
                0 <= j < pa.len() && pid_in(pb, parameter_identity(#[trigger] pa[j]))
                implies param_pair_supported(pa[j], pid_lookup(pb, parameter_identity(pa[j]))) by {
                crate::keyed::lemma_matched_members(ka, kb);
                let k = parameter_identity(pa[j]);
                assert(ka[j].0@ == k && ka[j].1 == pa[j]);
                assert(has_skey(kb, k));
                assert(exists|w: int|
                    0 <= w < ms.len() && #[trigger] ms[w] == (ka[j].0, ka[j].1, slookup(kb, k)));
                let w = choose|w: int|
                    0 <= w < ms.len() && #[trigger] ms[w] == (ka[j].0, ka[j].1, slookup(kb, k));
                assert(param_pair_supported(ms[w].1, ms[w].2));
                assert(unique_parameter_identities(pa));
                lemma_skey_index(ka, k, j);
                assert(pid_lookup(pa, k) == slookup(ka, k));
                assert(pa[j] == slookup(ka, k));
                assert(slookup(kb, k) == pid_lookup(pb, k));
            }
            crate::keyed::lemma_changed_members(ms, param_pair_differs_fn());
        }
        Result::Ok(r)
    }
}

/// Keys each parameter by its identity string.
fn key_params(v: Vec<ReferenceOr<Parameter>>) -> (r: Vec<(String, ReferenceOr<Parameter>)>)
    ensures
        keys_match(v@, r@),
{
    let ghost v0 = v@;
    let mut v = v;
    let mut r: Vec<(String, ReferenceOr<Parameter>)> = Vec::new();
    let ghost mut i: int = 0;
    while v.len() > 0
        invariant
            0 <= i <= v0.len(),
            v@ == v0.skip(i),
            r@.len() == i,
            forall|j: int|
                0 <= j < i ==> (#[trigger] r@[j]).1 == v0[j] && r@[j].0@ == parameter_identity(
                    v0[j],
                ),
        decreases v@.len(),
    {
        proof {
            assert(v0.skip(i)[0] == v0[i]);
            assert(v0.skip(i).remove(0) =~= v0.skip(i + 1));
        }
        let p = v.remove(0);
        let key = param_key(&p);
        r.push((key, p));
        proof {
            i = i + 1;
        }
    }
    r
}

/// Strips the identity keys off again.
fn unkey_params(v: Vec<(String, ReferenceOr<Parameter>)>) -> (r: Vec<ReferenceOr<Parameter>>)
    ensures
        r@ == v@.map_values(|e: (String, ReferenceOr<Parameter>)| e.1),
{
    let ghost v0 = v@;
    let mut v = v;
    let mut r: Vec<ReferenceOr<Parameter>> = Vec::new();
    let ghost mut i: int = 0;
    while v.len() > 0
        invariant
            0 <= i <= v0.len(),
            v@ == v0.skip(i),
            r@.len() == i,
            forall|j: int| 0 <= j < i ==> #[trigger] r@[j] == v0[j].1,
        decreases v@.len(),
    {
        proof {
            assert(v0.skip(i)[0] == v0[i]);
            assert(v0.skip(i).remove(0) =~= v0.skip(i + 1));
        }
        let e = v.remove(0);
        r.push(e.1);
        proof {
            i = i + 1;
        }
    }
    proof {
        assert(r@ =~= v0.map_values(|e: (String, ReferenceOr<Parameter>)| e.1));
    }
    r
}

/// The identity string of a parameter position.
fn param_key(p: &ReferenceOr<Parameter>) -> (r: String)
    ensures
        r@ == parameter_identity(*p),
{
    match p {
        ReferenceOr::Reference { reference } => {
            let s = String::new();
            let s = s.concat("$ref:");
            let s = s.concat(reference.as_str());
            proof {
                assert(Seq::<char>::empty() + "$ref:"@ =~= "$ref:"@);
            }
            s
        },
        ReferenceOr::Item(param) => {
            let s = ParameterDiff::parameter_type(param);
            let s = s.concat(":");
            let s = s.concat(ParameterDiff::parameter_data(param).name.as_str());
            s
        },
    }
}

} // verus!
