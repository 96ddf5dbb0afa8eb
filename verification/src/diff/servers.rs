use vstd::prelude::*;

use crate::diff::common::opt_str_eq;
use crate::diff::common::OptionalStringDiff;
use crate::diff::extensions::extensions_differ;
use crate::diff::extensions::ExtensionsDiff;
use crate::keyed::absent_entries;
use crate::keyed::changed_triples;
use crate::keyed::has_skey;
use crate::keyed::lemma_absent_members;
use crate::keyed::lemma_changed_exists;
use crate::keyed::lemma_changed_push;
use crate::keyed::lemma_matched_members;
use crate::keyed::lemma_skey_index;
use crate::keyed::map_split;
use crate::keyed::matched_entries;
use crate::keyed::skey_index;
use crate::keyed::slookup;
use crate::keyed::unique_keys;
use crate::openapi::server::unique_server_urls;
use crate::openapi::server::Server;

verus! {

/// Two servers matched by URL differ in description or extensions.
pub open spec fn server_differs(a: Server, b: Server) -> bool {
    ||| !opt_str_eq(a.description, b.description)
    ||| extensions_differ(a.extensions@, b.extensions@)
}

/// The server difference predicate as one shared function value.
pub open spec fn server_differs_fn() -> spec_fn(Server, Server) -> bool {
    |a: Server, b: Server| server_differs(a, b)
}

/// The server list as an ordered mapping keyed by URL.
pub open spec fn server_entries(s: Seq<Server>) -> Seq<(String, Server)> {
    s.map_values(|x: Server| (x.url, x))
}

/// Two server lists differ: a URL is new, gone, or kept with a differing
/// server.
pub open spec fn servers_differ(sa: Seq<Server>, sb: Seq<Server>) -> bool {
    let ca = server_entries(sa);
    let cb = server_entries(sb);
    ||| (exists|j: int| 0 <= j < ca.len() && !has_skey(cb, (#[trigger] ca[j]).0@))
    ||| (exists|j: int| 0 <= j < cb.len() && !has_skey(ca, (#[trigger] cb[j]).0@))
    ||| (exists|j: int|
        0 <= j < ca.len() && has_skey(cb, (#[trigger] ca[j]).0@) && server_differs(
            ca[j].1,
            slookup(cb, ca[j].0@),
        ))
}

pub open spec fn servers_well_formed(s: Seq<Server>) -> bool {
    &&& unique_server_urls(s)
    &&& forall|i: int| 0 <= i < s.len() ==> (#[trigger] s[i]).well_formed()
}

/// The change of one server kept under its URL.
#[derive(Debug)]
pub struct ServerDiff {
    pub description: Option<OptionalStringDiff>,
    pub extensions: Option<ExtensionsDiff>,
}

impl ServerDiff {
    pub open spec fn is_diff_of(self, a: Server, b: Server) -> bool {
        &&& self.description == OptionalStringDiff::spec_from_strings(a.description, b.description)
        &&& (self.extensions is Some <==> extensions_differ(a.extensions@, b.extensions@))
        &&& match self.extensions {
            Option::Some(e) => e.is_diff_of(a.extensions@, b.extensions@),
            Option::None => true,
        }
    }

    pub open spec fn spec_has_changes(self) -> bool {
        self.description is Some || self.extensions is Some
    }

    pub fn has_changes(&self) -> (r: bool)
        ensures
            r == self.spec_has_changes(),
    {
        self.description.is_some() || self.extensions.is_some()
    }

    /// Compares two servers matched under one URL. Server variables take
    /// no part in the comparison.
    pub fn from_servers(base: &Server, head: &Server) -> (r: Self)
        requires
            base.well_formed(),
            head.well_formed(),
        ensures
            r.is_diff_of(*base, *head),
            r.spec_has_changes() == server_differs(*base, *head),
    {
        let description = OptionalStringDiff::from_strings(&base.description, &head.description);
        let ed = ExtensionsDiff::from_extensions(&base.extensions, &head.extensions);
        let keep = ed.has_changes();
        proof {
            crate::diff::extensions::lemma_extensions_diff_changes(
                ed,
                base.extensions@,
                head.extensions@,
            );
        }
        ServerDiff {
            description,
            extensions: if keep {
                Option::Some(ed)
            } else {
                Option::None
            },
        }
    }
}

/// The comparison of two server lists, matched by URL. Added and removed
/// servers keep the declaration order of the side they came from.
#[derive(Debug)]
pub struct ServersDiff {
    pub added: Vec<Server>,
    pub removed: Vec<Server>,
    pub changed: Vec<(String, ServerDiff)>,
}

impl ServersDiff {
    pub open spec fn is_diff_of(self, sa: Seq<Server>, sb: Seq<Server>) -> bool {
        let ca = server_entries(sa);
        let cb = server_entries(sb);
        let ct = changed_triples(matched_entries(ca, cb), server_differs_fn());
        &&& self.added@.len() == absent_entries(cb, ca).len()
        &&& (forall|i: int|
            0 <= i < self.added@.len() ==> #[trigger] self.added@[i] == absent_entries(cb, ca)[i].1)
        &&& self.removed@.len() == absent_entries(ca, cb).len()
        &&& (forall|i: int|
            0 <= i < self.removed@.len() ==> #[trigger] self.removed@[i] == absent_entries(
                ca,
                cb,
            )[i].1)
        &&& self.changed@.len() == ct.len()
        &&& (forall|i: int| 0 <= i < ct.len() ==> (#[trigger] self.changed@[i]).0 == ct[i].0)
        &&& (forall|i: int|
            #![trigger self.changed@[i]]
            0 <= i < self.changed@.len() ==> has_skey(ca, self.changed@[i].0@) && has_skey(
                cb,
                self.changed@[i].0@,
            ) && self.changed@[i].1.is_diff_of(
                slookup(ca, self.changed@[i].0@),
                slookup(cb, self.changed@[i].0@),
            ))
    }

    pub open spec fn spec_has_changes(self) -> bool {
        self.added@.len() > 0 || self.removed@.len() > 0 || self.changed@.len() > 0
    }

    pub fn has_changes(&self) -> (r: bool)
        ensures
            r == self.spec_has_changes(),
    {
        self.added.len() > 0 || self.removed.len() > 0 || self.changed.len() > 0
    }

    /// Compares two server lists, matching servers by URL.
    #[verifier::rlimit(50)]
    #[verifier::loop_isolation(false)]
    pub fn from_servers(base: Vec<Server>, head: Vec<Server>) -> (r: ServersDiff)
        requires
            servers_well_formed(base@),
            servers_well_formed(head@),
        ensures
            r.is_diff_of(base@, head@),
            r.spec_has_changes() == servers_differ(base@, head@),
    {
        let ghost sa = base@;
        let ghost sb = head@;
        let kbase = key_servers(base);
        let khead = key_servers(head);
        let ghost ca = server_entries(sa);
        let ghost cb = server_entries(sb);
        proof {
            assert(kbase@ =~= ca);
            assert(khead@ =~= cb);
            assert(unique_keys(ca));
            assert(unique_keys(cb));
        }
        let split = map_split(kbase, khead);
        let added = unkey_servers(split.added);
        let removed = unkey_servers(split.removed);
        let mut m = split.common;
        let ghost ms = m@;
        let mut changed: Vec<(String, ServerDiff)> = Vec::new();
        let ghost mut i: int = 0;
        while m.len() > 0
            invariant
                0 <= i <= ms.len(),
                m@ == ms.skip(i),
                ms == matched_entries(ca, cb),
                ca == server_entries(sa),
                cb == server_entries(sb),
                unique_keys(ca),
                unique_keys(cb),
                servers_well_formed(sa),
                servers_well_formed(sb),
                changed@.len() == changed_triples(ms.take(i), server_differs_fn()).len(),
                forall|k: int|
                    0 <= k < changed@.len() ==> (#[trigger] changed@[k]).0 == changed_triples(
                        ms.take(i),
                        server_differs_fn(),
                    )[k].0,
                forall|k: int|
                    #![trigger changed@[k]]
                    0 <= k < changed@.len() ==> has_skey(ca, changed@[k].0@) && has_skey(
                        cb,
                        changed@[k].0@,
                    ) && changed@[k].1.is_diff_of(
                        slookup(ca, changed@[k].0@),
                        slookup(cb, changed@[k].0@),
                    ),
            decreases m@.len(),
        {
            proof {
                assert(ms.skip(i)[0] == ms[i]);
                assert(ms.skip(i).remove(0) =~= ms.skip(i + 1));
            }
            let t = m.remove(0);
            let ghost tk = t.0@;
            proof {
                lemma_matched_members(ca, cb);
                assert(t == ms[i]);
                assert(exists|j: int| 0 <= j < ca.len() && ms[i].0 == ca[j].0 && ms[i].1 == ca[j].1);
                let jb = choose|j: int|
                    0 <= j < ca.len() && ms[i].0 == ca[j].0 && ms[i].1 == ca[j].1;
                lemma_skey_index(ca, tk, jb);
                assert(ms[i].1 == slookup(ca, tk));
                assert(has_skey(cb, tk));
                let jh = skey_index(cb, tk);
                assert(0 <= jh < cb.len() && cb[jh].0@ == tk);
                assert(ms[i].2 == slookup(cb, tk));
                assert(ms[i].2 == cb[jh].1);
                assert(ca[jb].1 == sa[jb]);
                assert(cb[jh].1 == sb[jh]);
                assert(ms[i].1.well_formed());
                assert(ms[i].2.well_formed());
            }
            let key = t.0;
            let d = ServerDiff::from_servers(&t.1, &t.2);
            let keep = d.has_changes();
            proof {
                assert(ms.take(i + 1) =~= ms.take(i).push(ms[i]));
                lemma_changed_push(ms.take(i), ms[i], server_differs_fn());
            }
            if keep {
                let ghost c0 = changed@;
                changed.push((key, d));
                proof {
                    assert forall|k: int|
                        #![trigger changed@[k]]
                        0 <= k < changed@.len() implies has_skey(ca, changed@[k].0@) && has_skey(
                        cb,
                        changed@[k].0@,
                    ) && changed@[k].1.is_diff_of(
                        slookup(ca, changed@[k].0@),
                        slookup(cb, changed@[k].0@),
                    ) by {
                        if k < c0.len() {
                            assert(changed@[k] == c0[k]);
                        } else {
                            assert(changed@[k] == (ms[i].0, d));
                            assert(changed@[k].0@ == tk);
                        }
                    }
                }
            }
            proof {
                i = i + 1;
            }
        }
        proof {
            assert(i == ms.len());
            assert(ms.take(i) =~= ms);
        }
        let r = ServersDiff { added, removed, changed };
        proof {
            lemma_absent_members(ca, cb);
            lemma_absent_members(cb, ca);
            lemma_changed_exists(ca, cb, server_differs_fn());
            if r.changed@.len() > 0 {
                let j = choose|j: int|
                    0 <= j < ca.len() && has_skey(cb, (#[trigger] ca[j]).0@) && server_differs_fn()(
                        ca[j].1,
                        slookup(cb, ca[j].0@),
                    );
                assert(has_skey(cb, (ca[j]).0@) && server_differs(ca[j].1, slookup(cb, ca[j].0@)));
            }
            if servers_differ(sa, sb) && r.added@.len() == 0 && r.removed@.len() == 0 {
                let j = choose|j: int|
                    0 <= j < ca.len() && has_skey(cb, (#[trigger] ca[j]).0@) && server_differs(
                        ca[j].1,
                        slookup(cb, ca[j].0@),
                    );
                assert(server_differs_fn()(ca[j].1, slookup(cb, ca[j].0@)));
                assert(r.changed@.len() > 0);
            }
        }
        r
    }
}

/// Keys each server by its URL.
fn key_servers(v: Vec<Server>) -> (r: Vec<(String, Server)>)
    ensures
        r@.len() == v@.len(),
        forall|j: int| 0 <= j < v@.len() ==> (#[trigger] r@[j]).1 == v@[j] && r@[j].0 == v@[j].url,
{
    let ghost v0 = v@;
    let mut v = v;
    let mut r: Vec<(String, Server)> = Vec::new();
    let ghost mut i: int = 0;
    while v.len() > 0
        invariant
            0 <= i <= v0.len(),
            v@ == v0.skip(i),
            r@.len() == i,
            forall|j: int| 0 <= j < i ==> (#[trigger] r@[j]).1 == v0[j] && r@[j].0 == v0[j].url,
        decreases v@.len(),
    {
        proof {
            assert(v0.skip(i)[0] == v0[i]);
            assert(v0.skip(i).remove(0) =~= v0.skip(i + 1));
        }
        let s = v.remove(0);
        let key = s.url.clone();
        r.push((key, s));
        proof {
            i = i + 1;
        }
    }
    r
}

/// Strips the URL keys off again.
fn unkey_servers(v: Vec<(String, Server)>) -> (r: Vec<Server>)
    ensures
        r@.len() == v@.len(),
        forall|j: int| 0 <= j < v@.len() ==> #[trigger] r@[j] == v@[j].1,
{
    let ghost v0 = v@;
    let mut v = v;
    let mut r: Vec<Server> = Vec::new();
    let ghost mut i: int = 0;
    while v.len() > 0
        invariant
            0 <= i <= v0.len(),
            v@ == v0.skip(i),
            r@.len() == i,
            forall|j: int| 0 <= j < i ==> #[trigger] r@[j] == v0[j].1,
        decreases v@.len(),
    {
        proof {
            assert(v0.skip(i)[0] == v0[i]);
            assert(v0.skip(i).remove(0) =~= v0.skip(i + 1));
        }
        let e = v.remove(0);
        r.push(e.1);
        proof {
            i = i + 1;
        }
    }
    r
}

} // verus!
