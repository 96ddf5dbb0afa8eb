use vstd::prelude::*;

use crate::diff::media_type::media_type_differs;
use crate::diff::media_type::media_type_differs_fn;
use crate::diff::media_type::media_type_pair_supported;
use crate::diff::media_type::MediaTypeDiff;
use crate::diff::DiffError;
use crate::keyed::absent_entries;
use crate::keyed::changed_triples;
use crate::keyed::has_skey;
use crate::keyed::lemma_absent_members;
use crate::keyed::lemma_changed_exists;
use crate::keyed::lemma_changed_push;
use crate::keyed::lemma_matched_members;
use crate::keyed::lemma_skey_index;
use crate::keyed::map_split;
use crate::keyed::matched_entries;
use crate::keyed::skey_index;
use crate::keyed::slookup;
use crate::keyed::unique_keys;
use crate::openapi::media_type::content_well_formed;
use crate::openapi::media_type::MediaType;

verus! {

/// Two content mappings differ: a media type is new, gone, or kept with a
/// changed schema.
pub open spec fn content_differs(ca: Seq<(String, MediaType)>, cb: Seq<(String, MediaType)>) -> bool {
    ||| (exists|j: int| 0 <= j < ca.len() && !has_skey(cb, (#[trigger] ca[j]).0@))
    ||| (exists|j: int| 0 <= j < cb.len() && !has_skey(ca, (#[trigger] cb[j]).0@))
    ||| (exists|j: int|
        0 <= j < ca.len() && has_skey(cb, (#[trigger] ca[j]).0@) && media_type_differs(
            ca[j].1,
            slookup(cb, ca[j].0@),
        ))
}

/// Every media type kept on both sides can be compared.
pub open spec fn content_supported(ca: Seq<(String, MediaType)>, cb: Seq<(String, MediaType)>) -> bool {
    forall|k: int|
        #![trigger matched_entries(ca, cb)[k]]
        0 <= k < matched_entries(ca, cb).len() ==> media_type_pair_supported(
            matched_entries(ca, cb)[k].1,
            matched_entries(ca, cb)[k].2,
        )
}

/// The comparison of two content mappings, keyed by media-type string.
#[derive(Debug)]
pub struct ContentDiff {
    pub added: Vec<(String, MediaType)>,
    pub removed: Vec<(String, MediaType)>,
    pub changed: Vec<(String, MediaTypeDiff)>,
}

impl ContentDiff {
    pub open spec fn is_diff_of(self, ca: Seq<(String, MediaType)>, cb: Seq<(String, MediaType)>) -> bool {
        let ct = changed_triples(matched_entries(ca, cb), media_type_differs_fn());
        &&& self.added@ == absent_entries(cb, ca)
        &&& self.removed@ == absent_entries(ca, cb)
        &&& self.changed@.len() == ct.len()
        &&& (forall|i: int| 0 <= i < ct.len() ==> (#[trigger] self.changed@[i]).0 == ct[i].0)
        &&& (forall|i: int|
            #![trigger self.changed@[i]]
            0 <= i < self.changed@.len() ==> has_skey(ca, self.changed@[i].0@) && has_skey(
                cb,
                self.changed@[i].0@,
            ) && self.changed@[i].1.is_diff_of(
                slookup(ca, self.changed@[i].0@),
                slookup(cb, self.changed@[i].0@),
            ))
    }

    pub open spec fn spec_has_changes(self) -> bool {
        self.added@.len() > 0 || self.removed@.len() > 0 || self.changed@.len() > 0
    }

    pub fn has_changes(&self) -> (r: bool)
        ensures
            r == self.spec_has_changes(),
    {
        self.added.len() > 0 || self.removed.len() > 0 || self.changed.len() > 0
    }

    /// Compares two content mappings, comparing kept media types.
    #[verifier::rlimit(50)]
    #[verifier::loop_isolation(false)]
    pub fn from_content(base: Vec<(String, MediaType)>, head: Vec<(String, MediaType)>) -> (r:
        Result<ContentDiff, DiffError>)
        requires
            content_well_formed(base@),
            content_well_formed(head@),
        ensures
            match r {
                Result::Ok(d) => content_supported(base@, head@) && d.is_diff_of(base@, head@)
                    && d.spec_has_changes() == content_differs(base@, head@),
                Result::Err(e) => !content_supported(base@, head@) && e is UnsupportedFeature,
            },
    {
        let ghost base0 = base@;
        let ghost head0 = head@;
        let split = map_split(base, head);
        let mut m = split.common;
        let ghost ms = m@;
        let mut changed: Vec<(String, MediaTypeDiff)> = Vec::new();
        let ghost mut i: int = 0;
        while m.len() > 0
            invariant
                0 <= i <= ms.len(),
                m@ == ms.skip(i),
                ms == matched_entries(base0, head0),
                unique_keys(base0),
                unique_keys(head0),
                content_well_formed(base0),
                content_well_formed(head0),
                changed@.len() == changed_triples(ms.take(i), media_type_differs_fn()).len(),
                forall|k: int|
                    0 <= k < changed@.len() ==> (#[trigger] changed@[k]).0 == changed_triples(
                        ms.take(i),
                        media_type_differs_fn(),
                    )[k].0,
                forall|k: int|
                    #![trigger changed@[k]]
                    0 <= k < changed@.len() ==> has_skey(base0, changed@[k].0@) && has_skey(
                        head0,
                        changed@[k].0@,
                    ) && changed@[k].1.is_diff_of(
                        slookup(base0, changed@[k].0@),
                        slookup(head0, changed@[k].0@),
                    ),
                forall|k: int| 0 <= k < i ==> media_type_pair_supported(
                    (#[trigger] ms[k]).1,
                    ms[k].2,
                ),
            decreases m@.len(),
        {
            proof {
                assert(ms.skip(i)[0] == ms[i]);
                assert(ms.skip(i).remove(0) =~= ms.skip(i + 1));
            }
            let t = m.remove(0);
            let ghost tk = t.0@;
            proof {
                lemma_matched_members(base0, head0);
                assert(t == ms[i]);
                assert(exists|j: int|
                    0 <= j < base0.len() && ms[i].0 == base0[j].0 && ms[i].1 == base0[j].1);
                let jb = choose|j: int|
                    0 <= j < base0.len() && ms[i].0 == base0[j].0 && ms[i].1 == base0[j].1;
                lemma_skey_index(base0, tk, jb);
                assert(ms[i].1 == slookup(base0, tk));
                assert(has_skey(head0, tk));
                let jh = skey_index(head0, tk);
                assert(0 <= jh < head0.len() && head0[jh].0@ == tk);
                assert(ms[i].2 == slookup(head0, tk));
                assert(ms[i].2 == head0[jh].1);
                assert(ms[i].1.well_formed());
                assert(ms[i].2.well_formed());
            }
            let key = t.0;
            match MediaTypeDiff::from_media_types(t.1, t.2) {
                Result::Ok(d) => {
                    let keep = d.has_changes();
                    proof {
                        assert(ms.take(i + 1) =~= ms.take(i).push(ms[i]));
                        lemma_changed_push(ms.take(i), ms[i], media_type_differs_fn());
                    }
                    if keep {
                        let ghost c0 = changed@;
                        changed.push((key, d));
                        proof {
                            assert forall|k: int|
                                #![trigger changed@[k]]
                                0 <= k < changed@.len() implies has_skey(base0, changed@[k].0@)
                                && has_skey(head0, changed@[k].0@) && changed@[k].1.is_diff_of(
                                slookup(base0, changed@[k].0@),
                                slookup(head0, changed@[k].0@),
                            ) by {
                                if k < c0.len() {
                                    assert(changed@[k] == c0[k]);
                                } else {
                                    assert(changed@[k] == (ms[i].0, d));
                                    assert(changed@[k].0@ == tk);
                                }
                            }
                        }
                    }
                    proof {
                        i = i + 1;
                    }
                },
                Result::Err(e) => {
                    proof {
                        assert(ms[i] == matched_entries(base0, head0)[i]);
                        assert(!media_type_pair_supported(
                            matched_entries(base0, head0)[i].1,
                            matched_entries(base0, head0)[i].2,
                        ));
                    }
                    return Result::Err(e);
                },
            }
        }
        proof {
            assert(i == ms.len());
            assert(ms.take(i) =~= ms);
        }
        let r = ContentDiff { added: split.added, removed: split.removed, changed };
        proof {
            lemma_absent_members(base0, head0);
            lemma_absent_members(head0, base0);
            lemma_changed_exists(base0, head0, media_type_differs_fn());
            if r.changed@.len() > 0 {
                let j = choose|j: int|
                    0 <= j < base0.len() && has_skey(head0, (#[trigger] base0[j]).0@)
                        && media_type_differs_fn()(base0[j].1, slookup(head0, base0[j].0@));
                assert(has_skey(head0, (base0[j]).0@) && media_type_differs(
                    base0[j].1,
                    slookup(head0, base0[j].0@),
                ));
            }
            if content_differs(base0, head0) && r.added@.len() == 0 && r.removed@.len() == 0 {
                let j = choose|j: int|
                    0 <= j < base0.len() && has_skey(head0, (#[trigger] base0[j]).0@)
                        && media_type_differs(base0[j].1, slookup(head0, base0[j].0@));
                assert(media_type_differs_fn()(base0[j].1, slookup(head0, base0[j].0@)));
                assert(r.changed@.len() > 0);
            }
        }
        Result::Ok(r)
    }
}

} // verus!
