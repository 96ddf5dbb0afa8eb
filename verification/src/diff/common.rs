use vstd::prelude::*;

use crate::keyed::clone_opt;
use crate::keyed::lemma_clone_exact_string;

verus! {

/// A change of a mandatory string field, as its two values.
#[derive(Debug)]
pub struct StringDiff {
    pub from: String,
    pub to: String,
}

impl StringDiff {
    /// `None` when the two values are equal, else both of them.
    pub open spec fn spec_from_strings(base: String, head: String) -> Option<StringDiff> {
        if base@ != head@ {
            Option::Some(StringDiff { from: base, to: head })
        } else {
            Option::None
        }
    }

    pub fn from_strings(base: String, head: String) -> (r: Option<StringDiff>)
        ensures
            r == Self::spec_from_strings(base, head),
    {
        if base == head {
            Option::None
        } else {
            Option::Some(StringDiff { from: base, to: head })
        }
    }
}

/// Two optional strings are the same field value: both absent, or both
/// present with equal text.
pub open spec fn opt_str_eq(a: Option<String>, b: Option<String>) -> bool {
    match (a, b) {
        (Option::None, Option::None) => true,
        (Option::Some(x), Option::Some(y)) => x@ == y@,
        _ => false,
    }
}

/// Compares two optional strings for field equality.
pub fn opt_str_equal(a: &Option<String>, b: &Option<String>) -> (r: bool)
    ensures
        r == opt_str_eq(*a, *b),
{
    match (a, b) {
        (Option::None, Option::None) => true,
        (Option::Some(x), Option::Some(y)) => *x == *y,
        _ => false,
    }
}

/// A change of an optional string field, capturing the possibly-absent
/// value on each side.
#[derive(Debug)]
pub struct OptionalStringDiff {
    pub from: Option<String>,
    pub to: Option<String>,
}

impl OptionalStringDiff {
    /// `None` when the two sides agree (both absent counts as agreement),
    /// else the value of each side.
    pub open spec fn spec_from_strings(base: Option<String>, head: Option<String>) -> Option<
        OptionalStringDiff,
    > {
        if !opt_str_eq(base, head) {
            Option::Some(OptionalStringDiff { from: base, to: head })
        } else {
            Option::None
        }
    }

    pub fn from_strings(base: &Option<String>, head: &Option<String>) -> (r: Option<
        OptionalStringDiff,
    >)
        ensures
            r == Self::spec_from_strings(*base, *head),
    {
        proof {
            lemma_clone_exact_string();
        }
        if opt_str_equal(base, head) {
            Option::None
        } else {
            Option::Some(OptionalStringDiff { from: clone_opt(base), to: clone_opt(head) })
        }
    }
}

/// A change of a boolean field.
#[derive(Debug)]
pub struct BooleanDiff {
    pub from: bool,
    pub to: bool,
}

impl BooleanDiff {
    pub open spec fn spec_from_bools(base: bool, head: bool) -> Option<BooleanDiff> {
        if base != head {
            Option::Some(BooleanDiff { from: base, to: head })
        } else {
            Option::None
        }
    }

    pub fn from_bools(base: bool, head: bool) -> (r: Option<BooleanDiff>)
        ensures
            r == Self::spec_from_bools(base, head),
    {
        if base != head {
            Option::Some(BooleanDiff { from: base, to: head })
        } else {
            Option::None
        }
    }
}

/// The text `x` occurs in the list `s`.
pub open spec fn str_in(s: Seq<String>, x: Seq<char>) -> bool {
    exists|i: int| 0 <= i < s.len() && s[i]@ == x
}

/// The elements of `base` whose text does not occur in `head`, in `base`
/// order.
pub open spec fn str_missing(base: Seq<String>, head: Seq<String>) -> Seq<String>
    decreases base.len(),
{
    if base.len() == 0 {
        Seq::empty()
    } else {
        let rest = str_missing(base.drop_last(), head);
        if !str_in(head, base.last()@) {
            rest.push(base.last())
        } else {
            rest
        }
    }
}

pub proof fn lemma_str_missing_push(t: Seq<String>, x: String, head: Seq<String>)
    ensures
        str_missing(t.push(x), head) == if !str_in(head, x@) {
            str_missing(t, head).push(x)
        } else {
            str_missing(t, head)
        },
{
    assert(t.push(x).drop_last() =~= t);
    assert(t.push(x).last() == x);
}

/// Every list is view-preserved in `str_missing`, and the result is empty
/// exactly when every element of `base` occurs in `head`.
pub proof fn lemma_str_missing_members(base: Seq<String>, head: Seq<String>)
    ensures
        str_missing(base, head).len() == 0 <==> (forall|j: int|
            0 <= j < base.len() ==> str_in(head, #[trigger] base[j]@)),
    decreases base.len(),
{
    if base.len() > 0 {
        let b0 = base.drop_last();
        lemma_str_missing_members(b0, head);
        assert(b0.len() == base.len() - 1);
        assert(forall|j: int| 0 <= j < base.len() - 1 ==> #[trigger] b0[j] == base[j]);
        assert(base.last() == base[base.len() - 1]);
        if !str_in(head, base.last()@) {
            assert(str_missing(base, head) == str_missing(b0, head).push(base.last()));
            assert(!str_in(head, base[base.len() - 1]@));
        } else {
            assert(str_missing(base, head) == str_missing(b0, head));
            if str_missing(base, head).len() == 0 {
                assert forall|j: int| 0 <= j < base.len() implies str_in(
                    head,
                    #[trigger] base[j]@,
                ) by {
                    if j < base.len() - 1 {
                        assert(b0[j] == base[j]);
                    }
                }
            }
        }
    }
}

/// Searches a list for a text.
pub fn str_contains(s: &Vec<String>, x: &String) -> (r: bool)
    ensures
        r == str_in(s@, x@),
{
    let mut j: usize = 0;
    while j < s.len()
        invariant
            j <= s@.len(),
            forall|i: int| 0 <= i < j ==> s@[i]@ != x@,
        decreases s@.len() - j,
    {
        if s[j] == *x {
            return true;
        }
        j += 1;
    }
    false
}

/// A set-style comparison of two string lists: which texts appeared, which
/// left. Order of each output follows the list it came from; duplicates
/// within one list are kept as declared.
#[derive(Debug)]
pub struct StringListDiff {
    pub added: Vec<String>,
    pub removed: Vec<String>,
}

impl StringListDiff {
    pub open spec fn is_diff_of(self, base: Seq<String>, head: Seq<String>) -> bool {
        &&& self.added@ == str_missing(head, base)
        &&& self.removed@ == str_missing(base, head)
    }

    pub open spec fn spec_has_changes(self) -> bool {
        self.added@.len() > 0 || self.removed@.len() > 0
    }

    pub fn from_lists(base: &Vec<String>, head: &Vec<String>) -> (r: Self)
        ensures
            r.is_diff_of(base@, head@),
    {
        let added = missing_from(head, base);
        let removed = missing_from(base, head);
        Self { added, removed }
    }

    pub fn has_changes(&self) -> (r: bool)
        ensures
            r == self.spec_has_changes(),
    {
        self.added.len() > 0 || self.removed.len() > 0
    }
}

/// Two string lists hold the same set of texts.
pub open spec fn str_lists_equal(base: Seq<String>, head: Seq<String>) -> bool {
    str_missing(base, head).len() == 0 && str_missing(head, base).len() == 0
}

fn missing_from(base: &Vec<String>, head: &Vec<String>) -> (r: Vec<String>)
    ensures
        r@ == str_missing(base@, head@),
{
    let mut r: Vec<String> = Vec::new();
    let mut i: usize = 0;
    while i < base.len()
        invariant
            i <= base@.len(),
            r@ == str_missing(base@.take(i as int), head@),
        decreases base@.len() - i,
    {
        let ghost t = base@.take(i as int);
        if !str_contains(head, &base[i]) {
            r.push(base[i].clone());
        }
        proof {
            assert(base@.take(i as int + 1) =~= t.push(base@[i as int]));
            lemma_str_missing_push(t, base@[i as int], head@);
        }
        i += 1;
    }
    proof {
        assert(base@.take(base@.len() as int) =~= base@);
    }
    r
}

/// The optional text `x` occurs in the list `s`.
pub open spec fn opt_str_in(s: Seq<Option<String>>, x: Option<String>) -> bool {
    exists|i: int| 0 <= i < s.len() && opt_str_eq(s[i], x)
}

/// The elements of `base` that do not occur in `head`, in `base` order,
/// comparing optional strings by field equality.
pub open spec fn opt_str_missing(base: Seq<Option<String>>, head: Seq<Option<String>>) -> Seq<
    Option<String>,
>
    decreases base.len(),
{
    if base.len() == 0 {
        Seq::empty()
    } else {
        let rest = opt_str_missing(base.drop_last(), head);
        if !opt_str_in(head, base.last()) {
            rest.push(base.last())
        } else {
            rest
        }
    }
}

pub proof fn lemma_opt_str_missing_push(t: Seq<Option<String>>, x: Option<String>, head: Seq<Option<String>>)
    ensures
        opt_str_missing(t.push(x), head) == if !opt_str_in(head, x) {
            opt_str_missing(t, head).push(x)
        } else {
            opt_str_missing(t, head)
        },
{
    assert(t.push(x).drop_last() =~= t);
    assert(t.push(x).last() == x);
}

pub proof fn lemma_opt_str_missing_members(base: Seq<Option<String>>, head: Seq<Option<String>>)
    ensures
        opt_str_missing(base, head).len() == 0 <==> (forall|j: int|
            0 <= j < base.len() ==> opt_str_in(head, #[trigger] base[j])),
    decreases base.len(),
{
    if base.len() > 0 {
        let b0 = base.drop_last();
        lemma_opt_str_missing_members(b0, head);
        assert(b0.len() == base.len() - 1);
        assert(forall|j: int| 0 <= j < base.len() - 1 ==> #[trigger] b0[j] == base[j]);
        assert(base.last() == base[base.len() - 1]);
        if !opt_str_in(head, base.last()) {
            assert(opt_str_missing(base, head) == opt_str_missing(b0, head).push(base.last()));
            assert(!opt_str_in(head, base[base.len() - 1]));
        } else {
            assert(opt_str_missing(base, head) == opt_str_missing(b0, head));
            if opt_str_missing(base, head).len() == 0 {
                assert forall|j: int| 0 <= j < base.len() implies opt_str_in(
                    head,
                    #[trigger] base[j],
                ) by {
                    if j < base.len() - 1 {
                        assert(b0[j] == base[j]);
                    }
                }
            }
        }
    }
}

/// Searches a list of optional strings for a field-equal element.
pub fn opt_str_list_contains(s: &Vec<Option<String>>, x: &Option<String>) -> (r: bool)
    ensures
        r == opt_str_in(s@, *x),
{
    let mut j: usize = 0;
    while j < s.len()
        invariant
            j <= s@.len(),
            forall|i: int| 0 <= i < j ==> !opt_str_eq(s@[i], *x),
        decreases s@.len() - j,
    {
        if opt_str_equal(&s[j], x) {
            return true;
        }
        j += 1;
    }
    false
}

/// The elements of `base` missing from `head`, for optional strings.
pub fn opt_str_missing_from(base: &Vec<Option<String>>, head: &Vec<Option<String>>) -> (r: Vec<
    Option<String>,
>)
    ensures
        r@ == opt_str_missing(base@, head@),
{
    proof {
        lemma_clone_exact_string();
    }
    let mut r: Vec<Option<String>> = Vec::new();
    let mut i: usize = 0;
    while i < base.len()
        invariant
            i <= base@.len(),
            r@ == opt_str_missing(base@.take(i as int), head@),
        decreases base@.len() - i,
    {
        let ghost t = base@.take(i as int);
        if !opt_str_list_contains(head, &base[i]) {
            proof {
                lemma_clone_exact_string();
            }
            r.push(clone_opt(&base[i]));
        }
        proof {
            assert(base@.take(i as int + 1) =~= t.push(base@[i as int]));
            lemma_opt_str_missing_push(t, base@[i as int], head@);
        }
        i += 1;
    }
    proof {
        assert(base@.take(base@.len() as int) =~= base@);
    }
    r
}

} // verus!
