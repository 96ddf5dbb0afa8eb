//! The reference resolver: joins a reference string against a base
//! location by standard relative-reference resolution (`./`, `../` and
//! fragment-less paths), decides the addressing scheme, and hands callers
//! the file path to load for the local-file scheme. Reading the target is
//! the caller's part; everything here is pure string work.

use vstd::prelude::*;

use crate::openapi::reference::ReferenceOr;

verus! {

broadcast use vstd::seq::axiom_seq_index_decreases;

/// Everything that can go wrong while resolving a reference.
#[derive(Debug)]
pub enum DereferenceError {
    /// The reference string cannot be used as a relative reference (it is
    /// empty).
    InvalidUri(String),
    /// The reference uses a scheme other than the local-file scheme, or a
    /// fragment form, which this version cannot resolve.
    UnsupportedRef(String),
    /// The resolved target could not be read. Raised by the loader that
    /// performs the reading, never by the resolver itself.
    IOError(String),
    /// The resolved target does not have the expected shape. Raised by the
    /// loader that deserializes the target, never by the resolver itself.
    ParseError(String),
}

impl DereferenceError {
    pub open spec fn spec_label(self) -> Seq<char> {
        match self {
            DereferenceError::InvalidUri(_) => "Invalid reference: "@,
            DereferenceError::UnsupportedRef(_) => "Unsupported ref: "@,
            DereferenceError::IOError(_) => "Cannot read reference target: "@,
            DereferenceError::ParseError(_) => "Cannot parse reference target: "@,
        }
    }

    pub open spec fn spec_detail(self) -> Seq<char> {
        match self {
            DereferenceError::InvalidUri(s) => s@,
            DereferenceError::UnsupportedRef(s) => s@,
            DereferenceError::IOError(s) => s@,
            DereferenceError::ParseError(s) => s@,
        }
    }

    /// The description of the error, for callers that render it.
    pub fn message(&self) -> (r: String)
        ensures
            r@ == self.spec_label() + self.spec_detail(),
    {
        let m = String::new();
        let m = match self {
            DereferenceError::InvalidUri(_) => m.concat("Invalid reference: "),
            DereferenceError::UnsupportedRef(_) => m.concat("Unsupported ref: "),
            DereferenceError::IOError(_) => m.concat("Cannot read reference target: "),
            DereferenceError::ParseError(_) => m.concat("Cannot parse reference target: "),
        };
        let m = match self {
            DereferenceError::InvalidUri(s) => m.concat(s.as_str()),
            DereferenceError::UnsupportedRef(s) => m.concat(s.as_str()),
            DereferenceError::IOError(s) => m.concat(s.as_str()),
            DereferenceError::ParseError(s) => m.concat(s.as_str()),
        };
        proof {
            assert(Seq::<char>::empty() + self.spec_label() =~= self.spec_label());
        }
        m
    }
}

/// A character allowed in a scheme name.
pub open spec fn is_scheme_char(c: char) -> bool {
    ||| ('a' <= c && c <= 'z')
    ||| ('A' <= c && c <= 'Z')
    ||| ('0' <= c && c <= '9')
    ||| c == '+'
    ||| c == '-'
    ||| c == '.'
}

pub open spec fn is_alpha(c: char) -> bool {
    ('a' <= c && c <= 'z') || ('A' <= c && c <= 'Z')
}

/// The position of the first occurrence of `c` in `s`, or -1.
pub open spec fn char_pos(s: Seq<char>, c: char) -> int
    decreases s.len(),
{
    if s.len() == 0 {
        -1
    } else if s[0] == c {
        0
    } else {
        let r = char_pos(s.drop_first(), c);
        if r < 0 {
            -1
        } else {
            r + 1
        }
    }
}

/// `c` occurs in `s`.
pub open spec fn contains_char(s: Seq<char>, c: char) -> bool {
    exists|i: int| 0 <= i < s.len() && s[i] == c
}

pub proof fn lemma_char_pos(s: Seq<char>, c: char)
    ensures
        contains_char(s, c) <==> char_pos(s, c) >= 0,
        char_pos(s, c) >= 0 ==> char_pos(s, c) < s.len() && s[char_pos(s, c)] == c && (forall|
            j: int,
        | 0 <= j < char_pos(s, c) ==> s[j] != c),
    decreases s.len(),
{
    if s.len() > 0 {
        if s[0] != c {
            lemma_char_pos(s.drop_first(), c);
            let s0 = s.drop_first();
            assert(forall|j: int| 0 <= j < s0.len() ==> #[trigger] s0[j] == s[j + 1]);
            if char_pos(s0, c) >= 0 {
                let p = char_pos(s0, c);
                assert(s[p + 1] == s0[p]);
                assert(forall|j: int| 1 <= j < p + 1 ==> s[j] == s0[j - 1]);
            } else {
                assert forall|i: int| 0 <= i < s.len() implies s[i] != c by {
                    if i > 0 {
                        assert(s0[i - 1] == s[i]);
                    }
                }
            }
        }
    }
}

/// The scheme named by a reference: the text before the first `:`, when
/// that text is a nonempty scheme name led by a letter. A reference whose
/// first `/` comes before any `:` names no scheme.
pub open spec fn spec_scheme(s: Seq<char>) -> Option<Seq<char>> {
    let p = char_pos(s, ':');
    if p >= 1 && is_alpha(s[0]) && (forall|j: int| 0 <= j < p ==> is_scheme_char(#[trigger] s[j])) {
        Option::Some(s.take(p))
    } else {
        Option::None
    }
}

/// The position just after the last `/` of `s`, or 0 when `s` has none:
/// the length of the directory part of a location.
pub open spec fn dir_len(s: Seq<char>) -> int
    decreases s.len(),
{
    if s.len() == 0 {
        0
    } else if s.last() == '/' {
        s.len() as int
    } else {
        dir_len(s.drop_last())
    }
}

pub proof fn lemma_dir_len(s: Seq<char>)
    ensures
        0 <= dir_len(s) <= s.len(),
    decreases s.len(),
{
    if s.len() > 0 && s.last() != '/' {
        lemma_dir_len(s.drop_last());
    }
}

/// The segments of a path: the texts between its `/` separators.
pub open spec fn split_slash(s: Seq<char>) -> Seq<Seq<char>>
    decreases s.len(),
{
    let p = char_pos(s, '/');
    if 0 <= p < s.len() {
        seq![s.take(p)] + split_slash(s.skip(p + 1))
    } else {
        seq![s]
    }
}

/// Dot-segment resolution over the first `n` segments: `.` disappears,
/// `..` removes the segment before it (or disappears at the root), any
/// other segment stays.
pub open spec fn norm_prefix(ss: Seq<Seq<char>>, n: int) -> Seq<Seq<char>>
    decreases n,
{
    if n <= 0 {
        Seq::empty()
    } else {
        let r = norm_prefix(ss, n - 1);
        let seg = ss[n - 1];
        if seg == "."@ {
            r
        } else if seg == ".."@ {
            if r.len() > 0 {
                r.drop_last()
            } else {
                r
            }
        } else {
            r.push(seg)
        }
    }
}

pub open spec fn norm_segments(ss: Seq<Seq<char>>) -> Seq<Seq<char>> {
    norm_prefix(ss, ss.len() as int)
}

/// The text of a segment list, separated by `/`.
pub open spec fn join_slash(ss: Seq<Seq<char>>) -> Seq<char>
    decreases ss.len(),
{
    if ss.len() == 0 {
        Seq::empty()
    } else if ss.len() == 1 {
        ss[0]
    } else {
        join_slash(ss.drop_last()) + seq!['/'] + ss.last()
    }
}

/// The join of a reference against a base location. A reference with a
/// scheme stands alone; an absolute reference keeps only its own path; any
/// other reference extends the directory part of the base. Dot segments of
/// the joined path are resolved.
pub open spec fn spec_join(base: Seq<char>, reference: Seq<char>) -> Seq<char> {
    if spec_scheme(reference) is Some {
        reference
    } else {
        let merged = if reference.len() > 0 && reference[0] == '/' {
            reference
        } else {
            base.take(dir_len(base)) + reference
        };
        join_slash(norm_segments(split_slash(merged)))
    }
}

/// Turns a text into its characters.
#[verifier::loop_isolation(false)]
fn str_chars(s: &str) -> (r: Vec<char>)
    ensures
        r@ == s@,
{
    let n = s.unicode_len();
    let mut r: Vec<char> = Vec::new();
    let mut i: usize = 0;
    while i < n
        invariant
            n == s@.len(),
            i <= n,
            r@ == s@.take(i as int),
        decreases n - i,
    {
        r.push(s.get_char(i));
        proof {
            assert(s@.take(i as int + 1) =~= s@.take(i as int).push(s@[i as int]));
        }
        i += 1;
    }
    proof {
        assert(s@.take(n as int) =~= s@);
    }
    r
}

/// Relies on `String::from_iter` over characters: builds the string of
/// exactly these characters, in order.
#[verifier::external_body]
fn chars_string(v: &Vec<char>) -> (r: String)
    ensures
        r@ == v@,
{
    v.iter().collect()
}

/// The position of the first occurrence of `c`, if any.
#[verifier::loop_isolation(false)]
fn find_char(v: &Vec<char>, c: char) -> (r: Option<usize>)
    ensures
        match r {
            Option::Some(p) => char_pos(v@, c) == p as int,
            Option::None => char_pos(v@, c) < 0,
        },
{
    proof {
        lemma_char_pos(v@, c);
    }
    let mut i: usize = 0;
    while i < v.len()
        invariant
            i <= v@.len(),
            forall|j: int| 0 <= j < i ==> v@[j] != c,
        decreases v@.len() - i,
    {
        if v[i] == c {
            proof {
                assert(contains_char(v@, c));
                let p = char_pos(v@, c);
                if p < i as int {
                    assert(v@[p] != c);
                }
                if p > i as int {
                    assert(v@[i as int] != c);
                }
            }
            return Option::Some(i);
        }
        i += 1;
    }
    proof {
        if contains_char(v@, c) {
            let w = choose|w: int| 0 <= w < v@.len() && v@[w] == c;
            assert(v@[w] != c);
        }
    }
    Option::None
}

/// The scheme of a reference, if it names one.
#[verifier::loop_isolation(false)]
fn scheme_of(v: &Vec<char>) -> (r: Option<Vec<char>>)
    ensures
        match r {
            Option::Some(x) => spec_scheme(v@) == Option::Some(x@),
            Option::None => spec_scheme(v@) is None,
        },
{
    proof {
        lemma_char_pos(v@, ':');
    }
    let p = match find_char(v, ':') {
        Option::Some(p) => p,
        Option::None => {
            return Option::None;
        },
    };
    if p < 1 {
        return Option::None;
    }
    if !is_alpha_exec(v[0]) {
        return Option::None;
    }
    let mut j: usize = 0;
    while j < p
        invariant
            p < v@.len(),
            forall|k: int| 0 <= k < j ==> is_scheme_char(#[trigger] v@[k]),
            j <= p,
        decreases p - j,
    {
        if !is_scheme_char_exec(v[j]) {
            return Option::None;
        }
        j += 1;
    }
    let mut out: Vec<char> = Vec::new();
    let mut k: usize = 0;
    while k < p
        invariant
            p < v@.len(),
            k <= p,
            out@ == v@.take(p as int).take(k as int),
        decreases p - k,
    {
        out.push(v[k]);
        proof {
            assert(v@.take(p as int).take(k as int + 1) =~= v@.take(p as int).take(k as int).push(
                v@[k as int],
            ));
        }
        k += 1;
    }
    proof {
        assert(v@.take(p as int).take(p as int) =~= v@.take(p as int));
    }
    Option::Some(out)
}

fn is_alpha_exec(c: char) -> (r: bool)
    ensures
        r == is_alpha(c),
{
    ('a' <= c && c <= 'z') || ('A' <= c && c <= 'Z')
}

fn is_scheme_char_exec(c: char) -> (r: bool)
    ensures
        r == is_scheme_char(c),
{
    ('a' <= c && c <= 'z') || ('A' <= c && c <= 'Z') || ('0' <= c && c <= '9') || c == '+' || c
        == '-' || c == '.'
}

/// Splits a character list on `/`.
#[verifier::loop_isolation(false)]
fn split_segments(v: Vec<char>) -> (r: Vec<Vec<char>>)
    ensures
        r@.map_values(|x: Vec<char>| x@) == split_slash(v@),
{
    let ghost v0 = v@;
    let mut rem = v;
    let mut r: Vec<Vec<char>> = Vec::new();
    proof {
        assert(r@.map_values(|x: Vec<char>| x@) =~= Seq::<Seq<char>>::empty());
        assert(Seq::<Seq<char>>::empty() + split_slash(v0) =~= split_slash(v0));
    }
    loop
        invariant
            split_slash(v0) == r@.map_values(|x: Vec<char>| x@) + split_slash(rem@),
        decreases rem@.len(),
    {
        proof {
            lemma_char_pos(rem@, '/');
        }
        match find_char(&rem, '/') {
            Option::Some(p) => {
                let ghost before = rem@;
                proof {
                    assert(char_pos(rem@, '/') == p as int);
                    assert((p as int) < rem@.len());
                }
                let mut tail = rem.split_off(p);
                let _ = tail.remove(0);
                let seg = rem;
                rem = tail;
                proof {
                    assert(rem@ =~= before.skip(p as int).remove(0));
                    assert(before.skip(p as int).remove(0) =~= before.skip(p as int + 1));
                }
                let ghost r0 = r@.map_values(|x: Vec<char>| x@);
                r.push(seg);
                proof {
                    assert(seg@ =~= before.take(p as int));
                    assert(rem@ =~= before.skip(p as int + 1));
                    assert(split_slash(before) == seq![before.take(p as int)] + split_slash(
                        before.skip(p as int + 1),
                    ));
                    assert(r@.map_values(|x: Vec<char>| x@) =~= r0.push(seg@));
                    assert(r0.push(seg@) + split_slash(rem@) =~= r0 + split_slash(before));
                }
            },
            Option::None => {
                let ghost before = rem@;
                let ghost r0 = r@.map_values(|x: Vec<char>| x@);
                r.push(rem);
                proof {
                    assert(split_slash(before) == seq![before]);
                    assert(r@.map_values(|x: Vec<char>| x@) =~= r0.push(before));
                    assert(r0.push(before) =~= r0 + seq![before]);
                    assert(split_slash(v0) =~= r@.map_values(|x: Vec<char>| x@));
                }
                return r;
            },
        }
    }
}

/// Whether a segment is the `.` or the `..` dot segment.
fn is_dot(seg: &Vec<char>) -> (r: bool)
    ensures
        r == (seg@ == "."@),
{
    proof {
        reveal_strlit(".");
    }
    if seg.len() == 1 && seg[0] == '.' {
        proof {
            assert(seg@ =~= "."@);
        }
        true
    } else {
        proof {
            if seg@ == "."@ {
                assert(seg@.len() == 1 && seg@[0] == '.');
            }
        }
        false
    }
}

fn is_dot_dot(seg: &Vec<char>) -> (r: bool)
    ensures
        r == (seg@ == ".."@),
{
    proof {
        reveal_strlit("..");
    }
    if seg.len() == 2 && seg[0] == '.' && seg[1] == '.' {
        proof {
            assert(seg@ =~= ".."@);
        }
        true
    } else {
        proof {
            if seg@ == ".."@ {
                assert(seg@.len() == 2 && seg@[0] == '.' && seg@[1] == '.');
            }
        }
        false
    }
}

/// Resolves the dot segments of a segment list.
#[verifier::loop_isolation(false)]
fn normalize_segments(ss: Vec<Vec<char>>) -> (r: Vec<Vec<char>>)
    ensures
        r@.map_values(|x: Vec<char>| x@) == norm_segments(ss@.map_values(|x: Vec<char>| x@)),
{
    let ghost ss0 = ss@.map_values(|x: Vec<char>| x@);
    let ghost n0 = ss@.len() as int;
    let mut rem = ss;
    let mut out: Vec<Vec<char>> = Vec::new();
    let ghost mut i: int = 0;
    while rem.len() > 0
        invariant
            0 <= i <= n0,
            rem@.map_values(|x: Vec<char>| x@) =~= ss0.skip(i),
            rem@.len() == n0 - i,
            ss0.len() == n0,
            out@.map_values(|x: Vec<char>| x@) == norm_prefix(ss0, i),
        decreases rem@.len(),
    {
        proof {
            assert(rem@.map_values(|x: Vec<char>| x@)[0] == ss0.skip(i)[0]);
            assert(ss0.skip(i)[0] == ss0[i]);
            assert(rem@.map_values(|x: Vec<char>| x@).remove(0) =~= ss0.skip(i).remove(0));
            assert(ss0.skip(i).remove(0) =~= ss0.skip(i + 1));
        }
        let seg = rem.remove(0);
        proof {
            assert(seg@ == ss0[i]);
            assert(rem@.map_values(|x: Vec<char>| x@) =~= ss0.skip(i + 1));
        }
        if is_dot(&seg) {
        } else if is_dot_dot(&seg) {
            if out.len() > 0 {
                let ghost o0 = out@.map_values(|x: Vec<char>| x@);
                let _ = out.pop();
                proof {
                    assert(out@.map_values(|x: Vec<char>| x@) =~= o0.drop_last());
                }
            }
        } else {
            let ghost o0 = out@.map_values(|x: Vec<char>| x@);
            out.push(seg);
            proof {
                assert(out@.map_values(|x: Vec<char>| x@) =~= o0.push(ss0[i]));
            }
        }
        proof {
            assert(norm_prefix(ss0, i + 1) == {
                let r = norm_prefix(ss0, i);
                if ss0[i] == "."@ {
                    r
                } else if ss0[i] == ".."@ {
                    if r.len() > 0 {
                        r.drop_last()
                    } else {
                        r
                    }
                } else {
                    r.push(ss0[i])
                }
            });
            i = i + 1;
        }
    }
    proof {
        assert(i == n0);
    }
    out
}

/// Writes a segment list back as one `/`-separated character list.
#[verifier::loop_isolation(false)]
fn join_segments(ss: Vec<Vec<char>>) -> (r: Vec<char>)
    ensures
        r@ == join_slash(ss@.map_values(|x: Vec<char>| x@)),
{
    let ghost ss0 = ss@.map_values(|x: Vec<char>| x@);
    let mut out: Vec<char> = Vec::new();
    let mut i: usize = 0;
    while i < ss.len()
        invariant
            i <= ss@.len(),
            ss0 == ss@.map_values(|x: Vec<char>| x@),
            ss0.len() == ss@.len(),
            out@ == join_slash(ss0.take(i as int)),
        decreases ss@.len() - i,
    {
        let ghost before = out@;
        if i > 0 {
            out.push('/');
        }
        let seg = &ss[i];
        let mut j: usize = 0;
        while j < seg.len()
            invariant
                j <= seg@.len(),
                i < ss@.len(),
                seg == ss@[i as int],
                out@ == (if i > 0 {
                    before.push('/')
                } else {
                    before
                }) + seg@.take(j as int),
            decreases seg@.len() - j,
        {
            out.push(seg[j]);
            proof {
                assert(seg@.take(j as int + 1) =~= seg@.take(j as int).push(seg@[j as int]));
                assert((if i > 0 {
                    before.push('/')
                } else {
                    before
                }) + seg@.take(j as int + 1) =~= ((if i > 0 {
                    before.push('/')
                } else {
                    before
                }) + seg@.take(j as int)).push(seg@[j as int]));
            }
            j += 1;
        }
        proof {
            assert(seg@.take(seg@.len() as int) =~= seg@);
            assert(ss0[i as int] == seg@);
            let t = ss0.take(i as int + 1);
            assert(t.drop_last() =~= ss0.take(i as int));
            assert(t.last() == ss0[i as int]);
            if i > 0 {
                assert(join_slash(t) == join_slash(ss0.take(i as int)) + seq!['/'] + ss0[i as int]);
                assert(out@ =~= before.push('/') + seg@);
                assert(before.push('/') + seg@ =~= before + seq!['/'] + seg@);
            } else {
                assert(t.len() == 1);
                assert(join_slash(t) == t[0]);
                assert(out@ =~= before + seg@);
                assert(before + seg@ =~= seg@);
            }
        }
        i += 1;
    }
    proof {
        assert(ss0.take(ss0.len() as int) =~= ss0);
    }
    out
}

/// Joins a reference against a base location. Fails when the reference is
/// empty, or carries a fragment, which this version cannot resolve.
#[verifier::loop_isolation(false)]
pub fn uri_join(base: &str, reference: &str) -> (r: Result<String, DereferenceError>)
    ensures
        match r {
            Result::Ok(s) => reference@.len() > 0 && !contains_char(reference@, '#') && s@
                == spec_join(base@, reference@),
            Result::Err(e) => {
                ||| (reference@.len() == 0 && e is InvalidUri)
                ||| (reference@.len() > 0 && contains_char(reference@, '#')
                    && e is UnsupportedRef)
            },
        },
{
    let rv = str_chars(reference);
    if rv.len() == 0 {
        return Result::Err(
            DereferenceError::InvalidUri(string_copy(reference)),
        );
    }
    proof {
        lemma_char_pos(rv@, '#');
    }
    match find_char(&rv, '#') {
        Option::Some(_) => {
            return Result::Err(
                DereferenceError::UnsupportedRef(string_copy(reference)),
            );
        },
        Option::None => {},
    }
    match scheme_of(&rv) {
        Option::Some(_) => {
            return Result::Ok(string_copy(reference));
        },
        Option::None => {},
    }
    let merged: Vec<char> = if rv[0] == '/' {
        rv
    } else {
        let bv = str_chars(base);
        let mut dir = bv;
        let dl = dir_length(&dir);
        let _ = dir.split_off(dl);
        proof {
            assert(dir@ =~= base@.take(dir_len(base@)));
        }
        let mut m = dir;
        let mut k: usize = 0;
        let ghost mv0 = m@;
        while k < rv.len()
            invariant
                k <= rv@.len(),
                m@ == mv0 + rv@.take(k as int),
            decreases rv@.len() - k,
        {
            m.push(rv[k]);
            proof {
                assert(rv@.take(k as int + 1) =~= rv@.take(k as int).push(rv@[k as int]));
                assert(mv0 + rv@.take(k as int + 1) =~= (mv0 + rv@.take(k as int)).push(
                    rv@[k as int],
                ));
            }
            k += 1;
        }
        proof {
            assert(rv@.take(rv@.len() as int) =~= rv@);
        }
        m
    };
    let segs = split_segments(merged);
    let normed = normalize_segments(segs);
    let joined = join_segments(normed);
    Result::Ok(chars_string(&joined))
}

/// The length of the directory part: everything up to the last `/`.
#[verifier::loop_isolation(false)]
fn dir_length(v: &Vec<char>) -> (r: usize)
    ensures
        r as int == dir_len(v@),
        r <= v@.len(),
{
    proof {
        lemma_dir_len(v@);
        assert(v@.take(v@.len() as int) =~= v@);
    }
    let mut i: usize = v.len();
    while i > 0
        invariant
            i <= v@.len(),
            dir_len(v@) == dir_len(v@.take(i as int)),
        decreases i,
    {
        if v[i - 1] == '/' {
            proof {
                assert(v@.take(i as int).last() == v@[i as int - 1]);
                assert(dir_len(v@.take(i as int)) == i as int);
            }
            return i;
        }
        proof {
            assert(v@.take(i as int).last() == v@[i as int - 1]);
            assert(v@.take(i as int).drop_last() =~= v@.take(i as int - 1));
        }
        i -= 1;
    }
    proof {
        assert(v@.take(0) =~= Seq::<char>::empty());
    }
    0
}

/// A copy of a borrowed text.
fn string_copy(s: &str) -> (r: String)
    ensures
        r@ == s@,
{
    let c = String::new();
    let c = c.concat(s);
    proof {
        assert(Seq::<char>::empty() + s@ =~= s@);
    }
    c
}

/// The outcome of resolving a reference-or-item position: the inline value
/// itself, or the path of the local file holding the target, for the
/// caller to load.
#[derive(Debug)]
pub enum Resolution<T> {
    Inline(T),
    FileToLoad(String),
}

/// The joined reference resolves to a loadable local file: it names no
/// scheme at all. (A reference that names the file scheme spells its
/// target as a URI, not a file path, and is not loadable as written.)
pub open spec fn spec_is_local(joined: Seq<char>) -> bool {
    spec_scheme(joined) is None
}

/// Resolves a reference against a base location to the path of the local
/// file to load. The reference must be non-empty, fragment-less, and must
/// resolve to the local-file scheme; every other outcome is a typed error,
/// exactly when it occurs.
pub fn resolve_target(base: &str, reference: &str) -> (r: Result<String, DereferenceError>)
    ensures
        match r {
            Result::Ok(p) => reference@.len() > 0 && !contains_char(reference@, '#')
                && spec_is_local(spec_join(base@, reference@)) && p@ == spec_join(
                base@,
                reference@,
            ),
            Result::Err(e) => {
                ||| (reference@.len() == 0 && e is InvalidUri)
                ||| (reference@.len() > 0 && contains_char(reference@, '#')
                    && e is UnsupportedRef)
                ||| (reference@.len() > 0 && !contains_char(reference@, '#') && !spec_is_local(
                    spec_join(base@, reference@),
                ) && e is UnsupportedRef)
            },
        },
{
    let joined = match uri_join(base, reference) {
        Result::Ok(j) => j,
        Result::Err(e) => {
            return Result::Err(e);
        },
    };
    let jv = str_chars(joined.as_str());
    match scheme_of(&jv) {
        Option::Some(_) => Result::Err(DereferenceError::UnsupportedRef(joined)),
        Option::None => Result::Ok(joined),
    }
}

/// Resolves a reference-or-item position: an inline item is handed back
/// unchanged, with no input or output performed; a reference is resolved
/// to the file the caller must load.
pub fn dereference<T>(value: ReferenceOr<T>, base: &str) -> (r: Result<
    Resolution<T>,
    DereferenceError,
>)
    ensures
        match value {
            ReferenceOr::Item(t) => r == Result::<Resolution<T>, DereferenceError>::Ok(
                Resolution::Inline(t),
            ),
            ReferenceOr::Reference { reference } => match r {
                Result::Ok(Resolution::FileToLoad(p)) => reference@.len() > 0 && !contains_char(
                    reference@,
                    '#',
                ) && spec_is_local(spec_join(base@, reference@)) && p@ == spec_join(
                    base@,
                    reference@,
                ),
                Result::Ok(Resolution::Inline(_)) => false,
                Result::Err(e) => {
                    ||| (reference@.len() == 0 && e is InvalidUri)
                    ||| (reference@.len() > 0 && contains_char(reference@, '#')
                        && e is UnsupportedRef)
                    ||| (reference@.len() > 0 && !contains_char(reference@, '#')
                        && !spec_is_local(spec_join(base@, reference@)) && e is UnsupportedRef)
                },
            },
        },
{
    match value {
        ReferenceOr::Item(t) => Result::Ok(Resolution::Inline(t)),
        ReferenceOr::Reference { reference } => match resolve_target(base, reference.as_str()) {
            Result::Ok(p) => Result::Ok(Resolution::FileToLoad(p)),
            Result::Err(e) => Result::Err(e),
        },
    }
}

} // verus!
