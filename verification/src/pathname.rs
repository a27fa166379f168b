//! Plain-text path handling, and the few string helpers the library needs.
//!
//! The library represents filesystem paths as strings with `/` as the
//! component separator. This module gives the operations the planner needs —
//! equality, membership in a list, joining with a separator, and the final
//! component (basename) of a path — along with whitespace trimming for the
//! metadata tool's output lines.

use vstd::prelude::*;
use vstd::string::StrSliceExecFns;

verus! {

/// Character-for-character string equality.
pub fn str_eq(a: &str, b: &str) -> (r: bool)
    ensures
        r == (a@ == b@),
{
    let alen = a.unicode_len();
    let blen = b.unicode_len();
    if alen != blen {
        return false;
    }
    let mut i: usize = 0;
    while i < alen
        invariant
            alen == a@.len(),
            blen == b@.len(),
            alen == blen,
            0 <= i <= alen,
            forall|j: int| 0 <= j < i ==> a@[j] == b@[j],
        decreases alen - i,
    {
        if a.get_char(i) != b.get_char(i) {
            return false;
        }
        i = i + 1;
    }
    proof {
        assert(a@ =~= b@);
    }
    true
}

/// True when one of the strings in `v` equals `s`.
pub fn contains_string(v: &Vec<String>, s: &str) -> (r: bool)
    ensures
        r == v.deep_view().contains(s@),
{
    let mut i: usize = 0;
    while i < v.len()
        invariant
            0 <= i <= v@.len(),
            forall|j: int| 0 <= j < i ==> v.deep_view()[j] != s@,
        decreases v@.len() - i,
    {
        if str_eq(v[i].as_str(), s) {
            proof {
                assert(v.deep_view()[i as int] == s@);
            }
            return true;
        }
        i = i + 1;
    }
    false
}

/// ASCII whitespace, the characters stripped by [`trim`].
pub open spec fn is_space(c: char) -> bool {
    c == ' ' || c == '\t' || c == '\r' || c == '\n'
}

/// `s` without its leading whitespace.
pub open spec fn spec_trim_front(s: Seq<char>) -> Seq<char>
    decreases s.len(),
{
    if s.len() > 0 && is_space(s[0]) {
        spec_trim_front(s.skip(1))
    } else {
        s
    }
}

/// `s` without its trailing whitespace.
pub open spec fn spec_trim_back(s: Seq<char>) -> Seq<char>
    decreases s.len(),
{
    if s.len() > 0 && is_space(s[s.len() - 1]) {
        spec_trim_back(s.take(s.len() - 1))
    } else {
        s
    }
}

/// `s` without leading and trailing whitespace.
pub open spec fn spec_trim(s: Seq<char>) -> Seq<char> {
    spec_trim_back(spec_trim_front(s))
}

proof fn lemma_trim_front_skip(s: Seq<char>, a: int)
    requires
        0 <= a <= s.len(),
        forall|j: int| 0 <= j < a ==> is_space(s[j]),
        a < s.len() ==> !is_space(s[a]),
    ensures
        spec_trim_front(s) == s.skip(a),
    decreases a,
{
    if a == 0 {
        assert(s.skip(0) =~= s);
    } else {
        assert(is_space(s[0]));
        lemma_trim_front_skip(s.skip(1), a - 1);
        assert(s.skip(1).skip(a - 1) =~= s.skip(a));
    }
}

proof fn lemma_trim_back_take(s: Seq<char>, b: int)
    requires
        0 <= b <= s.len(),
        forall|j: int| b <= j < s.len() ==> is_space(s[j]),
        b > 0 ==> !is_space(s[b - 1]),
    ensures
        spec_trim_back(s) == s.take(b),
    decreases s.len() - b,
{
    if b == s.len() {
        assert(s.take(b) =~= s);
    } else {
        assert(is_space(s[s.len() - 1]));
        lemma_trim_back_take(s.take(s.len() - 1), b);
        assert(s.take(s.len() - 1).take(b) =~= s.take(b));
    }
}

/// `line` without leading and trailing ASCII whitespace.
pub fn trim(line: &str) -> (r: &str)
    ensures
        r@ == spec_trim(line@),
{
    let len = line.unicode_len();
    let mut a: usize = 0;
    while a < len && is_space_char(line.get_char(a))
        invariant
            len == line@.len(),
            0 <= a <= len,
            forall|j: int| 0 <= j < a ==> is_space(line@[j]),
        decreases len - a,
    {
        a = a + 1;
    }
    proof {
        lemma_trim_front_skip(line@, a as int);
    }
    let mut b: usize = len;
    while b > a && is_space_char(line.get_char(b - 1))
        invariant
            len == line@.len(),
            a <= b <= len,
            forall|j: int| 0 <= j < a ==> is_space(line@[j]),
            a < len ==> !is_space(line@[a as int]),
            forall|j: int| b <= j < len ==> is_space(line@[j]),
        decreases b,
    {
        b = b - 1;
    }
    let r = line.substring_char(a, b);
    proof {
        let front = line@.skip(a as int);
        assert(forall|j: int| b - a <= j < front.len() ==> is_space(#[trigger] front[j]));
        if b > a {
            assert(!is_space(front[b - a - 1]));
        }
        lemma_trim_back_take(front, b - a);
        assert(front.take(b - a) =~= line@.subrange(a as int, b as int));
    }
    r
}

/// Executable test for [`is_space`].
pub fn is_space_char(c: char) -> (r: bool)
    ensures
        r == is_space(c),
{
    c == ' ' || c == '\t' || c == '\r' || c == '\n'
}

/// Index just after the last occurrence of `sep` in `p`, or `0` when `p`
/// holds no `sep`.
pub open spec fn suffix_start(p: Seq<char>, sep: char) -> int
    decreases p.len(),
{
    if p.len() == 0 {
        0
    } else if p[p.len() - 1] == sep {
        p.len() as int
    } else {
        suffix_start(p.take(p.len() - 1), sep)
    }
}

/// Index where the final path component of `p` begins: just after the last
/// `/`, or `0` when `p` holds no `/`.
pub open spec fn name_start(p: Seq<char>) -> int {
    suffix_start(p, '/')
}

/// The final component of path `p`: everything after the last `/`.
pub open spec fn spec_basename(p: Seq<char>) -> Seq<char> {
    p.subrange(name_start(p), p.len() as int)
}

pub proof fn lemma_suffix_start_bounds(p: Seq<char>, sep: char)
    ensures
        0 <= suffix_start(p, sep) <= p.len(),
        forall|j: int| suffix_start(p, sep) <= j < p.len() ==> p[j] != sep,
        suffix_start(p, sep) > 0 ==> p[suffix_start(p, sep) - 1] == sep,
    decreases p.len(),
{
    if p.len() > 0 && p[p.len() - 1] != sep {
        let q = p.take(p.len() - 1);
        lemma_suffix_start_bounds(q, sep);
        assert(forall|j: int|
            suffix_start(p, sep) <= j < p.len() - 1 ==> p[j] == q[j] && q[j] != sep);
    }
}

proof fn lemma_suffix_start_shrink(p: Seq<char>, sep: char, j: int)
    requires
        0 <= j <= p.len(),
        forall|k: int| j <= k < p.len() ==> p[k] != sep,
    ensures
        suffix_start(p, sep) == suffix_start(p.take(j), sep),
    decreases p.len() - j,
{
    if j < p.len() {
        lemma_suffix_start_shrink(p, sep, j + 1);
        assert(p.take(j + 1).take(j) =~= p.take(j));
        assert(p.take(p.len() as int) =~= p);
    } else {
        assert(p.take(j) =~= p);
    }
}

/// The index just after the last occurrence of `sep` in `p`, `0` when there
/// is none: the executable form of [`suffix_start`].
pub fn last_sep_index(p: &str, sep: char) -> (r: usize)
    ensures
        r == suffix_start(p@, sep),
        r <= p@.len(),
{
    let len = p.unicode_len();
    let mut j: usize = len;
    while j > 0
        invariant
            len == p@.len(),
            0 <= j <= len,
            forall|k: int| j <= k < len ==> p@[k] != sep,
        decreases j,
    {
        if p.get_char(j - 1) == sep {
            proof {
                lemma_suffix_start_shrink(p@, sep, j as int);
                assert(p@.take(j as int)[j - 1] == sep);
            }
            return j;
        }
        j = j - 1;
    }
    proof {
        lemma_suffix_start_shrink(p@, sep, 0);
        assert(p@.take(0) =~= Seq::<char>::empty());
    }
    0
}

/// The final component of `p`: everything after the last `/`, or all of `p`
/// when it holds none.
pub fn basename(p: &str) -> (r: &str)
    ensures
        r@ == spec_basename(p@),
{
    let len = p.unicode_len();
    let k = last_sep_index(p, '/');
    p.substring_char(k, len)
}

/// `a` and `b` joined into one path: a `/` is put between them unless `a` is
/// empty or already ends in `/`.
pub open spec fn spec_join(a: Seq<char>, b: Seq<char>) -> Seq<char> {
    if a.len() == 0 {
        b
    } else if a[a.len() - 1] == '/' {
        a + b
    } else {
        a + seq!['/'] + b
    }
}

/// Joins path `a` and relative path `b`, as [`spec_join`] describes.
pub fn join(a: &str, b: &str) -> (r: String)
    ensures
        r@ == spec_join(a@, b@),
{
    let alen = a.unicode_len();
    let mut r = a.to_owned();
    if alen == 0 {
        r.append(b);
        proof {
            assert(a@ + b@ =~= b@);
        }
    } else if a.get_char(alen - 1) == '/' {
        r.append(b);
    } else {
        r.append("/");
        r.append(b);
        proof {
            reveal_strlit("/");
            assert(a@ + "/"@ + b@ =~= a@ + seq!['/'] + b@);
        }
    }
    r
}

} // verus!
