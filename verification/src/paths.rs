//! Path handling on plain strings. A path is a sequence of characters in
//! which `/` separates components; the file name is everything after the
//! last separator. The extension of a file name is everything after its
//! last dot, provided that dot is not the first character of the name.

use vstd::prelude::*;

verus! {

/// Index of the first character of the file-name component: one past the
/// last separator, or `0` when the path holds no separator.
pub open spec fn spec_name_start(p: Seq<char>) -> int
    decreases p.len(),
{
    if p.len() == 0 {
        0
    } else if p[p.len() - 1] == '/' {
        p.len() as int
    } else {
        spec_name_start(p.drop_last())
    }
}

/// Index of the dot that begins the extension: the last dot strictly after
/// the file name's first character `k`, or `-1` when there is none.
pub open spec fn spec_ext_dot(p: Seq<char>, k: int) -> int
    decreases p.len(),
{
    if p.len() == 0 || p.len() < k + 2 {
        -1
    } else if p[p.len() - 1] == '.' {
        p.len() - 1
    } else {
        spec_ext_dot(p.drop_last(), k)
    }
}

/// The file-name component of `p`.
pub open spec fn spec_file_name(p: Seq<char>) -> Seq<char> {
    p.subrange(spec_name_start(p), p.len() as int)
}

/// Where the stem of the file name ends: at the extension dot, or at the
/// end of the path when the name has no extension.
pub open spec fn spec_stem_end(p: Seq<char>) -> int {
    let d = spec_ext_dot(p, spec_name_start(p));
    if d >= 0 {
        d
    } else {
        p.len() as int
    }
}

/// `pat` occurs in `s` starting at index `i`.
pub open spec fn spec_contains_at(s: Seq<char>, pat: Seq<char>, i: int) -> bool {
    &&& 0 <= i
    &&& i + pat.len() <= s.len()
    &&& s.subrange(i, i + pat.len()) == pat
}

/// `pat` occurs somewhere in `s`.
pub open spec fn spec_contains(s: Seq<char>, pat: Seq<char>) -> bool {
    exists|i: int| spec_contains_at(s, pat, i)
}

proof fn lemma_name_start_le_len(p: Seq<char>)
    ensures
        0 <= spec_name_start(p) <= p.len(),
    decreases p.len(),
{
    if p.len() != 0 && p[p.len() - 1] != '/' {
        lemma_name_start_le_len(p.drop_last());
    }
}

proof fn lemma_ext_dot_range(p: Seq<char>, k: int)
    requires
        k >= 0,
    ensures
        spec_ext_dot(p, k) == -1 || k < spec_ext_dot(p, k) < p.len(),
    decreases p.len(),
{
    if !(p.len() < k + 2) && p[p.len() - 1] != '.' {
        lemma_ext_dot_range(p.drop_last(), k);
    }
}

/// First character index of the file-name component of `p`.
pub fn name_start(p: &str) -> (k: usize)
    ensures
        k as int == spec_name_start(p@),
        k <= p@.len(),
{
    let len = p.unicode_len();
    proof {
        assert(p@.subrange(0, len as int) =~= p@);
    }
    let mut i: usize = len;
    while i > 0 && p.get_char(i - 1) != '/'
        invariant
            i <= len,
            len == p@.len(),
            spec_name_start(p@) == spec_name_start(p@.subrange(0, i as int)),
        decreases i,
    {
        proof {
            assert(p@.subrange(0, i as int).drop_last() =~= p@.subrange(0, i - 1 as int));
            assert(p@.subrange(0, i as int)[i - 1] == p@[i - 1]);
        }
        i = i - 1;
    }
    proof {
        if i == 0 {
            assert(p@.subrange(0, 0) =~= Seq::<char>::empty());
        } else {
            assert(p@.subrange(0, i as int)[i - 1] == p@[i - 1]);
        }
    }
    i
}

/// Index of the extension dot of `p`, where the file name starts at `k`.
pub fn ext_dot(p: &str, k: usize) -> (r: Option<usize>)
    requires
        k as int == spec_name_start(p@),
    ensures
        match r {
            Some(d) => d as int == spec_ext_dot(p@, k as int) && k < d < p@.len(),
            None => spec_ext_dot(p@, k as int) == -1,
        },
{
    let len = p.unicode_len();
    proof {
        lemma_name_start_le_len(p@);
        assert(p@.subrange(0, len as int) =~= p@);
    }
    let mut i: usize = len;
    while i - k >= 2 && p.get_char(i - 1) != '.'
        invariant
            k as int == spec_name_start(p@),
            k <= i <= len,
            len == p@.len(),
            spec_ext_dot(p@, k as int) == spec_ext_dot(p@.subrange(0, i as int), k as int),
        decreases i,
    {
        proof {
            assert(p@.subrange(0, i as int).drop_last() =~= p@.subrange(0, i - 1 as int));
            assert(p@.subrange(0, i as int)[i - 1] == p@[i - 1]);
        }
        i = i - 1;
    }
    proof {
        lemma_ext_dot_range(p@, k as int);
    }
    if i - k >= 2 {
        proof {
            assert(p@.subrange(0, i as int)[i - 1] == p@[i - 1]);
        }
        Some(i - 1)
    } else {
        proof {
            assert(p@.subrange(0, i as int).len() < k + 2);
        }
        None
    }
}

/// The characters of `a` and `b` are the same sequence.
pub fn str_eq(a: &str, b: &str) -> (r: bool)
    ensures
        r == (a@ == b@),
{
    let a_len = a.unicode_len();
    let b_len = b.unicode_len();
    if a_len != b_len {
        return false;
    }
    let mut i: usize = 0;
    while i < a_len
        invariant
            i <= a_len,
            a_len == a@.len(),
            a_len == b@.len(),
            forall|j: int| 0 <= j < i ==> a@[j] == b@[j],
        decreases a_len - i,
    {
        if a.get_char(i) != b.get_char(i) {
            return false;
        }
        i = i + 1;
    }
    proof {
        assert(a@ =~= b@);
    }
    true
}

/// `pat` occurs in `hay` starting at index `i`.
fn contains_at(hay: &str, pat: &str, i: usize) -> (r: bool)
    requires
        i + pat@.len() <= hay@.len(),
    ensures
        r == spec_contains_at(hay@, pat@, i as int),
{
    let hay_len = hay.unicode_len();
    let pat_len = pat.unicode_len();
    let mut k: usize = 0;
    while k < pat_len
        invariant
            k <= pat_len,
            pat_len == pat@.len(),
            hay_len == hay@.len(),
            i + pat_len <= hay_len,
            forall|j: int| 0 <= j < k ==> hay@[i + j] == pat@[j],
        decreases pat_len - k,
    {
        if hay.get_char(i + k) != pat.get_char(k) {
            proof {
                assert(hay@.subrange(i as int, i + pat@.len())[k as int] != pat@[k as int]);
            }
            return false;
        }
        k = k + 1;
    }
    proof {
        assert(hay@.subrange(i as int, i + pat@.len()) =~= pat@);
    }
    true
}

/// `pat` occurs somewhere in `hay`.
pub fn str_contains(hay: &str, pat: &str) -> (r: bool)
    ensures
        r == spec_contains(hay@, pat@),
{
    let hay_len = hay.unicode_len();
    let pat_len = pat.unicode_len();
    if pat_len == 0 {
        proof {
            assert(hay@.subrange(0, 0) =~= pat@);
            assert(spec_contains_at(hay@, pat@, 0));
        }
        return true;
    }
    if hay_len < pat_len {
        return false;
    }
    let mut i: usize = 0;
    while i <= hay_len - pat_len
        invariant
            hay_len == hay@.len(),
            pat_len == pat@.len(),
            1 <= pat_len <= hay_len,
            i <= hay_len - pat_len + 1,
            forall|j: int| 0 <= j < i ==> !spec_contains_at(hay@, pat@, j),
        decreases hay_len - i,
    {
        if contains_at(hay, pat, i) {
            return true;
        }
        i = i + 1;
    }
    false
}

/// Join a directory path and one further component with a separator; a
/// trailing separator on the base is not doubled.
pub fn join_path(base: &str, comp: &str) -> (r: String)
    ensures
        r@ == spec_join_path(base@, comp@),
{
    let len = base.unicode_len();
    if len > 0 && base.get_char(len - 1) == '/' {
        String::from_str(base).concat(comp)
    } else {
        let mut s = String::from_str(base);
        s.append("/");
        s.concat(comp)
    }
}

/// The join of `base` and `comp`: separated by `/` unless `base` already
/// ends with one.
pub open spec fn spec_join_path(base: Seq<char>, comp: Seq<char>) -> Seq<char> {
    if base.len() > 0 && base[base.len() - 1] == '/' {
        base + comp
    } else {
        base + "/"@ + comp
    }
}

} // verus!
