//! Splitting a path into base name and extension, and joining them back.
use vstd::prelude::*;

verus! {

/// Index of the last `.` in `s`, or -1 when there is none.
pub open spec fn last_dot(s: Seq<char>) -> int
    decreases s.len(),
{
    if s.len() == 0 {
        -1
    } else if s.last() == '.' {
        s.len() - 1
    } else {
        last_dot(s.drop_last())
    }
}

/// Everything before the last `.`; the whole path when there is no `.`.
pub open spec fn base_of(s: Seq<char>) -> Seq<char> {
    if last_dot(s) < 0 {
        s
    } else {
        s.subrange(0, last_dot(s))
    }
}

/// Everything after the last `.`; empty when there is no `.`.
pub open spec fn ext_of(s: Seq<char>) -> Seq<char> {
    if last_dot(s) < 0 {
        Seq::empty()
    } else {
        s.subrange(last_dot(s) + 1, s.len() as int)
    }
}

/// The file name `{base}.{ext}`.
pub open spec fn joined(base: Seq<char>, ext: Seq<char>) -> Seq<char> {
    base + seq!['.'] + ext
}

proof fn lemma_last_dot_range(s: Seq<char>)
    ensures
        -1 <= last_dot(s) < s.len(),
        last_dot(s) >= 0 ==> s[last_dot(s)] == '.',
        last_dot(s) < 0 ==> !s.contains('.'),
    decreases s.len(),
{
    if s.len() > 0 && s.last() != '.' {
        lemma_last_dot_range(s.drop_last());
        if last_dot(s) < 0 && s.contains('.') {
            let i = choose|i: int| 0 <= i < s.len() && s[i] == '.';
            assert(s.drop_last()[i] == '.');
        }
    }
}

/// The last `.` of `a + '.' + b`, with `b` free of dots, is the one in between.
pub proof fn lemma_last_dot_of_joined(a: Seq<char>, b: Seq<char>)
    requires
        !b.contains('.'),
    ensures
        last_dot(joined(a, b)) == a.len(),
        base_of(joined(a, b)) == a,
        ext_of(joined(a, b)) == b,
    decreases b.len(),
{
    let s = joined(a, b);
    if b.len() == 0 {
        assert(s.last() == '.');
    } else {
        assert(s.last() == b.last());
        assert(b.contains(b.last()) ==> b.last() != '.');
        assert(b.drop_last().len() < b.len());
        if b.drop_last().contains('.') {
            let i = choose|i: int| 0 <= i < b.drop_last().len() && b.drop_last()[i] == '.';
            assert(b[i] == '.');
        }
        lemma_last_dot_of_joined(a, b.drop_last());
        assert(s.drop_last() =~= joined(a, b.drop_last()));
    }
    assert(base_of(s) =~= a);
    assert(ext_of(s) =~= b);
}

/// A path without a dot has itself as base and an empty extension.
pub proof fn lemma_no_dot(s: Seq<char>)
    requires
        !s.contains('.'),
    ensures
        last_dot(s) == -1,
        base_of(s) == s,
        ext_of(s) == Seq::<char>::empty(),
{
    lemma_last_dot_range(s);
    if last_dot(s) >= 0 {
        assert(s[last_dot(s)] == '.');
    }
}

/// Giving a path with an extension another, dot-free extension keeps its
/// base, and putting the old extension back restores the path.
pub proof fn lemma_rename_round_trip(path: Seq<char>, target: Seq<char>)
    requires
        path.contains('.'),
        !target.contains('.'),
    ensures
        base_of(joined(base_of(path), target)) == base_of(path),
        ext_of(joined(base_of(path), target)) == target,
        joined(base_of(joined(base_of(path), target)), ext_of(path)) == path,
{
    lemma_last_dot_range(path);
    lemma_last_dot_of_joined(base_of(path), target);
    assert(joined(base_of(path), ext_of(path)) =~= path);
}

/// Splits a path on its last `.` into base name and extension.
/// A path without a `.` is all base, with an empty extension.
pub fn split_name(path: &str) -> (r: (String, String))
    ensures
        r.0@ == base_of(path@),
        r.1@ == ext_of(path@),
{
    let n = path.unicode_len();
    let mut i: usize = n;
    while i > 0
        invariant
            i <= n,
            n == path@.len(),
            forall|j: int| i <= j < n ==> path@[j] != '.',
        decreases i,
    {
        if path.get_char(i - 1) == '.' {
            let base = path.substring_char(0, i - 1);
            let ext = path.substring_char(i, n);
            proof {
                assert(path@ =~= joined(base@, ext@));
                if ext@.contains('.') {
                    let k = choose|k: int| 0 <= k < ext@.len() && ext@[k] == '.';
                    assert(path@[i + k] == '.');
                }
                lemma_last_dot_of_joined(base@, ext@);
            }
            return (String::from_str(base), String::from_str(ext));
        }
        i = i - 1;
    }
    proof {
        if path@.contains('.') {
            let k = choose|k: int| 0 <= k < path@.len() && path@[k] == '.';
        }
        lemma_no_dot(path@);
    }
    (String::from_str(path), String::new())
}

/// Builds the file name `{base}.{ext}`.
pub fn join_name(base: &str, ext: &str) -> (r: String)
    ensures
        r@ == joined(base@, ext@),
{
    proof {
        reveal_strlit(".");
    }
    String::from_str(base).concat(".").concat(ext)
}

} // verus!
