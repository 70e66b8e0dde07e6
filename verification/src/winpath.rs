//! The component rule of Windows paths, the platform this host runs on:
//! which relative paths consist of ordinary (`Normal`) components only.
use vstd::prelude::*;
use crate::text;

verus! {

/// A path separator on Windows.
pub open spec fn is_sep(c: char) -> bool {
    c == '/' || c == '\\'
}

/// `\` read as `/`, so that one split finds every component.
pub open spec fn unify_sep(c: char) -> char {
    if c == '\\' {
        '/'
    } else {
        c
    }
}

/// The path with both separators written as `/`.
pub open spec fn unified(s: Seq<char>) -> Seq<char> {
    s.map_values(|c: char| unify_sep(c))
}

/// The text between separators, empty pieces included.
pub open spec fn segments(s: Seq<char>) -> Seq<Seq<char>> {
    text::split_spec(unified(s), '/')
}

/// The segment `..`, a parent-directory component.
pub open spec fn is_parent(seg: Seq<char>) -> bool {
    seg == seq!['.', '.']
}

/// The segment `.`, a current-directory component when it comes first.
pub open spec fn is_current(seg: Seq<char>) -> bool {
    seg == seq!['.']
}

/// Every component of the Windows path `s` is `Normal`: no leading separator
/// (root, UNC or verbatim prefix), no drive prefix such as `C:`, no `.` as the
/// first component (a later `.` is dropped by the component reader) and no `..`.
pub open spec fn components_normal(s: Seq<char>) -> bool {
    &&& !(s.len() >= 1 && is_sep(s[0]))
    &&& !(s.len() >= 2 && text::is_alpha(s[0]) && s[1] == ':')
    &&& !is_current(segments(s)[0])
    &&& forall|k: int| 0 <= k < segments(s).len() ==> !is_parent(#[trigger] segments(s)[k])
}

/// A non-empty relative path without NUL whose components are all ordinary names.
pub open spec fn safe_relative(s: Seq<char>) -> bool {
    s.len() > 0 && !text::has_char(s, '\0') && components_normal(s)
}

/// Replaces `\` by `/`.
fn unify_vec(v: &Vec<char>) -> (w: Vec<char>)
    ensures
        w@ == unified(v@),
{
    let mut w: Vec<char> = Vec::new();
    let mut i: usize = 0;
    while i < v.len()
        invariant
            i <= v.len(),
            w@ == v@.take(i as int).map_values(|c: char| unify_sep(c)),
        decreases v.len() - i,
    {
        let c = v[i];
        w.push(if c == '\\' { '/' } else { c });
        i = i + 1;
        assert(w@ =~= v@.take(i as int).map_values(|c: char| unify_sep(c)));
    }
    assert(v@.take(v.len() as int) =~= v@);
    w
}

/// `components_normal` of the characters in `v`.
pub fn components_normal_vec(v: &Vec<char>) -> (res: bool)
    ensures
        res == components_normal(v@),
{
    let n = v.len();
    if n >= 1 && (v[0] == '/' || v[0] == '\\') {
        return false;
    }
    if n >= 2 && (('a' <= v[0] && v[0] <= 'z') || ('A' <= v[0] && v[0] <= 'Z')) && v[1] == ':' {
        return false;
    }
    let w = unify_vec(v);
    let parts = text::split_ranges(&w, 0, n, '/');
    proof {
        assert(w@.subrange(0, n as int) =~= w@);
    }
    let (a, b) = parts[0];
    assert(parts@[0] == (a, b));
    if b - a == 1 && w[a] == '.' {
        assert(segments(v@)[0] =~= seq!['.']);
        return false;
    }
    assert(!is_current(segments(v@)[0])) by {
        assert(segments(v@) == text::split_spec(w@.subrange(0, n as int), '/'));
        assert(w@.subrange(a as int, b as int) == segments(v@)[0]);
        if is_current(segments(v@)[0]) {
            assert(w@.subrange(a as int, b as int).len() == 1);
            assert(w@.subrange(a as int, b as int)[0] == w@[a as int]);
        }
    }
    let mut k: usize = 0;
    while k < parts.len()
        invariant
            k <= parts.len(),
            w.len() == n,
            parts.len() == segments(v@).len(),
            forall|j: int|
                0 <= j < parts.len() ==> (#[trigger] parts@[j]).0 <= parts@[j].1 <= n && w@.subrange(
                    parts@[j].0 as int,
                    parts@[j].1 as int,
                ) == segments(v@)[j],
            forall|j: int| 0 <= j < k ==> !is_parent(#[trigger] segments(v@)[j]),
        decreases parts.len() - k,
    {
        let (a, b) = parts[k];
        assert(parts@[k as int] == (a, b));
        if b - a == 2 && w[a] == '.' && w[a + 1] == '.' {
            assert(segments(v@)[k as int] =~= seq!['.', '.']);
            return false;
        }
        assert(!is_parent(segments(v@)[k as int])) by {
            if is_parent(segments(v@)[k as int]) {
                assert(w@.subrange(a as int, b as int)[0] == w@[a as int]);
                assert(w@.subrange(a as int, b as int)[1] == w@[a + 1]);
            }
        }
        k = k + 1;
    }
    true
}

/// `safe_relative` of the characters in `v`.
pub fn safe_relative_vec(v: &Vec<char>) -> (res: bool)
    ensures
        res == safe_relative(v@),
{
    if v.len() == 0 {
        return false;
    }
    let mut i: usize = 0;
    while i < v.len()
        invariant
            i <= v.len(),
            forall|k: int| 0 <= k < i ==> v@[k] != '\0',
        decreases v.len() - i,
    {
        if v[i] == '\0' {
            return false;
        }
        i = i + 1;
    }
    components_normal_vec(v)
}

} // verus!
