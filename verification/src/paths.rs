//! Pure logic on path strings: the file-name part of a path, whether a path
//! has a (nonempty) extension, whether its last component is hidden, and how
//! a path looks with its extension replaced. Paths are plain strings whose
//! components are separated by '/'.

use vstd::prelude::*;
use vstd::string::StrSliceExecFns;

verus! {

/// The largest index of `c` in `s`, or -1 when `c` does not occur.
pub open spec fn last_index_of_char(s: Seq<char>, c: char) -> int
    decreases s.len(),
{
    if s.len() == 0 {
        -1
    } else if s[s.len() - 1] == c {
        s.len() - 1
    } else {
        last_index_of_char(s.drop_last(), c)
    }
}

/// `last_index_of_char` points at the last occurrence: the character there is
/// `c` and nothing after it is, and -1 means `c` occurs nowhere.
pub proof fn lemma_last_index_of_char(s: Seq<char>, c: char)
    ensures
        -1 <= last_index_of_char(s, c) < s.len(),
        last_index_of_char(s, c) == -1 ==> forall|j: int| 0 <= j < s.len() ==> s[j] != c,
        last_index_of_char(s, c) >= 0 ==> s[last_index_of_char(s, c)] == c,
        last_index_of_char(s, c) >= 0 ==> forall|j: int|
            last_index_of_char(s, c) < j < s.len() ==> s[j] != c,
    decreases s.len(),
{
    if s.len() > 0 && s[s.len() - 1] != c {
        lemma_last_index_of_char(s.drop_last(), c);
        assert(forall|j: int| 0 <= j < s.len() - 1 ==> s[j] == s.drop_last()[j]);
    }
}

/// The part of `p` after its last '/': the whole of `p` when it has none.
pub open spec fn tail_of(p: Seq<char>) -> Seq<char> {
    p.subrange(last_index_of_char(p, '/') + 1, p.len() as int)
}

/// Whether the last component of `p` names a file at all: it is nonempty and
/// neither "." nor "..".
pub open spec fn spec_file_name_ok(p: Seq<char>) -> bool {
    let t = tail_of(p);
    &&& t.len() > 0
    &&& !(t.len() == 1 && t[0] == '.')
    &&& !(t.len() == 2 && t[0] == '.' && t[1] == '.')
}

/// Whether the last component of `p` is hidden: it names a file and starts
/// with '.'.
pub open spec fn spec_is_hidden(p: Seq<char>) -> bool {
    let t = tail_of(p);
    spec_file_name_ok(p) && t[0] == '.'
}

/// Whether `p` has a nonempty extension: its last component has a '.' that
/// is neither its first nor its last character.
pub open spec fn spec_has_extension(p: Seq<char>) -> bool {
    let t = tail_of(p);
    let d = last_index_of_char(t, '.');
    1 <= d < t.len() - 1
}

/// `p` with its extension (empty or not) replaced by `ext`, or `ext`
/// appended after a new '.' when the last component has none.
pub open spec fn spec_with_extension(p: Seq<char>, ext: Seq<char>) -> Seq<char> {
    let t = tail_of(p);
    let d = last_index_of_char(t, '.');
    let base = if d >= 1 {
        p.subrange(0, p.len() - t.len() + d)
    } else {
        p
    };
    base + seq!['.'] + ext
}

/// Largest index of `c` in `s`, or none.
pub fn last_index_of(s: &str, c: char) -> (r: Option<usize>)
    ensures
        match r {
            Some(i) => i == last_index_of_char(s@, c),
            None => last_index_of_char(s@, c) == -1,
        },
{
    proof {
        lemma_last_index_of_char(s@, c);
    }
    let n = s.unicode_len();
    let mut i = n;
    while i > 0
        invariant
            i <= n,
            n == s@.len(),
            forall|j: int| i <= j < n ==> s@[j] != c,
        decreases i,
    {
        i = i - 1;
        if s.get_char(i) == c {
            proof {
                lemma_last_index_of_char(s@, c);
                let d = last_index_of_char(s@, c);
                if d > i {
                    assert(s@[d] != c);
                } else if d < i {
                    assert(s@[i as int] != c);
                }
            }
            return Some(i);
        }
    }
    None
}

/// The index right after the last '/' of `p`: where its last component starts.
fn tail_start(p: &str) -> (r: usize)
    ensures
        r == last_index_of_char(p@, '/') + 1,
        r <= p@.len(),
        tail_of(p@) == p@.subrange(r as int, p@.len() as int),
{
    proof {
        lemma_last_index_of_char(p@, '/');
    }
    let n = p.unicode_len();
    match last_index_of(p, '/') {
        Some(i) => i + 1,
        None => 0,
    }
}

/// Whether the last component of `p` names a file (nonempty, not "." or "..").
pub fn file_name_ok(p: &str) -> (r: bool)
    ensures
        r == spec_file_name_ok(p@),
{
    let start = tail_start(p);
    let n = p.unicode_len();
    let len = n - start;
    if len == 0 {
        return false;
    }
    let c0 = p.get_char(start);
    if len == 1 {
        return c0 != '.';
    }
    if len == 2 {
        let c1 = p.get_char(start + 1);
        return !(c0 == '.' && c1 == '.');
    }
    true
}

/// The last component of `p`: everything after its last '/'.
pub fn file_name(p: &str) -> (r: &str)
    ensures
        r@ == tail_of(p@),
{
    let start = tail_start(p);
    let n = p.unicode_len();
    p.substring_char(start, n)
}

/// Whether the last component of `p` is hidden (starts with '.', and is a
/// real file name rather than "." or "..").
pub fn is_hidden(p: &str) -> (r: bool)
    ensures
        r == spec_is_hidden(p@),
{
    if !file_name_ok(p) {
        return false;
    }
    let start = tail_start(p);
    p.get_char(start) == '.'
}

/// Whether `p` has a nonempty extension, as its file name shows it: a '.'
/// in the last component that is neither its first nor its last character.
pub fn has_extension(p: &str) -> (r: bool)
    ensures
        r == spec_has_extension(p@),
{
    let start = tail_start(p);
    let n = p.unicode_len();
    let t = p.substring_char(start, n);
    let tn = t.unicode_len();
    proof {
        lemma_last_index_of_char(t@, '.');
    }
    match last_index_of(t, '.') {
        None => false,
        Some(d) => 1 <= d && d + 1 < tn,
    }
}

/// `p` with its extension replaced by (or, when it has none, extended with)
/// `.ext`; none when the last component of `p` is not a file name.
pub fn with_extension(p: &str, ext: &str) -> (r: Option<String>)
    ensures
        match r {
            Some(s) => spec_file_name_ok(p@) && s@ == spec_with_extension(p@, ext@),
            None => !spec_file_name_ok(p@),
        },
{
    if !file_name_ok(p) {
        return None;
    }
    let start = tail_start(p);
    let n = p.unicode_len();
    let t = p.substring_char(start, n);
    proof {
        lemma_last_index_of_char(t@, '.');
    }
    let cut: usize = match last_index_of(t, '.') {
        Some(d) if d >= 1 => start + d,
        _ => n,
    };
    let mut out = p.substring_char(0, cut).to_owned();
    out.append(".");
    out.append(ext);
    proof {
        reveal_strlit(".");
        assert("."@ =~= seq!['.']);
        let tt = tail_of(p@);
        let d = last_index_of_char(tt, '.');
        if d >= 1 {
            assert(p@.subrange(0, cut as int) == p@.subrange(0, p@.len() - tt.len() + d));
        } else {
            assert(p@.subrange(0, n as int) =~= p@);
        }
        assert(out@ =~= spec_with_extension(p@, ext@));
    }
    Some(out)
}

} // verus!
