//! Verified path-string logic: absolute-path test, final path segment,
//! lock-file path derivation, and joining a working directory with a
//! relative argument. Paths are modelled as their character sequences,
//! with `/` as the separator.

use vstd::prelude::*;
use vstd::string::*;
use crate::strutil;

verus! {

/// An absolute path: non-empty and rooted at `/`.
pub open spec fn abs_path(s: Seq<char>) -> bool {
    s.len() > 0 && s[0] == '/'
}

pub fn path_is_absolute(p: &str) -> (r: bool)
    ensures
        r == abs_path(p@),
{
    let n = p.unicode_len();
    if n == 0 {
        false
    } else {
        p.get_char(0) == '/'
    }
}

/// Index of the last occurrence of `c` at a position below `i`, or -1 if
/// there is none.
pub open spec fn find_last_before(s: Seq<char>, c: char, i: int) -> int
    decreases i,
{
    if i <= 0 {
        -1
    } else if s[i - 1] == c {
        i - 1
    } else {
        find_last_before(s, c, i - 1)
    }
}

/// Index of the last occurrence of `c` in `s`, or -1 if `c` does not occur.
pub open spec fn find_last(s: Seq<char>, c: char) -> int {
    find_last_before(s, c, s.len() as int)
}

pub proof fn lemma_find_last_bounds(s: Seq<char>, c: char, i: int)
    ensures
        -1 <= find_last_before(s, c, i),
        i >= 0 ==> find_last_before(s, c, i) < i,
    decreases i,
{
    if i > 0 && s[i - 1] != c {
        lemma_find_last_bounds(s, c, i - 1);
    }
}

pub fn find_last_char(s: &str, c: char) -> (r: Option<usize>)
    ensures
        match r {
            Some(j) => j < s@.len() && find_last(s@, c) == j,
            None => find_last(s@, c) == -1,
        },
{
    let n = s.unicode_len();
    let mut j: usize = n;
    while j > 0
        invariant
            j <= n,
            n == s@.len(),
            find_last_before(s@, c, n as int) == find_last_before(s@, c, j as int),
        decreases j,
    {
        j -= 1;
        if s.get_char(j) == c {
            return Some(j);
        }
    }
    None
}

/// The text after the last `/` of `s` (all of `s` when it has no `/`).
pub open spec fn final_segment(s: Seq<char>) -> Seq<char> {
    s.subrange(find_last(s, '/') + 1, s.len() as int)
}

pub fn basename<'a>(s: &'a str) -> (r: &'a str)
    ensures
        r@ == final_segment(s@),
{
    let n = s.unicode_len();
    match find_last_char(s, '/') {
        Some(j) => s.substring_char(j + 1, n),
        None => {
            proof {
                assert(s@.subrange(0, s@.len() as int) =~= s@);
            }
            s
        },
    }
}

/// The path without its trailing separators.
pub open spec fn strip_trailing_slashes(s: Seq<char>) -> Seq<char>
    decreases s.len(),
{
    if s.len() > 0 && s.last() == '/' {
        strip_trailing_slashes(s.drop_last())
    } else {
        s
    }
}

pub fn strip_slashes<'a>(s: &'a str) -> (r: &'a str)
    ensures
        r@ == strip_trailing_slashes(s@),
{
    let n = s.unicode_len();
    let mut m: usize = n;
    proof {
        assert(s@.subrange(0, s@.len() as int) =~= s@);
    }
    while m > 0 && s.get_char(m - 1) == '/'
        invariant
            m <= n,
            n == s@.len(),
            strip_trailing_slashes(s@) == strip_trailing_slashes(s@.subrange(0, m as int)),
        decreases m,
    {
        proof {
            assert(s@.subrange(0, m as int).drop_last() =~= s@.subrange(0, (m - 1) as int));
            assert(s@.subrange(0, m as int).last() == s@[m - 1]);
        }
        m -= 1;
    }
    proof {
        if m > 0 {
            assert(s@.subrange(0, m as int).last() == s@[m - 1]);
        }
        assert(strip_trailing_slashes(s@.subrange(0, m as int)) == s@.subrange(0, m as int));
    }
    s.substring_char(0, m)
}

/// The sidecar lock path for a log path. Trailing separators are ignored;
/// then the final component's extension (the part from its last `.`, when
/// that dot is neither the component's first character) is replaced by
/// `.lock`, and a component without an extension gets `.lock` appended. A
/// path of separators alone has no component to work on and stands
/// unchanged.
pub open spec fn lock_path_of(s: Seq<char>) -> Seq<char> {
    let t = strip_trailing_slashes(s);
    if t.len() == 0 {
        s
    } else {
        let slash = find_last(t, '/');
        let dot = find_last(t, '.');
        if dot > slash + 1 {
            t.subrange(0, dot) + ".lock"@
        } else {
            t + ".lock"@
        }
    }
}

pub fn lock_path_for(p: &str) -> (r: String)
    ensures
        r@ == lock_path_of(p@),
{
    let t = strip_slashes(p);
    let n = t.unicode_len();
    if n == 0 {
        return String::from_str(p);
    }
    let dot = find_last_char(t, '.');
    let slash = find_last_char(t, '/');
    let stem_end: usize = match (dot, slash) {
        (Some(d), Some(sl)) => if d > sl + 1 {
            d
        } else {
            n
        },
        (Some(d), None) => if d > 0 {
            d
        } else {
            n
        },
        (None, _) => n,
    };
    proof {
        lemma_find_last_bounds(t@, '.', t@.len() as int);
        lemma_find_last_bounds(t@, '/', t@.len() as int);
        if stem_end == n {
            assert(t@.subrange(0, n as int) =~= t@);
        }
    }
    let stem = t.substring_char(0, stem_end);
    let mut r = String::from_str(stem);
    r.append(".lock");
    r
}

/// Joining a working directory and a command-line argument: an absolute
/// argument stands alone; an empty directory leaves the argument as it is;
/// otherwise the two are joined with a single `/`.
pub open spec fn join_path(wd: Seq<char>, a: Seq<char>) -> Seq<char> {
    if abs_path(a) {
        a
    } else if wd.len() == 0 {
        a
    } else if wd[wd.len() - 1] == '/' {
        wd + a
    } else {
        wd + seq!['/'] + a
    }
}

pub fn path_join(wd: &str, arg: &str) -> (r: String)
    ensures
        r@ == join_path(wd@, arg@),
{
    let n = wd.unicode_len();
    if path_is_absolute(arg) || n == 0 {
        String::from_str(arg)
    } else {
        let mut r = String::from_str(wd);
        if wd.get_char(n - 1) != '/' {
            strutil::string_push(&mut r, '/');
            proof {
                assert(wd@.push('/') =~= wd@ + seq!['/']);
            }
        }
        r.append(arg);
        r
    }
}

} // verus!
