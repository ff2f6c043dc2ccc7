//! Verified logic of the ancestry inspector: deciding whether a process
//! command line is a `configure` probe, extracting the parent pid from a
//! kernel stat line, and the step relation of the upward walk. Reading the
//! live process tree is left to the caller; every decision about what was
//! read is made here.

use vstd::prelude::*;
use vstd::string::*;
use crate::paths;
use crate::strutil;

verus! {

/// A command line (its fields separated by nul characters) runs the
/// configuration probe exactly when the executable field is non-empty and
/// its final path segment, trailing separators ignored, is exactly
/// `configure`.
pub open spec fn spec_is_configure(s: Seq<char>) -> bool {
    let exe = s.subrange(0, strutil::find_first_from(s, '\0', 0));
    exe.len() > 0 && paths::final_segment(paths::strip_trailing_slashes(exe)) == "configure"@
}

/// Decides whether a nul-separated command line runs a `configure` script:
/// the executable (first field) must have `configure` as its exact final
/// path segment; `reconfigure`, `configure.sh` and the like do not match.
pub fn is_configure_command(cmdline: &str) -> (r: bool)
    ensures
        r == spec_is_configure(cmdline@),
{
    let e = strutil::find_first_char(cmdline, '\0');
    if e == 0 {
        return false;
    }
    let exe = cmdline.substring_char(0, e);
    let base = paths::basename(paths::strip_slashes(exe));
    strutil::str_eq(base, "configure")
}

/// A decimal digit.
pub open spec fn is_dec_digit(c: char) -> bool {
    '0' as int <= c as int && c as int <= '9' as int
}

pub open spec fn digit_val(c: char) -> int {
    c as int - '0' as int
}

pub open spec fn all_digits(s: Seq<char>) -> bool {
    forall|i: int| 0 <= i < s.len() ==> is_dec_digit(#[trigger] s[i])
}

/// The value of a sequence of decimal digits, most significant first.
pub open spec fn dec_val(s: Seq<char>) -> int
    decreases s.len(),
{
    if s.len() == 0 {
        0
    } else {
        dec_val(s.drop_last()) * 10 + digit_val(s.last())
    }
}

pub proof fn lemma_dec_val_nonneg(s: Seq<char>)
    requires
        all_digits(s),
    ensures
        dec_val(s) >= 0,
    decreases s.len(),
{
    if s.len() > 0 {
        assert(all_digits(s.drop_last()));
        lemma_dec_val_nonneg(s.drop_last());
    }
}

pub proof fn lemma_dec_val_prefix_le(s: Seq<char>, k: int)
    requires
        all_digits(s),
        0 <= k <= s.len(),
    ensures
        dec_val(s.subrange(0, k)) <= dec_val(s),
    decreases s.len(),
{
    if k == s.len() {
        assert(s.subrange(0, k) =~= s);
    } else {
        let t = s.drop_last();
        assert(all_digits(t));
        assert(s.subrange(0, k) =~= t.subrange(0, k));
        lemma_dec_val_prefix_le(t, k);
        lemma_dec_val_nonneg(t);
    }
}

/// The result of parsing a decimal numeral as the standard library does
/// for `u32`: an optional leading `+`, then at least one digit, and a
/// value that fits.
pub open spec fn parse_u32_spec(s: Seq<char>) -> Option<u32> {
    let b = if s.len() > 0 && s[0] == '+' {
        s.subrange(1, s.len() as int)
    } else {
        s
    };
    if b.len() > 0 && all_digits(b) && dec_val(b) <= u32::MAX {
        Some(dec_val(b) as u32)
    } else {
        None
    }
}

pub fn parse_u32(s: &str) -> (r: Option<u32>)
    ensures
        r == parse_u32_spec(s@),
{
    let n = s.unicode_len();
    let start: usize = if n > 0 && s.get_char(0) == '+' {
        1
    } else {
        0
    };
    let ghost b = if start == 1 {
        s@.subrange(1, n as int)
    } else {
        s@
    };
    proof {
        if start == 0 {
            assert(s@.subrange(0, n as int) =~= s@);
        }
    }
    assert(b =~= s@.subrange(start as int, n as int));
    if start == n {
        return None;
    }
    let mut acc: u64 = 0;
    let mut i: usize = start;
    while i < n
        invariant
            start <= i <= n,
            n == s@.len(),
            b == s@.subrange(start as int, n as int),
            b == (if s@.len() > 0 && s@[0] == '+' {
                s@.subrange(1, s@.len() as int)
            } else {
                s@
            }),
            b.len() == n - start,
            forall|j: int| 0 <= j < i - start ==> is_dec_digit(#[trigger] b[j]),
            acc == dec_val(b.subrange(0, i - start)),
            acc <= u32::MAX,
        decreases n - i,
    {
        let c = s.get_char(i);
        let cu = c as u32;
        proof {
            assert(b[i - start] == s@[i as int]);
        }
        if cu < 48 || cu > 57 {
            proof {
                assert(c as int == cu as int);
                assert(!is_dec_digit(b[i - start]));
                assert(!all_digits(b));
            }
            return None;
        }
        let d: u64 = (cu - 48) as u64;
        let ghost k = i - start;
        proof {
            assert(b.subrange(0, k + 1).drop_last() =~= b.subrange(0, k as int));
            assert(b.subrange(0, k + 1).last() == b[k as int]);
        }
        let next: u64 = acc * 10 + d;
        assert(next == dec_val(b.subrange(0, k + 1)));
        if next > u32::MAX as u64 {
            proof {
                if all_digits(b) && dec_val(b) <= u32::MAX {
                    lemma_dec_val_prefix_le(b, k + 1);
                    assert(false);
                }
            }
            return None;
        }
        acc = next;
        i += 1;
    }
    proof {
        assert(b.subrange(0, (n - start) as int) =~= b);
    }
    Some(acc as u32)
}

/// Whitespace as the standard library's `char::is_whitespace` defines it:
/// the Unicode `White_Space` characters.
pub open spec fn is_ws(c: char) -> bool {
    c == ' ' || c == '\t' || c == '\n' || c == '\u{b}' || c == '\u{c}' || c == '\r'
        || c == '\u{85}' || c == '\u{a0}' || c == '\u{1680}'
        || (0x2000 <= c as int && c as int <= 0x200a)
        || c == '\u{2028}' || c == '\u{2029}' || c == '\u{202f}' || c == '\u{205f}'
        || c == '\u{3000}'
}

pub fn char_is_ws(c: char) -> (r: bool)
    ensures
        r == is_ws(c),
{
    let u = c as u32;
    c == ' ' || c == '\t' || c == '\n' || c == '\u{b}' || c == '\u{c}' || c == '\r'
        || c == '\u{85}' || c == '\u{a0}' || c == '\u{1680}'
        || (0x2000 <= u && u <= 0x200a)
        || c == '\u{2028}' || c == '\u{2029}' || c == '\u{202f}' || c == '\u{205f}'
        || c == '\u{3000}'
}

/// First index at or after `i` holding a non-whitespace character, or the
/// length of `s`.
pub open spec fn skip_ws_from(s: Seq<char>, i: int) -> int
    decreases s.len() - i,
{
    if i >= s.len() {
        s.len() as int
    } else if is_ws(s[i]) {
        skip_ws_from(s, i + 1)
    } else {
        i
    }
}

/// First index at or after `i` holding a whitespace character, or the
/// length of `s`.
pub open spec fn token_end_from(s: Seq<char>, i: int) -> int
    decreases s.len() - i,
{
    if i >= s.len() {
        s.len() as int
    } else if !is_ws(s[i]) {
        token_end_from(s, i + 1)
    } else {
        i
    }
}

fn skip_ws(s: &str, i: usize) -> (r: usize)
    requires
        i <= s@.len(),
    ensures
        i <= r <= s@.len(),
        r == skip_ws_from(s@, i as int),
{
    let n = s.unicode_len();
    let mut j: usize = i;
    while j < n
        invariant
            i <= j <= n,
            n == s@.len(),
            skip_ws_from(s@, i as int) == skip_ws_from(s@, j as int),
        decreases n - j,
    {
        if !char_is_ws(s.get_char(j)) {
            return j;
        }
        j += 1;
    }
    j
}

fn token_end(s: &str, i: usize) -> (r: usize)
    requires
        i <= s@.len(),
    ensures
        i <= r <= s@.len(),
        r == token_end_from(s@, i as int),
{
    let n = s.unicode_len();
    let mut j: usize = i;
    while j < n
        invariant
            i <= j <= n,
            n == s@.len(),
            token_end_from(s@, i as int) == token_end_from(s@, j as int),
        decreases n - j,
    {
        if char_is_ws(s.get_char(j)) {
            return j;
        }
        j += 1;
    }
    j
}

/// The parent pid held in a kernel stat line: the second whitespace-separated
/// field after the parenthesised command name (the first is the state), read
/// as a decimal numeral. `None` when the line has no such field or the field
/// is not a numeral.
pub open spec fn stat_ppid_of(s: Seq<char>) -> Option<u32> {
    let p = paths::find_last(s, ')');
    if p < 0 || p + 2 > s.len() {
        None
    } else {
        let a = skip_ws_from(s, p + 2);
        if a >= s.len() {
            None
        } else {
            let b = token_end_from(s, a);
            let c = skip_ws_from(s, b);
            if c >= s.len() {
                None
            } else {
                parse_u32_spec(s.subrange(c, token_end_from(s, c)))
            }
        }
    }
}

/// Extracts the parent pid from the contents of a process stat line.
pub fn parse_stat_ppid(stat: &str) -> (r: Option<u32>)
    ensures
        r == stat_ppid_of(stat@),
{
    let n = stat.unicode_len();
    let p = match paths::find_last_char(stat, ')') {
        Some(p) => p,
        None => {
            return None;
        },
    };
    if p + 1 >= n {
        return None;
    }
    let a = skip_ws(stat, p + 2);
    if a == n {
        return None;
    }
    let b = token_end(stat, a);
    let c = skip_ws(stat, b);
    if c == n {
        return None;
    }
    let d = token_end(stat, c);
    let field = stat.substring_char(c, d);
    parse_u32(field)
}

/// Parses the stat line handed back by a parent-pid lookup; a failed lookup
/// resolves to no parent.
pub fn parent_of(stat: Option<&String>) -> (r: Option<u32>)
    ensures
        match stat {
            Some(s) => r == stat_ppid_of(s@),
            None => r is None,
        },
{
    match stat {
        Some(s) => parse_stat_ppid(s.as_str()),
        None => None,
    }
}

/// The next move of the upward ancestry walk.
#[derive(Debug, PartialEq, Eq)]
pub enum AncestorStep {
    /// The walk is over and the invocation is logged normally.
    NotSuppressed,
    /// A configure probe stands above this invocation: logging is suppressed.
    Suppressed,
    /// The walk continues from this parent pid.
    Walk(u32),
}

/// One step of the ancestry walk, given the parent pid resolved for the
/// current process and the command line resolved for that parent. Any
/// lookup failure — an unresolvable parent pid or an unreadable command
/// line — and a parent at the root conservatively end the walk as not
/// suppressed; the walk continues only past a readable, non-probe parent.
pub fn ancestry_step(ppid: Option<u32>, parent_cmdline: Option<&String>) -> (r: AncestorStep)
    ensures
        match ppid {
            None => r is NotSuppressed,
            Some(p) => if p == 0 || p == 1 {
                r is NotSuppressed
            } else {
                match parent_cmdline {
                    Some(c) => if spec_is_configure(c@) {
                        r is Suppressed
                    } else {
                        r == AncestorStep::Walk(p)
                    },
                    None => r is NotSuppressed,
                }
            },
        },
{
    match ppid {
        None => AncestorStep::NotSuppressed,
        Some(p) => {
            if p == 0 || p == 1 {
                AncestorStep::NotSuppressed
            } else {
                match parent_cmdline {
                    Some(c) => {
                        if is_configure_command(c.as_str()) {
                            AncestorStep::Suppressed
                        } else {
                            AncestorStep::Walk(p)
                        }
                    },
                    None => AncestorStep::NotSuppressed,
                }
            }
        },
    }
}

} // verus!
