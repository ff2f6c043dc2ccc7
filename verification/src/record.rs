//! The invocation record's one-line JSON rendering, and what the shared
//! ledger built from such lines looks like. A record carries the working
//! directory, the substituted compiler and the argument vector; it is
//! rendered as a single JSON object on one line, so the ledger stays
//! one-record-per-line however many writers append to it in turn.

use vstd::prelude::*;
use vstd::string::*;
use crate::strutil;

verus! {

/// The lower-case hexadecimal digit for a value below 16.
pub open spec fn hex_digit(n: int) -> char {
    if n == 0 {
        '0'
    } else if n == 1 {
        '1'
    } else if n == 2 {
        '2'
    } else if n == 3 {
        '3'
    } else if n == 4 {
        '4'
    } else if n == 5 {
        '5'
    } else if n == 6 {
        '6'
    } else if n == 7 {
        '7'
    } else if n == 8 {
        '8'
    } else if n == 9 {
        '9'
    } else if n == 10 {
        'a'
    } else if n == 11 {
        'b'
    } else if n == 12 {
        'c'
    } else if n == 13 {
        'd'
    } else if n == 14 {
        'e'
    } else {
        'f'
    }
}

pub fn hex_digit_char(n: u32) -> (r: char)
    requires
        n < 16,
    ensures
        r == hex_digit(n as int),
{
    match n {
        0 => '0',
        1 => '1',
        2 => '2',
        3 => '3',
        4 => '4',
        5 => '5',
        6 => '6',
        7 => '7',
        8 => '8',
        9 => '9',
        10 => 'a',
        11 => 'b',
        12 => 'c',
        13 => 'd',
        14 => 'e',
        _ => 'f',
    }
}

/// How one character appears inside a JSON string literal: quote and
/// backslash are escaped, control characters take their short escape or the
/// `\u00..` form, and every other character stands as itself.
pub open spec fn escape_char(c: char) -> Seq<char> {
    if c == '"' {
        "\\\""@
    } else if c == '\\' {
        "\\\\"@
    } else if c == '\u{8}' {
        "\\b"@
    } else if c == '\u{c}' {
        "\\f"@
    } else if c == '\n' {
        "\\n"@
    } else if c == '\r' {
        "\\r"@
    } else if c == '\t' {
        "\\t"@
    } else if (c as int) < 0x20 {
        "\\u00"@ + seq![hex_digit((c as int) / 16), hex_digit((c as int) % 16)]
    } else {
        seq![c]
    }
}

/// A text escaped character for character.
pub open spec fn escape_text(s: Seq<char>) -> Seq<char>
    decreases s.len(),
{
    if s.len() == 0 {
        Seq::empty()
    } else {
        escape_text(s.drop_last()) + escape_char(s.last())
    }
}

/// The JSON string literal holding `s`.
pub open spec fn json_string(s: Seq<char>) -> Seq<char> {
    "\""@ + escape_text(s) + "\""@
}

/// JSON string literals joined by commas.
pub open spec fn joined_strings(items: Seq<Seq<char>>) -> Seq<char>
    decreases items.len(),
{
    if items.len() == 0 {
        Seq::empty()
    } else if items.len() == 1 {
        json_string(items[0])
    } else {
        joined_strings(items.drop_last()) + ","@ + json_string(items.last())
    }
}

/// The JSON array of string literals holding `items`.
pub open spec fn json_string_array(items: Seq<Seq<char>>) -> Seq<char> {
    "["@ + joined_strings(items) + "]"@
}

/// One invocation record as a single JSON line: the working directory, the
/// substituted compiler and the argument vector, in that order.
pub open spec fn record_line(wd: Seq<char>, compiler: Seq<char>, args: Seq<Seq<char>>) -> Seq<
    char,
> {
    "{\"wd\":"@ + json_string(wd) + ",\"compiler\":"@ + json_string(compiler) + ",\"args\":"@
        + json_string_array(args) + "}"@
}

fn append_escaped(out: &mut String, s: &str)
    ensures
        final(out)@ == old(out)@ + escape_text(s@),
{
    let n = s.unicode_len();
    let mut i: usize = 0;
    while i < n
        invariant
            i <= n,
            n == s@.len(),
            out@ == old(out)@ + escape_text(s@.subrange(0, i as int)),
        decreases n - i,
    {
        let c = s.get_char(i);
        let ghost pre = out@;
        proof {
            assert(s@.subrange(0, (i + 1) as int).drop_last() =~= s@.subrange(0, i as int));
            assert(s@.subrange(0, (i + 1) as int).last() == c);
        }
        if c == '"' {
            out.append("\\\"");
        } else if c == '\\' {
            out.append("\\\\");
        } else if c == '\u{8}' {
            out.append("\\b");
        } else if c == '\u{c}' {
            out.append("\\f");
        } else if c == '\n' {
            out.append("\\n");
        } else if c == '\r' {
            out.append("\\r");
        } else if c == '\t' {
            out.append("\\t");
        } else if (c as u32) < 0x20 {
            out.append("\\u00");
            let cu = c as u32;
            strutil::string_push(out, hex_digit_char(cu / 16));
            strutil::string_push(out, hex_digit_char(cu % 16));
            proof {
                assert(out@ =~= pre + escape_char(c));
            }
        } else {
            strutil::string_push(out, c);
            proof {
                assert(out@ =~= pre + escape_char(c));
            }
        }
        proof {
            assert(out@ == pre + escape_char(c));
            assert(out@ =~= old(out)@ + escape_text(s@.subrange(0, (i + 1) as int)));
        }
        i += 1;
    }
    proof {
        assert(s@.subrange(0, n as int) =~= s@);
    }
}

fn append_json_string(out: &mut String, s: &str)
    ensures
        final(out)@ == old(out)@ + json_string(s@),
{
    out.append("\"");
    append_escaped(out, s);
    out.append("\"");
    proof {
        assert(out@ =~= old(out)@ + json_string(s@));
    }
}

/// Renders one invocation record as its single JSON line (without the
/// terminating newline).
pub fn render_record(wd: &str, compiler: &str, args: &Vec<String>) -> (r: String)
    ensures
        r@ == record_line(wd@, compiler@, args.deep_view()),
        single_line(r@),
{
    proof {
        lemma_record_line_single_line(wd@, compiler@, args.deep_view());
    }
    let ghost items = args.deep_view();
    let mut out = String::new();
    out.append("{\"wd\":");
    append_json_string(&mut out, wd);
    out.append(",\"compiler\":");
    append_json_string(&mut out, compiler);
    out.append(",\"args\":");
    out.append("[");
    let ghost base = out@;
    let mut i: usize = 0;
    while i < args.len()
        invariant
            i <= args.len(),
            items == args.deep_view(),
            items.len() == args.len(),
            base == "{\"wd\":"@ + json_string(wd@) + ",\"compiler\":"@ + json_string(compiler@)
                + ",\"args\":"@ + "["@,
            out@ == base + joined_strings(items.subrange(0, i as int)),
        decreases args.len() - i,
    {
        let ghost pre = out@;
        if i > 0 {
            out.append(",");
        }
        append_json_string(&mut out, args[i].as_str());
        proof {
            assert(items[i as int] == args@[i as int]@);
            let head = items.subrange(0, i as int);
            let grown = items.subrange(0, (i + 1) as int);
            assert(grown.drop_last() =~= head);
            assert(grown.last() == items[i as int]);
            if i == 0 {
                assert(grown.len() == 1);
                assert(grown[0] == items[0]);
                assert(out@ =~= base + joined_strings(grown));
            } else {
                assert(out@ =~= base + joined_strings(grown));
            }
        }
        i += 1;
    }
    out.append("]");
    out.append("}");
    proof {
        assert(items.subrange(0, items.len() as int) =~= items);
        assert(out@ =~= record_line(wd@, compiler@, args.deep_view()));
    }
    out
}

/// A text that stays on one line: it holds no newline character.
pub open spec fn single_line(s: Seq<char>) -> bool {
    forall|j: int| 0 <= j < s.len() ==> #[trigger] s[j] != '\n'
}

proof fn lemma_escape_char_single_line(c: char)
    ensures
        single_line(escape_char(c)),
{
    reveal_strlit("\\\"");
    reveal_strlit("\\\\");
    reveal_strlit("\\b");
    reveal_strlit("\\f");
    reveal_strlit("\\n");
    reveal_strlit("\\r");
    reveal_strlit("\\t");
    reveal_strlit("\\u00");
}

proof fn lemma_escape_text_single_line(s: Seq<char>)
    ensures
        single_line(escape_text(s)),
    decreases s.len(),
{
    if s.len() > 0 {
        lemma_escape_text_single_line(s.drop_last());
        lemma_escape_char_single_line(s.last());
    }
}

proof fn lemma_json_string_single_line(s: Seq<char>)
    ensures
        single_line(json_string(s)),
{
    reveal_strlit("\"");
    lemma_escape_text_single_line(s);
}

proof fn lemma_joined_strings_single_line(items: Seq<Seq<char>>)
    ensures
        single_line(joined_strings(items)),
    decreases items.len(),
{
    reveal_strlit(",");
    if items.len() == 1 {
        lemma_json_string_single_line(items[0]);
    } else if items.len() > 1 {
        lemma_joined_strings_single_line(items.drop_last());
        lemma_json_string_single_line(items.last());
    }
}

/// A rendered record is a single line: whatever the working directory, the
/// compiler and the arguments hold, every newline in them is escaped, so the
/// record occupies exactly one line of the ledger.
pub proof fn lemma_record_line_single_line(wd: Seq<char>, compiler: Seq<char>, args: Seq<Seq<char>>)
    ensures
        single_line(record_line(wd, compiler, args)),
{
    reveal_strlit("{\"wd\":");
    reveal_strlit(",\"compiler\":");
    reveal_strlit(",\"args\":");
    reveal_strlit("[");
    reveal_strlit("]");
    reveal_strlit("}");
    lemma_json_string_single_line(wd);
    lemma_json_string_single_line(compiler);
    lemma_joined_strings_single_line(args);
}

/// The ledger text that a sequence of appends produces: each record line
/// followed by one newline.
pub open spec fn ledger_text(lines: Seq<Seq<char>>) -> Seq<char>
    decreases lines.len(),
{
    if lines.len() == 0 {
        Seq::empty()
    } else {
        lines.first() + seq!['\n'] + ledger_text(lines.drop_first())
    }
}

/// The lines of a text: maximal newline-free stretches, a trailing stretch
/// without its newline counting as a line of its own.
pub open spec fn split_lines(s: Seq<char>) -> Seq<Seq<char>>
    decreases s.len(),
{
    if s.len() == 0 {
        Seq::empty()
    } else {
        let i = strutil::find_first_from(s, '\n', 0);
        if !(0 <= i < s.len()) {
            seq![s]
        } else {
            seq![s.subrange(0, i)] + split_lines(s.subrange(i + 1, s.len() as int))
        }
    }
}

proof fn lemma_find_first_is(s: Seq<char>, c: char, i: int, j: int)
    requires
        0 <= i <= j <= s.len(),
        forall|k: int| i <= k < j ==> #[trigger] s[k] != c,
        j == s.len() || s[j] == c,
    ensures
        strutil::find_first_from(s, c, i) == j,
    decreases j - i,
{
    if i < j {
        lemma_find_first_is(s, c, i + 1, j);
    }
}

/// However many writers append to the ledger, each append being one
/// newline-free record line followed by its newline, the resulting text
/// splits back into exactly those lines, in append order: nothing is lost,
/// truncated or run together.
pub proof fn lemma_ledger_lines_roundtrip(lines: Seq<Seq<char>>)
    requires
        forall|i: int| 0 <= i < lines.len() ==> single_line(#[trigger] lines[i]),
    ensures
        split_lines(ledger_text(lines)) == lines,
    decreases lines.len(),
{
    if lines.len() > 0 {
        let first = lines.first();
        let rest = lines.drop_first();
        let text = ledger_text(lines);
        assert(single_line(first));
        assert(forall|i: int| 0 <= i < rest.len() ==> single_line(#[trigger] rest[i]));
        lemma_ledger_lines_roundtrip(rest);
        assert(text == first + seq!['\n'] + ledger_text(rest));
        assert(text[first.len() as int] == '\n');
        assert(forall|k: int| 0 <= k < first.len() ==> #[trigger] text[k] == first[k]);
        lemma_find_first_is(text, '\n', 0, first.len() as int);
        assert(text.subrange(0, first.len() as int) =~= first);
        assert(text.subrange(first.len() as int + 1, text.len() as int) =~= ledger_text(rest));
        assert(seq![first] + rest =~= lines);
    }
}

} // verus!
