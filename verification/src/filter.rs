//! Filtering a compilation database by regex patterns: an entry is kept
//! when its file matches no exclude pattern, or matches some include
//! pattern even though it is excluded. The regex engine itself is trusted;
//! which entries survive, and in what order, is verified.

use vstd::prelude::*;
use vstd::string::*;

verus! {

/// One compilation database entry as the filter reads and writes it.
#[derive(Debug, Clone, PartialEq)]
pub struct CompileCommand {
    pub command: String,
    pub directory: String,
    pub file: String,
}

/// The mathematical shape of a database entry under the filter.
#[verifier::ext_equal]
pub struct CompileCommandView {
    pub command: Seq<char>,
    pub directory: Seq<char>,
    pub file: Seq<char>,
}

impl DeepView for CompileCommand {
    type V = CompileCommandView;

    open spec fn deep_view(&self) -> CompileCommandView {
        CompileCommandView {
            command: self.command.deep_view(),
            directory: self.directory.deep_view(),
            file: self.file.deep_view(),
        }
    }
}

#[verifier::external_type_specification]
#[verifier::external_body]
pub struct ExRegex(regex::Regex);

#[verifier::external_type_specification]
#[verifier::external_body]
pub struct ExRegexError(regex::Error);

/// The pattern text a compiled regex was built from.
pub uninterp spec fn regex_source(re: regex::Regex) -> Seq<char>;

/// Whether the regex engine accepts a pattern text.
pub uninterp spec fn regex_valid(pat: Seq<char>) -> bool;

/// Whether the regex built from `pat` matches anywhere in `text`.
pub uninterp spec fn regex_match(pat: Seq<char>, text: Seq<char>) -> bool;

/// Relies on `regex::Regex::new`: whether a pattern compiles depends on the
/// pattern text alone, and the compiled regex carries that pattern.
#[verifier::external_body]
pub fn regex_new(pattern: &str) -> (r: Result<regex::Regex, regex::Error>)
    ensures
        r is Ok <==> regex_valid(pattern@),
        r is Ok ==> regex_source(r->Ok_0) == pattern@,
{
    regex::Regex::new(pattern)
}

/// Relies on `regex::Regex::is_match`: whether a regex matches anywhere in a
/// text depends on its pattern and the text alone.
#[verifier::external_body]
pub fn regex_is_match(re: &regex::Regex, text: &str) -> (r: bool)
    ensures
        r == regex_match(regex_source(*re), text@),
{
    re.is_match(text)
}

/// The pattern texts of a sequence of compiled regexes.
pub open spec fn regex_sources(res: Seq<regex::Regex>) -> Seq<Seq<char>> {
    res.map_values(|re: regex::Regex| regex_source(re))
}

/// Compiles every pattern in the list, keeping order; any invalid pattern
/// fails the whole list, as the engine reports it.
pub fn compile_patterns(patterns: &Vec<String>) -> (r: Result<Vec<regex::Regex>, regex::Error>)
    ensures
        match r {
            Ok(res) => regex_sources(res@) == patterns.deep_view() && forall|i: int|
                0 <= i < patterns@.len() ==> regex_valid(#[trigger] patterns.deep_view()[i]),
            Err(_) => exists|i: int|
                0 <= i < patterns@.len() && !regex_valid(#[trigger] patterns.deep_view()[i]),
        },
{
    let ghost pats = patterns.deep_view();
    let mut res: Vec<regex::Regex> = Vec::new();
    let mut i: usize = 0;
    while i < patterns.len()
        invariant
            i <= patterns.len(),
            pats == patterns.deep_view(),
            pats.len() == patterns.len(),
            res@.len() == i,
            forall|j: int| 0 <= j < i ==> regex_valid(#[trigger] pats[j]),
            forall|j: int| 0 <= j < i ==> regex_source(#[trigger] res@[j]) == pats[j],
        decreases patterns.len() - i,
    {
        proof {
            assert(pats[i as int] == patterns@[i as int]@);
        }
        match regex_new(patterns[i].as_str()) {
            Ok(re) => {
                res.push(re);
            },
            Err(e) => {
                return Err(e);
            },
        }
        i += 1;
    }
    proof {
        assert(regex_sources(res@) =~= pats);
    }
    Ok(res)
}

/// A file survives filtering when it matches no exclude pattern, or matches
/// some include pattern.
pub open spec fn spec_keeps(
    file: Seq<char>,
    excludes: Seq<Seq<char>>,
    includes: Seq<Seq<char>>,
) -> bool {
    (forall|i: int| 0 <= i < excludes.len() ==> !regex_match(#[trigger] excludes[i], file))
        || (exists|i: int| 0 <= i < includes.len() && regex_match(#[trigger] includes[i], file))
}

/// The entries kept by the filter, in their original order.
pub open spec fn spec_filter(
    cmds: Seq<CompileCommandView>,
    excludes: Seq<Seq<char>>,
    includes: Seq<Seq<char>>,
) -> Seq<CompileCommandView>
    decreases cmds.len(),
{
    if cmds.len() == 0 {
        Seq::empty()
    } else {
        let head = spec_filter(cmds.drop_last(), excludes, includes);
        if spec_keeps(cmds.last().file, excludes, includes) {
            head + seq![cmds.last()]
        } else {
            head
        }
    }
}

fn any_match(res: &Vec<regex::Regex>, text: &str) -> (r: bool)
    ensures
        r == exists|i: int|
            0 <= i < res@.len() && regex_match(#[trigger] regex_sources(res@)[i], text@),
{
    let ghost srcs = regex_sources(res@);
    let mut i: usize = 0;
    while i < res.len()
        invariant
            i <= res.len(),
            srcs == regex_sources(res@),
            srcs.len() == res@.len(),
            forall|j: int| 0 <= j < i ==> !regex_match(#[trigger] srcs[j], text@),
        decreases res.len() - i,
    {
        proof {
            assert(srcs[i as int] == regex_source(res@[i as int]));
        }
        if regex_is_match(&res[i], text) {
            assert(regex_match(srcs[i as int], text@));
            return true;
        }
        i += 1;
    }
    false
}

fn clone_command(c: &CompileCommand) -> (r: CompileCommand)
    ensures
        r.deep_view() == c.deep_view(),
{
    CompileCommand {
        command: c.command.clone(),
        directory: c.directory.clone(),
        file: c.file.clone(),
    }
}

/// Filters the database: an entry is kept when its file matches no exclude
/// pattern, or matches some include pattern (inclusion overrides exclusion);
/// the kept entries stand in their original order.
pub fn filter_commands(
    commands: Vec<CompileCommand>,
    exclude_patterns: &Vec<regex::Regex>,
    include_patterns: &Vec<regex::Regex>,
) -> (r: Vec<CompileCommand>)
    ensures
        r.deep_view() == spec_filter(
            commands.deep_view(),
            regex_sources(exclude_patterns@),
            regex_sources(include_patterns@),
        ),
{
    let ghost cmds = commands.deep_view();
    let ghost exs = regex_sources(exclude_patterns@);
    let ghost incs = regex_sources(include_patterns@);
    let mut out: Vec<CompileCommand> = Vec::new();
    let mut i: usize = 0;
    while i < commands.len()
        invariant
            i <= commands.len(),
            cmds == commands.deep_view(),
            cmds.len() == commands.len(),
            exs == regex_sources(exclude_patterns@),
            incs == regex_sources(include_patterns@),
            out.deep_view() == spec_filter(cmds.subrange(0, i as int), exs, incs),
        decreases commands.len() - i,
    {
        let ghost head = cmds.subrange(0, i as int);
        let ghost grown = cmds.subrange(0, (i + 1) as int);
        proof {
            assert(grown.drop_last() =~= head);
            assert(grown.last() == cmds[i as int]);
            assert(cmds[i as int] == commands@[i as int].deep_view());
        }
        let c = &commands[i];
        let excluded = any_match(exclude_patterns, c.file.as_str());
        let kept = if !excluded {
            true
        } else {
            any_match(include_patterns, c.file.as_str())
        };
        proof {
            let file = cmds[i as int].file;
            assert(file == commands@[i as int].file@);
            if excluded {
                assert(!(forall|k: int| 0 <= k < exs.len() ==> !regex_match(#[trigger] exs[k], file)));
            } else {
                assert(forall|k: int| 0 <= k < exs.len() ==> !regex_match(#[trigger] exs[k], file));
            }
            assert(kept == spec_keeps(file, exs, incs));
        }
        if kept {
            let ghost pre_dv = out.deep_view();
            out.push(clone_command(c));
            proof {
                assert forall|k: int| 0 <= k < out.deep_view().len() implies out.deep_view()[k]
                    == pre_dv.push(cmds[i as int])[k] by {
                    assert(out.deep_view()[k] == out@[k].deep_view());
                    if k < pre_dv.len() {
                        assert(out@[k].deep_view() == pre_dv[k]);
                    }
                }
                assert(out.deep_view() =~= pre_dv.push(cmds[i as int]));
                assert(out.deep_view() =~= spec_filter(grown, exs, incs));
            }
        } else {
            proof {
                assert(out.deep_view() =~= spec_filter(grown, exs, incs));
            }
        }
        i += 1;
    }
    proof {
        assert(cmds.subrange(0, cmds.len() as int) =~= cmds);
    }
    out
}

/// With no patterns at all, filtering changes nothing: the output is the
/// input, entry for entry.
pub proof fn lemma_filter_empty_identity(cmds: Seq<CompileCommandView>)
    ensures
        spec_filter(cmds, Seq::empty(), Seq::empty()) == cmds,
    decreases cmds.len(),
{
    if cmds.len() > 0 {
        lemma_filter_empty_identity(cmds.drop_last());
        assert(spec_filter(cmds, Seq::empty(), Seq::empty()) =~= cmds);
    }
}

} // verus!
