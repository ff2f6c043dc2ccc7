//! Deriving a compilation database from the ledger: each log line that
//! parses as a JSON object and names at least one source file among its
//! arguments becomes one database entry; the rest are dropped, each with a
//! diagnostic. The entry's file is the last source file named, joined to
//! the entry's working directory.

use vstd::prelude::*;
use vstd::string::*;
use crate::jsontext;
use crate::paths;
use crate::strutil;

verus! {

/// The compiler used when a log entry does not name one.
pub open spec fn default_compiler() -> Seq<char> {
    "/usr/bin/gcc"@
}

/// One compilation database entry: the build directory, the full argument
/// vector beginning with the compiler, and the primary source file.
pub struct DbEntry {
    pub directory: String,
    pub arguments: Vec<String>,
    pub file: String,
}

/// The mathematical shape of a database entry.
#[verifier::ext_equal]
pub struct DbEntryView {
    pub directory: Seq<char>,
    pub arguments: Seq<Seq<char>>,
    pub file: Seq<char>,
}

impl DeepView for DbEntry {
    type V = DbEntryView;

    open spec fn deep_view(&self) -> DbEntryView {
        DbEntryView {
            directory: self.directory.deep_view(),
            arguments: self.arguments.deep_view(),
            file: self.file.deep_view(),
        }
    }
}

/// An argument that names a source file: it ends in `.c`, `.cc` or `.cpp`.
pub open spec fn is_source_arg(a: Seq<char>) -> bool {
    strutil::ends_with(a, ".c"@) || strutil::ends_with(a, ".cc"@) || strutil::ends_with(a, ".cpp"@)
}

fn arg_is_source(a: &str) -> (r: bool)
    ensures
        r == is_source_arg(a@),
{
    strutil::str_ends_with(a, ".c") || strutil::str_ends_with(a, ".cc")
        || strutil::str_ends_with(a, ".cpp")
}

/// The source files named among the arguments, each joined to the working
/// directory, in argument order.
pub open spec fn spec_find_sources(args: Seq<Seq<char>>, wd: Seq<char>) -> Seq<Seq<char>>
    decreases args.len(),
{
    if args.len() == 0 {
        Seq::empty()
    } else {
        let head = spec_find_sources(args.drop_last(), wd);
        if is_source_arg(args.last()) {
            head + seq![paths::join_path(wd, args.last())]
        } else {
            head
        }
    }
}

/// Collects the source files named in the arguments, joined to the working
/// directory.
pub fn find_source_files(args: &Vec<String>, wd: &str) -> (r: Vec<String>)
    ensures
        r.deep_view() == spec_find_sources(args.deep_view(), wd@),
{
    let ghost items = args.deep_view();
    let mut r: Vec<String> = Vec::new();
    let mut i: usize = 0;
    while i < args.len()
        invariant
            i <= args.len(),
            items == args.deep_view(),
            items.len() == args.len(),
            r.deep_view() == spec_find_sources(items.subrange(0, i as int), wd@),
        decreases args.len() - i,
    {
        proof {
            assert(items.subrange(0, (i + 1) as int).drop_last() =~= items.subrange(0, i as int));
            assert(items[i as int] == args@[i as int]@);
        }
        if arg_is_source(args[i].as_str()) {
            r.push(paths::path_join(wd, args[i].as_str()));
            proof {
                assert(r.deep_view() =~= spec_find_sources(items.subrange(0, (i + 1) as int), wd@));
            }
        } else {
            proof {
                assert(r.deep_view() =~= spec_find_sources(items.subrange(0, (i + 1) as int), wd@));
            }
        }
        i += 1;
    }
    proof {
        assert(items.subrange(0, items.len() as int) =~= items);
    }
    r
}

/// The string elements of a raw argument list, in order; non-string
/// elements are passed over.
pub open spec fn spec_string_args(raw: Seq<Option<Seq<char>>>) -> Seq<Seq<char>>
    decreases raw.len(),
{
    if raw.len() == 0 {
        Seq::empty()
    } else {
        let head = spec_string_args(raw.drop_last());
        match raw.last() {
            Some(a) => head + seq![a],
            None => head,
        }
    }
}

/// The database entry that parsed log fields yield. The working directory
/// is the override when one is given, else the entry's own, else empty; the
/// compiler is the entry's own, else the default; the argument vector is the
/// compiler followed by the string arguments. An entry without an argument
/// array, or whose arguments name no source file, yields nothing.
pub open spec fn spec_entry_from_fields(
    fields: jsontext::LogFieldsView,
    wd_override: Option<Seq<char>>,
) -> Option<DbEntryView> {
    let wd = match wd_override {
        Some(w) => w,
        None => match fields.wd {
            Some(w) => w,
            None => Seq::empty(),
        },
    };
    let compiler = match fields.compiler {
        Some(c) => c,
        None => default_compiler(),
    };
    match fields.args {
        None => None,
        Some(raw) => {
            let argv = seq![compiler] + spec_string_args(raw);
            let srcs = spec_find_sources(argv, wd);
            if srcs.len() == 0 {
                None
            } else {
                Some(DbEntryView { directory: wd, arguments: argv, file: srcs.last() })
            }
        },
    }
}

/// Builds the database entry for already-parsed log fields; this is where
/// everything after the JSON parse happens, verified for every value the
/// parser can hand back.
pub fn entry_from_fields(fields: jsontext::LogFields, wd_override: Option<&str>) -> (r: Option<
    DbEntry,
>)
    ensures
        r.deep_view() == spec_entry_from_fields(fields.deep_view(), wd_override.deep_view()),
{
    let wd: String = match wd_override {
        Some(w) => String::from_str(w),
        None => match fields.wd {
            Some(w) => w,
            None => String::new(),
        },
    };
    let compiler: String = match fields.compiler {
        Some(c) => c,
        None => String::from_str("/usr/bin/gcc"),
    };
    let raw: Vec<Option<String>> = match fields.args {
        Some(raw) => raw,
        None => {
            return None;
        },
    };
    let ghost spec_compiler = compiler@;
    let ghost raw_view = raw.deep_view();
    let mut argv: Vec<String> = Vec::new();
    argv.push(compiler);
    let mut i: usize = 0;
    while i < raw.len()
        invariant
            i <= raw.len(),
            raw_view == raw.deep_view(),
            raw_view.len() == raw.len(),
            argv.deep_view() == seq![spec_compiler] + spec_string_args(
                raw_view.subrange(0, i as int),
            ),
        decreases raw.len() - i,
    {
        proof {
            assert(raw_view.subrange(0, (i + 1) as int).drop_last() =~= raw_view.subrange(
                0,
                i as int,
            ));
            assert(raw_view[i as int] == raw@[i as int].deep_view());
        }
        let ghost head = raw_view.subrange(0, i as int);
        let ghost grown = raw_view.subrange(0, (i + 1) as int);
        proof {
            assert(grown.last() == raw_view[i as int]);
        }
        match raw[i].as_ref() {
            Some(a) => {
                let s = a.clone();
                proof {
                    assert(raw_view[i as int] == Some(s@));
                    assert(spec_string_args(grown) == spec_string_args(head) + seq![s@]);
                }
                let ghost pre_dv = argv.deep_view();
                argv.push(s);
                proof {
                    assert forall|k: int| 0 <= k < argv.deep_view().len() implies argv.deep_view()[k]
                        == pre_dv.push(s@)[k] by {
                        assert(argv.deep_view()[k] == argv@[k].deep_view());
                        if k < pre_dv.len() {
                            assert(argv@[k].deep_view() == pre_dv[k]);
                        } else {
                            assert(argv@[k] == s);
                        }
                    }
                    assert(argv.deep_view() =~= pre_dv.push(s@));
                }
            },
            None => {
                proof {
                    assert(raw_view[i as int] is None);
                    assert(spec_string_args(grown) == spec_string_args(head));
                }
            },
        }
        proof {
            assert(argv.deep_view() =~= seq![spec_compiler] + spec_string_args(grown));
        }
        i += 1;
    }
    proof {
        assert(raw_view.subrange(0, raw_view.len() as int) =~= raw_view);
    }
    let srcs = find_source_files(&argv, wd.as_str());
    if srcs.len() == 0 {
        proof {
            assert(srcs.deep_view().len() == 0);
        }
        None
    } else {
        let file = srcs[srcs.len() - 1].clone();
        proof {
            assert(file@ == srcs.deep_view().last());
        }
        Some(DbEntry { directory: wd, arguments: argv, file })
    }
}

/// The database entry a whole log line yields: nothing for a line that is
/// not valid JSON, else what its fields yield.
pub open spec fn spec_parse_log_entry(line: Seq<char>, wd_override: Option<Seq<char>>) -> Option<
    DbEntryView,
> {
    match jsontext::log_line_fields(line) {
        None => None,
        Some(fields) => spec_entry_from_fields(fields, wd_override),
    }
}

/// Parses one log line and returns its compilation database entry, if the
/// line is a valid JSON object whose arguments name at least one source
/// file.
pub fn parse_log_entry(line: &str, wd_override: Option<&str>) -> (r: Option<DbEntry>)
    ensures
        r.deep_view() == spec_parse_log_entry(line@, wd_override.deep_view()),
{
    match jsontext::parse_log_fields(line) {
        None => None,
        Some(fields) => entry_from_fields(fields, wd_override),
    }
}

/// The database that a sequence of log lines yields, in line order.
pub open spec fn spec_generate(lines: Seq<Seq<char>>) -> Seq<DbEntryView>
    decreases lines.len(),
{
    if lines.len() == 0 {
        Seq::empty()
    } else {
        let head = spec_generate(lines.drop_last());
        match spec_parse_log_entry(lines.last(), None) {
            Some(e) => head + seq![e],
            None => head,
        }
    }
}

/// Turns the ledger's lines into the compilation database. Beside the
/// entries it returns one flag per line, true where the line contributed an
/// entry, so the caller can report each dropped line.
pub fn generate_entries(lines: &Vec<String>) -> (r: (Vec<DbEntry>, Vec<bool>))
    ensures
        r.0.deep_view() == spec_generate(lines.deep_view()),
        r.1@.len() == lines@.len(),
        forall|i: int|
            0 <= i < lines@.len() ==> r.1@[i] == (spec_parse_log_entry(
                #[trigger] lines.deep_view()[i],
                None,
            ) is Some),
{
    let ghost items = lines.deep_view();
    let mut db: Vec<DbEntry> = Vec::new();
    let mut kept: Vec<bool> = Vec::new();
    let mut i: usize = 0;
    while i < lines.len()
        invariant
            i <= lines.len(),
            items == lines.deep_view(),
            items.len() == lines.len(),
            db.deep_view() == spec_generate(items.subrange(0, i as int)),
            kept@.len() == i,
            forall|j: int|
                0 <= j < i ==> kept@[j] == (spec_parse_log_entry(
                    #[trigger] items[j],
                    None,
                ) is Some),
        decreases lines.len() - i,
    {
        proof {
            assert(items.subrange(0, (i + 1) as int).drop_last() =~= items.subrange(0, i as int));
            assert(items[i as int] == lines@[i as int]@);
        }
        match parse_log_entry(lines[i].as_str(), None) {
            Some(e) => {
                db.push(e);
                kept.push(true);
            },
            None => {
                kept.push(false);
            },
        }
        proof {
            assert(db.deep_view() =~= spec_generate(items.subrange(0, (i + 1) as int)));
        }
        i += 1;
    }
    proof {
        assert(items.subrange(0, items.len() as int) =~= items);
    }
    (db, kept)
}

} // verus!
