//! The trusted boundary to the JSON parser. One log line is arbitrary text;
//! what the database generator reads from it — the `wd`, `compiler` and
//! `args` fields of the JSON object it may hold — is extracted here by
//! serde_json and handed back as plain values. Everything done with those
//! values afterwards is verified.

use vstd::prelude::*;

verus! {

/// The fields of one parsed log line, as the database generator reads them:
/// the working directory and the compiler when they are present as strings,
/// and the raw argument list when it is present as an array — each element
/// the string it holds, or nothing for a non-string element.
pub struct LogFields {
    pub wd: Option<String>,
    pub compiler: Option<String>,
    pub args: Option<Vec<Option<String>>>,
}

/// The mathematical shape of parsed log fields.
#[verifier::ext_equal]
pub struct LogFieldsView {
    pub wd: Option<Seq<char>>,
    pub compiler: Option<Seq<char>>,
    pub args: Option<Seq<Option<Seq<char>>>>,
}

impl DeepView for LogFields {
    type V = LogFieldsView;

    open spec fn deep_view(&self) -> LogFieldsView {
        LogFieldsView {
            wd: self.wd.deep_view(),
            compiler: self.compiler.deep_view(),
            args: self.args.deep_view(),
        }
    }
}

/// What the JSON parser yields for a given line: nothing when the line is
/// not valid JSON, otherwise the three fields as the document holds them.
/// The result depends on the line's text alone.
pub uninterp spec fn log_line_fields(s: Seq<char>) -> Option<LogFieldsView>;

/// Relies on `serde_json::from_str` and `serde_json::Value::{get, as_str,
/// as_array}`: parses the line as a JSON document and reads its `wd`,
/// `compiler` and `args` fields. A missing field, a non-string `wd` or
/// `compiler`, a non-array `args` and a non-object document all yield the
/// corresponding `None`; an element of `args` that is not a string yields a
/// `None` element.
#[verifier::external_body]
pub fn parse_log_fields(line: &str) -> (r: Option<LogFields>)
    ensures
        r.deep_view() == log_line_fields(line@),
{
    let v: serde_json::Value = match serde_json::from_str(line) {
        Ok(v) => v,
        Err(_) => return None,
    };
    let wd = v.get("wd").and_then(|f| f.as_str()).map(str::to_string);
    let compiler = v.get("compiler").and_then(|f| f.as_str()).map(str::to_string);
    let args = v.get("args").and_then(|f| f.as_array()).map(
        |items| items.iter().map(|a| a.as_str().map(str::to_string)).collect(),
    );
    Some(LogFields { wd, compiler, args })
}

} // verus!
