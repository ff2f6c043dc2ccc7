//! The wrapper orchestrator's decisions: validating the configured log
//! path, choosing the compiler to substitute, deciding between wrapping and
//! database generation, and planning one invocation — reject a bad log
//! path, skip logging under a configure probe, or append exactly one record
//! line under the lock, and in every surviving case hand the original
//! arguments on to the substituted compiler.

use vstd::prelude::*;
use vstd::string::*;
use crate::paths;
use crate::record;
use crate::strutil;

verus! {

/// Why no usable log path could be drawn from the environment.
#[derive(Debug, PartialEq, Eq, Structural)]
pub enum LogFileError {
    /// The log path variable is not set at all.
    NotSet,
    /// The configured log path is not absolute.
    NotAbsolute,
}

/// Validates the log path drawn from the environment: it must be present
/// and absolute. Nothing else is touched before this check passes.
pub fn get_log_file(env_value: Option<String>) -> (r: Result<String, LogFileError>)
    ensures
        match env_value {
            None => r == Err::<String, LogFileError>(LogFileError::NotSet),
            Some(p) => if paths::abs_path(p@) {
                r == Ok::<String, LogFileError>(p)
            } else {
                r == Err::<String, LogFileError>(LogFileError::NotAbsolute)
            },
        },
{
    match env_value {
        None => Err(LogFileError::NotSet),
        Some(p) => {
            if paths::path_is_absolute(p.as_str()) {
                Ok(p)
            } else {
                Err(LogFileError::NotAbsolute)
            }
        },
    }
}

/// The C compiler to substitute: the configured one, or `clang`.
pub fn get_cc_compiler(env_value: Option<String>) -> (r: String)
    ensures
        match env_value {
            Some(v) => r == v,
            None => r@ == "clang"@,
        },
{
    match env_value {
        Some(v) => v,
        None => String::from_str("clang"),
    }
}

/// The C++ compiler to substitute: the configured one, or `clang++`.
pub fn get_cxx_compiler(env_value: Option<String>) -> (r: String)
    ensures
        match env_value {
            Some(v) => r == v,
            None => r@ == "clang++"@,
        },
{
    match env_value {
        Some(v) => v,
        None => String::from_str("clang++"),
    }
}

/// Reports whether the argument vector requests generate mode via the
/// `--generate` flag.
pub fn has_generate_flag(args: &Vec<String>) -> (r: bool)
    ensures
        r == args.deep_view().contains("--generate"@),
{
    let mut i: usize = 0;
    while i < args.len()
        invariant
            i <= args.len(),
            forall|j: int| 0 <= j < i ==> args.deep_view()[j] != "--generate"@,
        decreases args.len() - i,
    {
        if strutil::str_eq(args[i].as_str(), "--generate") {
            assert(args.deep_view()[i as int] == "--generate"@);
            return true;
        }
        i += 1;
    }
    proof {
        if args.deep_view().contains("--generate"@) {
            let j = choose|j: int|
                0 <= j < args.deep_view().len() && args.deep_view()[j] == "--generate"@;
            assert(args.deep_view()[j] != "--generate"@);
        }
    }
    false
}

/// Reports whether the generate-mode environment variable requests generate
/// mode: any non-empty value does.
pub fn has_generate_env(env_value: Option<&String>) -> (r: bool)
    ensures
        r == match env_value {
            Some(v) => v@.len() > 0,
            None => false,
        },
{
    match env_value {
        Some(v) => v.as_str().unicode_len() > 0,
        None => false,
    }
}

/// Generate mode is requested by the flag or by the environment variable.
pub fn should_generate(args: &Vec<String>, generate_env: Option<&String>) -> (r: bool)
    ensures
        r == (args.deep_view().contains("--generate"@) || (match generate_env {
            Some(v) => v@.len() > 0,
            None => false,
        })),
{
    has_generate_flag(args) || has_generate_env(generate_env)
}

/// The substitution half of a plan: the compiler image to run and the
/// argument vector to pass it, exactly as they came in.
pub struct Substitution {
    pub compiler: String,
    pub args: Vec<String>,
}

/// What one wrapper invocation must do.
pub enum WrapperStep {
    /// The log path is not absolute: fail before any side effect.
    RejectedPath,
    /// A configure probe stands above this invocation: append nothing and
    /// substitute the compiler directly.
    Skip { sub: Substitution },
    /// Append exactly this one line to the log, holding the lock at this
    /// sidecar path, then substitute the compiler.
    Append { lock_path: String, line: String, sub: Substitution },
}

/// Plans one wrapper invocation. A relative log path is rejected before any
/// other work; an invocation beneath a configure probe appends nothing; any
/// other invocation appends exactly one rendered record line, under the lock
/// derived from the log path. Every plan that survives the path check hands
/// the compiler the unchanged argument vector.
pub fn plan_invocation(
    log_file: &str,
    suppressed: bool,
    wd: &str,
    compiler: String,
    args: Vec<String>,
) -> (r: WrapperStep)
    ensures
        match r {
            WrapperStep::RejectedPath => !paths::abs_path(log_file@),
            WrapperStep::Skip { sub } => paths::abs_path(log_file@) && suppressed && sub.compiler
                == compiler && sub.args == args,
            WrapperStep::Append { lock_path, line, sub } => paths::abs_path(log_file@)
                && !suppressed && lock_path@ == paths::lock_path_of(log_file@) && line@
                == record::record_line(wd@, compiler@, args.deep_view())
                && record::single_line(line@) && sub.compiler == compiler && sub.args == args,
        },
{
    if !paths::path_is_absolute(log_file) {
        WrapperStep::RejectedPath
    } else if suppressed {
        WrapperStep::Skip { sub: Substitution { compiler, args } }
    } else {
        let lock_path = paths::lock_path_for(log_file);
        let line = record::render_record(wd, compiler.as_str(), &args);
        WrapperStep::Append { lock_path, line, sub: Substitution { compiler, args } }
    }
}

} // verus!
