//! Decisions around a run of the compiler front end: in which mode it
//! runs, how its end is read, and what is sent on for a result.

use crate::mir_analysis::AnalyzeResult;
use crate::mir_cache::CacheData;
use crate::models::{Crate, File, Function, FunctionView, Workspace};
use crate::strings::{is_prefix, matches_at, str_eq};
use crate::text_conversion::chars_of;
use vstd::prelude::*;
use vstd::string::StringExecFns;

verus! {

/// Why an analysis gave no result.
#[derive(Debug, Clone, Copy, PartialEq, Eq, Structural)]
pub enum AnalysisError {
    /// The compiler ended abnormally.
    RustcPanic,
    /// The compiler ended with an exit code that is not zero.
    CompilationFailed(i32),
}

/// How the compiler is run for a command line.
#[derive(Debug, Clone, Copy, PartialEq, Eq, Structural)]
pub enum CompilerMode {
    /// As the plain compiler, with the arguments as they are.
    Plain,
    /// As the plain compiler, without the first argument: the command
    /// line asks for the version or for a printed value.
    Query,
    /// With the analysis, without the first argument.
    Analyze,
}

/// Whether an argument asks for the version or for a printed value.
pub open spec fn is_meta_arg(arg: Seq<char>) -> bool {
    arg == "-vV"@ || arg == "--version"@ || is_prefix(arg, "--print"@)
}

/// Whether some argument after the first asks for the version or for a
/// printed value.
pub open spec fn has_meta_arg(args: Seq<Seq<char>>) -> bool {
    exists|i: int| 1 <= i < args.len() && is_meta_arg(#[trigger] args[i])
}

/// The mode for a command line.  The program was called as a wrapper of
/// the compiler if its first two arguments are equal, or if it has none;
/// only then the first argument is dropped and the analysis runs, unless
/// the command line is a query.
pub open spec fn spec_compiler_mode(args: Seq<Seq<char>>) -> CompilerMode {
    if args.len() == 1 || (args.len() >= 2 && args[0] != args[1]) {
        CompilerMode::Plain
    } else if has_meta_arg(args) {
        CompilerMode::Query
    } else {
        CompilerMode::Analyze
    }
}

/// The texts of a list, as plain values.
pub open spec fn args_view(s: Seq<String>) -> Seq<Seq<char>> {
    s.map_values(|t: String| t@)
}

fn is_meta(arg: &str) -> (r: bool)
    ensures
        r == is_meta_arg(arg@),
{
    if str_eq(arg, "-vV") || str_eq(arg, "--version") {
        true
    } else {
        let text = chars_of(arg);
        let prefix = chars_of("--print");
        matches_at(&text, &prefix, 0)
    }
}

fn any_meta(args: &Vec<String>) -> (r: bool)
    ensures
        r == has_meta_arg(args_view(args@)),
{
    let mut i: usize = 1;
    while i < args.len()
        invariant
            1 <= i,
            forall|k: int| 1 <= k < i && k < args@.len() ==> !is_meta_arg(#[trigger] args_view(args@)[k]),
        decreases args.len() - i,
    {
        if is_meta(args[i].as_str()) {
            assert(is_meta_arg(args_view(args@)[i as int]));
            return true;
        }
        i += 1;
    }
    false
}

/// The mode in which the compiler runs for the command line `args`.
pub fn compiler_mode(args: &Vec<String>) -> (r: CompilerMode)
    ensures
        r == spec_compiler_mode(args_view(args@)),
{
    if args.len() == 1 {
        return CompilerMode::Plain;
    }
    if args.len() >= 2 && !str_eq(args[0].as_str(), args[1].as_str()) {
        return CompilerMode::Plain;
    }
    if any_meta(args) {
        CompilerMode::Query
    } else {
        CompilerMode::Analyze
    }
}

/// How a run of the compiler ended: `None` if it ended abnormally, else
/// its exit code.  Only the exit code zero is a success.
pub fn analysis_outcome(exit: Option<i32>) -> (r: Result<i32, AnalysisError>)
    ensures
        r == match exit {
            None => Err::<i32, AnalysisError>(AnalysisError::RustcPanic),
            Some(code) => if code == 0 {
                Ok::<i32, AnalysisError>(code)
            } else {
                Err::<i32, AnalysisError>(AnalysisError::CompilationFailed(code))
            },
        },
{
    match exit {
        None => Err(AnalysisError::RustcPanic),
        Some(code) => if code == 0 {
            Ok(code)
        } else {
            Err(AnalysisError::CompilationFailed(code))
        },
    }
}

/// The number of worker threads for the analysis: half of the available
/// parallelism, at least two and at most eight; four if the parallelism
/// is unknown.
pub fn worker_threads(available: Option<usize>) -> (r: usize)
    ensures
        r == match available {
            Some(n) => if n / 2 < 2 {
                2usize
            } else if n / 2 > 8 {
                8usize
            } else {
                (n / 2) as usize
            },
            None => 4usize,
        },
        2 <= r <= 8,
{
    match available {
        Some(n) => {
            let half = n / 2;
            if half < 2 {
                2
            } else if half > 8 {
                8
            } else {
                half
            }
        },
        None => 4,
    }
}

/// The fragment that is sent on for the result of one function: the one
/// crate, with the one file, with the one function.
pub open spec fn spec_fragment(crate_name: Seq<char>, file_name: Seq<char>, analyzed: FunctionView) -> Map<
    Seq<char>,
    Map<Seq<char>, Seq<FunctionView>>,
> {
    Map::<Seq<char>, Map<Seq<char>, Seq<FunctionView>>>::empty().insert(
        crate_name,
        Map::<Seq<char>, Seq<FunctionView>>::empty().insert(file_name, seq![analyzed]),
    )
}

/// Takes the result of one function: it is kept in the cache, if there
/// is one, under its two hashes, and the fragment to send on is made.
pub fn send_result(cache: Option<&mut CacheData>, crate_name: &str, analyzed: AnalyzeResult) -> (r:
    Workspace)
    ensures
        r@ == spec_fragment(crate_name@, analyzed.file_name@, analyzed.analyzed@),
        cache is Some ==> final(cache->0)@ == old(cache->0)@.insert(
            (analyzed.file_hash@, analyzed.mir_hash@),
            analyzed.analyzed@,
        ),
{
    if let Some(cache) = cache {
        cache.insert_cache(
            analyzed.file_hash.clone(),
            analyzed.mir_hash.clone(),
            analyzed.analyzed.clone(),
        );
    }
    let mut items: Vec<Function> = Vec::new();
    items.push(analyzed.analyzed);
    let file = File { items };
    assert(file@ =~= seq![analyzed.analyzed@]);
    let mut krate = Crate::new();
    krate.insert(analyzed.file_name, file);
    let mut workspace = Workspace::new();
    workspace.insert(crate_name.to_owned(), krate);
    workspace
}

impl AnalysisError {
    /// The error in words.
    pub fn to_string(&self) -> (r: String)
        ensures
            r@ == match *self {
                AnalysisError::RustcPanic => "Rustc panicked during analysis"@,
                AnalysisError::CompilationFailed(code) => "Compilation failed with exit code "@
                    + spec_signed(code as int),
            },
    {
        match self {
            AnalysisError::RustcPanic => "Rustc panicked during analysis".to_owned(),
            AnalysisError::CompilationFailed(code) => {
                let mut text = "Compilation failed with exit code ".to_owned();
                text.append(signed(*code).as_str());
                text
            },
        }
    }
}

/// The number in decimal digits, after a minus sign if it is negative.
pub open spec fn spec_signed(v: int) -> Seq<char> {
    if v < 0 {
        "-"@ + crate::strings::decimal_digits((-v) as nat)
    } else {
        crate::strings::decimal_digits(v as nat)
    }
}

fn signed(v: i32) -> (r: String)
    ensures
        r@ == spec_signed(v as int),
{
    if v < 0 {
        let mut text = "-".to_owned();
        let magnitude: u64 = (-(v as i64)) as u64;
        text.append(crate::strings::to_decimal(magnitude).as_str());
        text
    } else {
        crate::strings::to_decimal(v as u64)
    }
}

} // verus!
