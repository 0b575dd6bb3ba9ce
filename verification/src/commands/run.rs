//! `badger run`: builds and runs a program under the interpreter.

use super::{debug_list, debug_strings, string_views, CliResult, Context};
use vstd::prelude::*;
use vstd::string::StringExecFns;

verus! {

/// Arguments of `badger run`.
pub struct RunArgs {
    /// The entry file, as it is displayed.
    pub entry: String,
    /// Arguments handed to the program.
    pub program_args: Vec<String>,
}

pub open spec fn run_message(entry: Seq<char>, listed_args: Seq<char>) -> Seq<char> {
    "run not yet implemented (entry: "@ + entry + ", program args: "@ + listed_args + ")"@
}

/// The report of `badger run`, given the entry file and the `{:?}` text of the
/// program's arguments.
pub fn run_report(entry: &str, listed_args: &str) -> (m: String)
    ensures
        m@ == run_message(entry@, listed_args@),
{
    let mut m = String::from_str("run not yet implemented (entry: ");
    m.append(entry);
    m.append(", program args: ");
    m.append(listed_args);
    m.append(")");
    m
}

/// Running is not implemented yet: reports so, naming the entry file and the
/// program's arguments.
pub fn run(_ctx: &Context, args: RunArgs) -> (r: CliResult)
    ensures
        r matches Err(m) && m@ == run_message(
            args.entry@,
            debug_list(string_views(args.program_args@)),
        ),
{
    let listed = debug_strings(&args.program_args);
    Err(run_report(args.entry.as_str(), listed.as_str()))
}

} // verus!
