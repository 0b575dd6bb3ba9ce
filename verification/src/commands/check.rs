//! `badger check`: type-checks a program without producing output.

use super::{CliResult, Context};
use vstd::prelude::*;
use vstd::string::StringExecFns;

verus! {

/// Arguments of `badger check`.
pub struct CheckArgs {
    /// The entry file, as it is displayed.
    pub entry: String,
}

pub open spec fn check_message(entry: Seq<char>) -> Seq<char> {
    "check not yet implemented (entry: "@ + entry + ")"@
}

/// Type checking is not implemented yet: reports so, naming the entry file.
pub fn run(_ctx: &Context, args: CheckArgs) -> (r: CliResult)
    ensures
        r matches Err(m) && m@ == check_message(args.entry@),
{
    let mut m = String::from_str("check not yet implemented (entry: ");
    m.append(args.entry.as_str());
    m.append(")");
    Err(m)
}

} // verus!
