//! `badger build`: builds a program to an executable or intermediate artifact.

use super::{CliResult, Context};
use vstd::prelude::*;
use vstd::string::StringExecFns;

verus! {

/// Arguments of `badger build`.
pub struct BuildArgs {
    /// The entry file, as it is displayed.
    pub entry: String,
    /// Where to write the artifact, if given.
    pub out: Option<String>,
    /// The build profile.
    pub profile: String,
}

pub open spec fn build_message(entry: Seq<char>, profile: Seq<char>) -> Seq<char> {
    "build not yet implemented (entry: "@ + entry + ", profile: "@ + profile + ")"@
}

/// Building is not implemented yet: reports so, naming the entry file and profile.
pub fn run(_ctx: &Context, args: BuildArgs) -> (r: CliResult)
    ensures
        r matches Err(m) && m@ == build_message(args.entry@, args.profile@),
{
    let mut m = String::from_str("build not yet implemented (entry: ");
    m.append(args.entry.as_str());
    m.append(", profile: ");
    m.append(args.profile.as_str());
    m.append(")");
    Err(m)
}

} // verus!
