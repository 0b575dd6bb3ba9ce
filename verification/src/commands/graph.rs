//! `badger graph`: dumps the dataflow graph of a program.

use super::{CliResult, Context};
use vstd::prelude::*;
use vstd::string::StringExecFns;

verus! {

/// How a graph is printed.
#[derive(Clone, Copy, PartialEq, Eq, Structural, Debug)]
pub enum GraphFormat {
    Text,
    Dot,
    Json,
}

impl GraphFormat {
    /// The decimal text of the format's number, its position in the declaration
    /// order.
    pub open spec fn code_text(self) -> Seq<char> {
        match self {
            GraphFormat::Text => "0"@,
            GraphFormat::Dot => "1"@,
            GraphFormat::Json => "2"@,
        }
    }

    pub fn code_str(self) -> (s: &'static str)
        ensures
            s@ == self.code_text(),
    {
        match self {
            GraphFormat::Text => "0",
            GraphFormat::Dot => "1",
            GraphFormat::Json => "2",
        }
    }
}

/// Arguments of `badger graph`.
pub struct GraphArgs {
    /// The entry file, as it is displayed.
    pub entry: String,
    pub format: GraphFormat,
}

pub open spec fn graph_message(entry: Seq<char>, format: GraphFormat) -> Seq<char> {
    "graph not yet implemented (entry: "@ + entry + ", format: "@ + format.code_text() + ")"@
}

/// Graph output is not implemented yet: reports so, naming the entry file and
/// the number of the requested format.
pub fn run(_ctx: &Context, args: GraphArgs) -> (r: CliResult)
    ensures
        r matches Err(m) && m@ == graph_message(args.entry@, args.format),
{
    let mut m = String::from_str("graph not yet implemented (entry: ");
    m.append(args.entry.as_str());
    m.append(", format: ");
    m.append(args.format.code_str());
    m.append(")");
    Err(m)
}

} // verus!
