//! `badger format`: formats Badger source files in place.

use super::{
    bool_text, debug_path_list, debug_paths, display_bool, string_views, CliResult, Context,
};
use vstd::prelude::*;
use vstd::string::StringExecFns;

verus! {

/// Arguments of `badger format`.
pub struct FormatArgs {
    /// The files to format, as they are displayed.
    pub paths: Vec<String>,
    /// Only report whether the files are formatted.
    pub check: bool,
}

pub open spec fn format_message(listed_paths: Seq<char>, check: bool) -> Seq<char> {
    "format not yet implemented (paths: "@ + listed_paths + ", check: "@ + bool_text(check) + ")"@
}

/// The report of `badger format`, given the `{:?}` text of the list of paths
/// and the check flag.
pub fn format_report(listed_paths: &str, check: bool) -> (m: String)
    ensures
        m@ == format_message(listed_paths@, check),
{
    let mut m = String::from_str("format not yet implemented (paths: ");
    m.append(listed_paths);
    m.append(", check: ");
    m.append(display_bool(check));
    m.append(")");
    m
}

/// Formatting is not implemented yet: reports so, listing the paths and the
/// check flag.
pub fn run(_ctx: &Context, args: FormatArgs) -> (r: CliResult)
    ensures
        r matches Err(m) && m@ == format_message(
            debug_path_list(string_views(args.paths@)),
            args.check,
        ),
{
    let listed = debug_paths(&args.paths);
    Err(format_report(listed.as_str(), args.check))
}

} // verus!
