//! The toolchain's subcommands: what each reports for the arguments it is given.

pub mod build_command;
pub mod check;
pub mod format;
pub mod graph;
pub mod run;

use vstd::prelude::*;

verus! {

/// Settings shared by all subcommands.
pub struct Context {
    pub verbose: bool,
}

/// The outcome of a subcommand: success, or the message to report.
pub type CliResult = Result<(), String>;

/// The text that `{:?}` gives for a list of strings.
pub uninterp spec fn debug_list(items: Seq<Seq<char>>) -> Seq<char>;

pub open spec fn string_views(items: Seq<String>) -> Seq<Seq<char>> {
    Seq::new(items.len(), |i: int| items[i]@)
}

/// Formats `items` with `{:?}` (the `Debug` impl of `Vec<String>`): brackets
/// around the strings, each quoted and escaped, separated by `, `. What it
/// returns is named, not spelled out.
#[verifier::external_body]
pub(crate) fn debug_strings(items: &Vec<String>) -> (s: String)
    ensures
        s@ == debug_list(string_views(items@)),
{
    format!("{:?}", items)
}

/// The text that `{:?}` gives for the list of paths whose texts are `items`.
pub uninterp spec fn debug_path_list(items: Seq<Seq<char>>) -> Seq<char>;

/// Formats the paths whose texts are `items` with `{:?}` (the `Debug` impl of
/// a `Vec` of `std::path::Path`): brackets around the paths, each quoted and
/// escaped as a path escapes, separated by `, `. What it returns is named, not
/// spelled out.
#[verifier::external_body]
pub(crate) fn debug_paths(items: &Vec<String>) -> (s: String)
    ensures
        s@ == debug_path_list(string_views(items@)),
{
    let paths: Vec<&std::path::Path> = items.iter().map(std::path::Path::new).collect();
    format!("{:?}", paths)
}

/// The text that `{}` gives for a `bool`.
pub open spec fn bool_text(b: bool) -> Seq<char> {
    if b {
        "true"@
    } else {
        "false"@
    }
}

pub fn display_bool(b: bool) -> (s: &'static str)
    ensures
        s@ == bool_text(b),
{
    if b {
        "true"
    } else {
        "false"
    }
}

} // verus!
