use badger_cst::commands::build_command::{self, BuildArgs};
use badger_cst::commands::check::{self, CheckArgs};
use badger_cst::commands::format::{format_report, FormatArgs};
use badger_cst::commands::graph::{self, GraphArgs, GraphFormat};
use badger_cst::commands::run::{self, run_report, RunArgs};
use badger_cst::commands::{display_bool, Context};

fn ctx() -> Context {
    Context { verbose: false }
}

#[test]
fn check_reports_entry() {
    let args = CheckArgs { entry: "examples/main.badger".to_string() };
    assert_eq!(
        check::run(&ctx(), args),
        Err("check not yet implemented (entry: examples/main.badger)".to_string())
    );
}

#[test]
fn build_reports_entry_and_profile() {
    let args = BuildArgs {
        entry: "main.badger".to_string(),
        out: Some("out/main".to_string()),
        profile: "release".to_string(),
    };
    assert_eq!(
        build_command::run(&Context { verbose: true }, args),
        Err("build not yet implemented (entry: main.badger, profile: release)".to_string())
    );
}

#[test]
fn run_reports_program_arguments_debug_formatted() {
    let args = RunArgs {
        entry: "m.badger".to_string(),
        program_args: vec!["a".to_string(), "b \"c\"".to_string()],
    };
    assert_eq!(
        run::run(&ctx(), args),
        Err("run not yet implemented (entry: m.badger, program args: [\"a\", \"b \\\"c\\\"\"])"
            .to_string())
    );
    let args = RunArgs { entry: "m.badger".to_string(), program_args: vec![] };
    assert_eq!(
        run::run(&ctx(), args),
        Err("run not yet implemented (entry: m.badger, program args: [])".to_string())
    );
}

#[test]
fn graph_reports_format_number() {
    let cases = [(GraphFormat::Text, "0"), (GraphFormat::Dot, "1"), (GraphFormat::Json, "2")];
    for (format, number) in cases {
        let args = GraphArgs { entry: "g.badger".to_string(), format };
        assert_eq!(
            graph::run(&ctx(), args),
            Err(format!("graph not yet implemented (entry: g.badger, format: {number})"))
        );
        assert_eq!(format.code_str(), number);
    }
}

#[test]
fn format_reports_paths_and_check_flag() {
    let args = FormatArgs {
        paths: vec!["a.badger".to_string(), "lib/b.badger".to_string()],
        check: true,
    };
    assert_eq!(
        badger_cst::commands::format::run(&ctx(), args),
        Err("format not yet implemented (paths: [\"a.badger\", \"lib/b.badger\"], check: true)"
            .to_string())
    );
    let args = FormatArgs { paths: vec!["x.badger".to_string()], check: false };
    assert_eq!(
        badger_cst::commands::format::run(&ctx(), args),
        Err("format not yet implemented (paths: [\"x.badger\"], check: false)".to_string())
    );
}

#[test]
fn booleans_display_as_words() {
    assert_eq!(display_bool(true), "true");
    assert_eq!(display_bool(false), "false");
}

#[test]
fn reports_take_listed_text_as_given() {
    assert_eq!(
        run_report("e.badger", "[\"x\"]"),
        "run not yet implemented (entry: e.badger, program args: [\"x\"])"
    );
    assert_eq!(
        format_report("[]", false),
        "format not yet implemented (paths: [], check: false)"
    );
}

#[test]
fn format_lists_paths_with_path_escapes() {
    let args = FormatArgs { paths: vec!["it's.badger".to_string()], check: false };
    assert_eq!(
        badger_cst::commands::format::run(&ctx(), args),
        Err("format not yet implemented (paths: [\"it's.badger\"], check: false)".to_string())
    );
}
