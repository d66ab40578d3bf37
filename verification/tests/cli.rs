//! The command line.

use girth::cli::{is_help, parse, plan, scan, Arg, Number, Outcome, Parsed, Plan};
use girth::default_params;

fn strings(args: &[&str]) -> Vec<String> {
    args.iter().map(|s| s.to_string()).collect()
}

fn number(text: &str) -> Option<Number> {
    let v = text.parse::<f64>().ok()?;
    Some(Number {
        bps: (v * 1e6) as u64,
        size: v as usize,
        micros: v as u32,
        millis: v as i64,
    })
}

fn outcome(args: &[&str]) -> Outcome {
    let found = scan(&strings(args));
    let numbers: Vec<Option<Number>> = found
        .items
        .iter()
        .map(|a| match a {
            Arg::Flag { value: Some(v), .. } => number(v),
            _ => None,
        })
        .collect();
    parse(found, &numbers)
}

fn run(args: &[&str]) -> Parsed {
    match outcome(args) {
        Outcome::Run(p) => p,
        Outcome::Help => panic!("help"),
        Outcome::Refused(e) => panic!("{e}"),
    }
}

fn refusal(args: &[&str]) -> String {
    match outcome(args) {
        Outcome::Refused(e) => e,
        _ => panic!("not refused"),
    }
}

#[test]
fn an_empty_command_line_has_defaults() {
    let p = run(&[]);
    assert_eq!(p.params, default_params());
    assert_eq!(p.addr, ":7400");
    assert_eq!(p.dir, ".");
    assert!(p.positionals.is_empty());
}

#[test]
fn flags_set_what_they_name() {
    let p = run(&[
        "-rate", "250.5", "file", "-max=2000", "-alpha", "7", "-adaptive", "-encrypt=no", "-block",
        "9000", "-workers=3", "-fb", "1000", "-report", "250", "-addr=:80", "-dir", "/srv", "host:1",
        "-procs", "8",
    ]);
    assert_eq!(p.params.rate_bps, 250_500_000);
    assert_eq!(p.params.max_bps, 2_000_000_000);
    assert_eq!(p.params.alpha_bps, 7_000_000);
    assert!(p.params.adaptive && p.params.encrypt);
    assert_eq!(p.params.block_size, 9000);
    assert_eq!(p.params.read_workers, 3);
    assert_eq!(p.params.feedback_interval_us, 1000);
    assert_eq!(p.params.report_interval_ms, 250);
    assert_eq!(p.addr, ":80");
    assert_eq!(p.dir, "/srv");
    assert_eq!(p.positionals, vec!["file", "host:1"]);
}

#[test]
fn the_last_setting_counts() {
    assert_eq!(run(&["-rate", "1", "-rate=2"]).params.rate_bps, 2_000_000);
    assert_eq!(run(&["-report=0"]).params.report_interval_ms, 3_600_000);
    assert_eq!(run(&["-report=-4"]).params.report_interval_ms, 3_600_000);
    assert_eq!(run(&["-dir=a=b"]).dir, "a=b");
}

#[test]
fn wrong_command_lines_are_refused() {
    assert_eq!(refusal(&["-rate"]), "flag -rate needs a value");
    assert_eq!(refusal(&["-rate", "fast"]), "flag -rate: invalid number");
    assert_eq!(refusal(&["-nope=1"]), "unknown flag -nope");
    assert_eq!(refusal(&["-nope"]), "flag -nope needs a value");
    assert_eq!(refusal(&["-block=x", "-nope=1"]), "flag -block: invalid number");
    assert_eq!(refusal(&["-"]), "flag - needs a value");
    assert!(matches!(outcome(&["-h", "x"]), Outcome::Help));
    assert!(matches!(outcome(&["-help=", "-rate"]), Outcome::Help));
    assert_eq!(refusal(&["-h"]), "flag -h needs a value");
}

#[test]
fn commands() {
    assert!(is_help("-h") && is_help("--help") && is_help("help") && !is_help("server"));
    assert!(matches!(plan("server", &[]), Plan::Serve));
    match plan("send", &strings(&["f", "h:1"])) {
        Plan::Send { file, server } => assert_eq!((file, server), ("f".into(), "h:1".into())),
        _ => panic!(),
    }
    match plan("recv", &strings(&["h:1", "n", "o"])) {
        Plan::Recv { server, name, out } => {
            assert_eq!(server, "h:1");
            assert_eq!(name, "n");
            assert_eq!(out, "o");
        }
        _ => panic!(),
    }
    assert!(matches!(
        plan("send", &strings(&["f"])),
        Plan::Misused("usage: girth send [flags] <file> <host:port>")
    ));
    assert!(matches!(
        plan("recv", &strings(&["f", "g"])),
        Plan::Misused("usage: girth recv [flags] <host:port> <name> <out>")
    ));
    match plan("co\"py", &[]) {
        Plan::Unknown(t) => assert_eq!(t, "unknown command \"co\\\"py\"\n"),
        _ => panic!(),
    }
}
