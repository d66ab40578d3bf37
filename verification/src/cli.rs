//! The command line: how arguments are told apart, what each flag sets, and what
//! a command asks for.

use crate::control::{default_params, TransferParams};
use crate::text::{chars_of, joined, position_of_first, quoted, same, string_between};
use vstd::prelude::*;

verus! {

/// The texts of strings.
pub open spec fn texts(v: Seq<String>) -> Seq<Seq<char>> {
    v.map_values(|s: String| s@)
}

// --- telling arguments apart ------------------------------------------------

/// One argument, with the value that belongs to it.
pub enum Arg {
    Positional(String),
    Flag { name: String, value: Option<String> },
}

/// An argument as plain text.
pub enum ArgView {
    Positional(Seq<char>),
    Flag { name: Seq<char>, value: Option<Seq<char>> },
}

impl View for Arg {
    type V = ArgView;

    open spec fn view(&self) -> ArgView {
        match self {
            Arg::Positional(s) => ArgView::Positional(s@),
            Arg::Flag { name, value } => ArgView::Flag {
                name: name@,
                value: match value {
                    Some(v) => Some(v@),
                    None => None,
                },
            },
        }
    }
}

/// The arguments of a command line as far as they could be told apart.
pub struct Args {
    pub items: Vec<Arg>,
    /// What stopped the telling apart before the end.
    pub problem: Option<String>,
}

/// Arguments told apart, as plain text.
#[verifier::ext_equal]
pub struct ArgsView {
    pub items: Seq<ArgView>,
    pub problem: Option<Seq<char>>,
}

impl View for Args {
    type V = ArgsView;

    open spec fn view(&self) -> ArgsView {
        ArgsView {
            items: self.items@.map_values(|a: Arg| a@),
            problem: match self.problem {
                Some(p) => Some(p@),
                None => None,
            },
        }
    }
}

/// Whether an argument is a flag.
pub open spec fn is_flag(a: Seq<char>) -> bool {
    a.len() > 0 && a[0] == '-'
}

/// The name of a flag: what stands between its dash and its first `=`.
pub open spec fn flag_name(a: Seq<char>) -> Seq<char> {
    let body = a.skip(1);
    body.take(crate::text::first_of(body, '='))
}

/// The value written behind a flag's first `=`.
pub open spec fn inline_value(a: Seq<char>) -> Option<Seq<char>> {
    let body = a.skip(1);
    let at = crate::text::first_of(body, '=');
    if at < body.len() {
        Some(body.skip(at + 1))
    } else {
        None
    }
}

/// Whether a flag takes a value.
pub open spec fn takes_value(name: Seq<char>) -> bool {
    name != "adaptive"@ && name != "encrypt"@
}

/// `rest` with `item` in front.
pub open spec fn in_front(item: ArgView, rest: ArgsView) -> ArgsView {
    ArgsView { items: seq![item] + rest.items, ..rest }
}

/// The arguments of a command line told apart: a flag that takes a value has it
/// behind its `=` or else in the next argument.
pub open spec fn scanned(args: Seq<Seq<char>>) -> ArgsView
    decreases args.len(),
{
    if args.len() == 0 {
        ArgsView { items: Seq::empty(), problem: None }
    } else {
        let a = args[0];
        let name = flag_name(a);
        if !is_flag(a) {
            in_front(ArgView::Positional(a), scanned(args.skip(1)))
        } else if !takes_value(name) {
            in_front(ArgView::Flag { name, value: None }, scanned(args.skip(1)))
        } else if inline_value(a) is Some {
            in_front(ArgView::Flag { name, value: inline_value(a) }, scanned(args.skip(1)))
        } else if args.len() == 1 {
            ArgsView { items: Seq::empty(), problem: Some("flag -"@ + name + " needs a value"@) }
        } else {
            in_front(ArgView::Flag { name, value: Some(args[1]) }, scanned(args.skip(2)))
        }
    }
}

/// Splits a flag into its name and the value behind its `=`.
fn split_flag(chars: &[char]) -> (r: (String, Option<String>))
    requires
        is_flag(chars@),
    ensures
        r.0@ == flag_name(chars@),
        match r.1 {
            Some(v) => inline_value(chars@) == Some(v@),
            None => inline_value(chars@) is None,
        },
{
    let body = vstd::slice::slice_subrange(chars, 1, chars.len());
    assert(body@ =~= chars@.skip(1));
    let at: usize = position_of_first(body, '=');
    let name = string_between(body, 0, at);
    assert(name@ =~= flag_name(chars@));
    if at < body.len() {
        let value = string_between(body, at + 1, body.len());
        assert(value@ =~= body@.skip(at + 1));
        (name, Some(value))
    } else {
        (name, None)
    }
}

/// Tells the arguments of a command line apart.
pub fn scan(args: &[String]) -> (r: Args)
    ensures
        r@ =~= scanned(texts(args@)),
{
    let ghost all = texts(args@);
    let mut items: Vec<Arg> = Vec::new();
    let mut i: usize = 0;
    assert(all.skip(0) =~= all);
    assert(scanned(all).items =~= items@.map_values(|a: Arg| a@) + scanned(all.skip(0)).items);
    while i < args.len()
        invariant
            i <= args@.len(),
            all == texts(args@),
            scanned(all).items =~= items@.map_values(|a: Arg| a@) + scanned(
                all.skip(i as int),
            ).items,
            scanned(all).problem == scanned(all.skip(i as int)).problem,
        decreases args@.len() - i,
    {
        let ghost rest = all.skip(i as int);
        let ghost before = items@.map_values(|a: Arg| a@);
        assert(rest[0] == args@[i as int]@);
        assert(rest.skip(1) =~= all.skip(i + 1));
        let chars = chars_of(args[i].as_str());
        if chars.len() == 0 || chars[0] != '-' {
            items.push(Arg::Positional(args[i].as_str().to_owned()));
            i = i + 1;
        } else {
            let (name, inline) = split_flag(&chars);
            if same(&name, "adaptive") || same(&name, "encrypt") {
                items.push(Arg::Flag { name, value: None });
                i = i + 1;
            } else if let Some(v) = inline {
                items.push(Arg::Flag { name, value: Some(v) });
                i = i + 1;
            } else if args.len() - i == 1 {
                let problem = joined(&joined("flag -", &name), " needs a value");
                return Args { items, problem: Some(problem) };
            } else {
                let value = args[i + 1].as_str().to_owned();
                assert(rest[1] == args@[i + 1]@);
                assert(rest.skip(2) =~= all.skip(i + 2));
                items.push(Arg::Flag { name, value: Some(value) });
                i = i + 2;
            }
        }
        let ghost last = items@.last()@;
        assert(items@.map_values(|a: Arg| a@) =~= before.push(last));
    }
    assert(all.skip(i as int) =~= Seq::<Seq<char>>::empty());
    Args { items, problem: None }
}

/// Law: a value behind `=` and a value in the next argument mean the same.
pub proof fn inline_and_separate_values_agree(
    name: Seq<char>,
    value: Seq<char>,
    rest: Seq<Seq<char>>,
)
    requires
        !name.contains('='),
        takes_value(name),
    ensures
        scanned(seq![seq!['-'] + name + seq!['='] + value] + rest) == scanned(
            seq![seq!['-'] + name, value] + rest,
        ),
{
    let a = seq!['-'] + name + seq!['='] + value;
    let b = seq!['-'] + name;
    assert(a.skip(1) =~= name + seq!['='] + value);
    assert forall|k: int| 0 <= k < name.len() implies a.skip(1)[k] != '=' by {
        assert(name.contains(name[k]));
    }
    crate::text::first_of_step(a.skip(1), '=', name.len() as int);
    assert(a.skip(1).skip(name.len() as int)[0] == '=');
    assert(flag_name(a) =~= name);
    assert(a.skip(1).skip(name.len() as int + 1) =~= value);
    assert(b.skip(1) =~= name);
    assert forall|k: int| 0 <= k < name.len() implies name[k] != '=' by {
        assert(name.contains(name[k]));
    }
    crate::text::first_of_step(name, '=', name.len() as int);
    assert(flag_name(b) =~= name);
    assert((seq![a] + rest).skip(1) =~= rest);
    assert((seq![b, value] + rest).skip(2) =~= rest);
}

// --- what the flags set -----------------------------------------------------

/// A value read as a number: as megabits per second in bits per second, and cut
/// to each of the sizes that a flag wants.
#[derive(Debug, Clone, Copy, PartialEq, Eq, Structural)]
pub struct Number {
    pub bps: u64,
    pub size: usize,
    pub micros: u32,
    pub millis: i64,
}

/// What a command line sets.
pub struct Parsed {
    pub params: TransferParams,
    pub addr: String,
    pub dir: String,
    pub positionals: Vec<String>,
}

/// What a command line sets, as plain text.
#[verifier::ext_equal]
pub struct ParsedView {
    pub params: TransferParams,
    pub addr: Seq<char>,
    pub dir: Seq<char>,
    pub positionals: Seq<Seq<char>>,
}

impl View for Parsed {
    type V = ParsedView;

    open spec fn view(&self) -> ParsedView {
        ParsedView {
            params: self.params,
            addr: self.addr@,
            dir: self.dir@,
            positionals: texts(self.positionals@),
        }
    }
}

/// What comes of a command line.
pub enum Outcome {
    /// Go on with these settings.
    Run(Parsed),
    /// Show the usage text.
    Help,
    /// The command line is wrong.
    Refused(String),
}

/// What comes of a command line, as plain text.
#[verifier::ext_equal]
pub enum OutcomeView {
    Run(ParsedView),
    Help,
    Refused(Seq<char>),
}

impl View for Outcome {
    type V = OutcomeView;

    open spec fn view(&self) -> OutcomeView {
        match self {
            Outcome::Run(p) => OutcomeView::Run(p@),
            Outcome::Help => OutcomeView::Help,
            Outcome::Refused(s) => OutcomeView::Refused(s@),
        }
    }
}

/// The settings of an empty command line.
pub open spec fn initial_settings() -> ParsedView {
    ParsedView {
        params: crate::control::default_parameters(),
        addr: ":7400"@,
        dir: "."@,
        positionals: Seq::empty(),
    }
}

/// The report interval that `-report` asks for; zero or less means hardly ever.
pub open spec fn report_every(millis: i64) -> u64 {
    if millis > 0 {
        millis as u64
    } else {
        3_600_000
    }
}

/// Whether the value of a flag has to be a number.
pub open spec fn wants_number(name: Seq<char>) -> bool {
    name == "rate"@ || name == "max"@ || name == "alpha"@ || name == "block"@ || name
        == "workers"@ || name == "fb"@ || name == "report"@
}

/// The parameters after a flag with a number.
pub open spec fn with_number(p: TransferParams, name: Seq<char>, n: Number) -> TransferParams {
    if name == "rate"@ {
        TransferParams { rate_bps: n.bps, ..p }
    } else if name == "max"@ {
        TransferParams { max_bps: n.bps, ..p }
    } else if name == "alpha"@ {
        TransferParams { alpha_bps: n.bps, ..p }
    } else if name == "block"@ {
        TransferParams { block_size: n.size, ..p }
    } else if name == "workers"@ {
        TransferParams { read_workers: n.size, ..p }
    } else if name == "fb"@ {
        TransferParams { feedback_interval_us: n.micros, ..p }
    } else {
        TransferParams { report_interval_ms: report_every(n.millis), ..p }
    }
}

/// The settings after one more argument, whose value reads as the number `n`,
/// if it is one.
pub open spec fn with_arg(s: ParsedView, a: ArgView, n: Option<Number>) -> OutcomeView {
    match a {
        ArgView::Positional(t) => OutcomeView::Run(
            ParsedView { positionals: s.positionals.push(t), ..s },
        ),
        ArgView::Flag { name, value } => {
            let text = match value {
                Some(v) => v,
                None => Seq::empty(),
            };
            if wants_number(name) {
                match n {
                    Some(n) => OutcomeView::Run(
                        ParsedView { params: with_number(s.params, name, n), ..s },
                    ),
                    None => OutcomeView::Refused("flag -"@ + name + ": invalid number"@),
                }
            } else if name == "adaptive"@ {
                OutcomeView::Run(
                    ParsedView { params: TransferParams { adaptive: true, ..s.params }, ..s },
                )
            } else if name == "encrypt"@ {
                OutcomeView::Run(
                    ParsedView { params: TransferParams { encrypt: true, ..s.params }, ..s },
                )
            } else if name == "addr"@ {
                OutcomeView::Run(ParsedView { addr: text, ..s })
            } else if name == "dir"@ {
                OutcomeView::Run(ParsedView { dir: text, ..s })
            } else if name == "procs"@ {
                OutcomeView::Run(s)
            } else if name == "h"@ || name == "help"@ {
                OutcomeView::Help
            } else {
                OutcomeView::Refused("unknown flag -"@ + name)
            }
        },
    }
}

/// What comes of the first `k` arguments: the first that is wrong, or asks for
/// help, decides.
pub open spec fn settled(items: Seq<ArgView>, numbers: Seq<Option<Number>>, k: nat) -> OutcomeView
    decreases k,
{
    if k == 0 {
        OutcomeView::Run(initial_settings())
    } else {
        match settled(items, numbers, (k - 1) as nat) {
            OutcomeView::Run(s) => with_arg(s, items[k - 1], numbers[k - 1]),
            other => other,
        }
    }
}

/// What comes of a command line.
pub open spec fn parsed(args: ArgsView, numbers: Seq<Option<Number>>) -> OutcomeView {
    match settled(args.items, numbers, args.items.len()) {
        OutcomeView::Run(s) => match args.problem {
            Some(p) => OutcomeView::Refused(p),
            None => OutcomeView::Run(s),
        },
        other => other,
    }
}

/// Whether the value of a flag has to be a number.
fn needs_number(name: &str) -> (r: bool)
    ensures
        r == wants_number(name@),
{
    same(name, "rate") || same(name, "max") || same(name, "alpha") || same(name, "block") || same(
        name,
        "workers",
    ) || same(name, "fb") || same(name, "report")
}

/// The parameters after a flag with a number.
fn set_number(p: TransferParams, name: &str, n: Number) -> (r: TransferParams)
    ensures
        r == with_number(p, name@, n),
{
    let mut p = p;
    if same(name, "rate") {
        p.rate_bps = n.bps;
    } else if same(name, "max") {
        p.max_bps = n.bps;
    } else if same(name, "alpha") {
        p.alpha_bps = n.bps;
    } else if same(name, "block") {
        p.block_size = n.size;
    } else if same(name, "workers") {
        p.read_workers = n.size;
    } else if same(name, "fb") {
        p.feedback_interval_us = n.micros;
    } else {
        p.report_interval_ms = if n.millis > 0 {
            n.millis as u64
        } else {
            3_600_000
        };
    }
    p
}

/// The settings after one more argument.
pub fn apply(s: Parsed, a: &Arg, n: Option<Number>) -> (r: Outcome)
    ensures
        r@ =~= with_arg(s@, a@, n),
{
    let mut s = s;
    match a {
        Arg::Positional(t) => {
            let ghost before = s.positionals@;
            s.positionals.push(t.as_str().to_owned());
            assert(texts(s.positionals@) =~= texts(before).push(t@));
            Outcome::Run(s)
        },
        Arg::Flag { name, value } => {
            let text: String = match value {
                Some(v) => v.as_str().to_owned(),
                None => String::new(),
            };
            if needs_number(name) {
                match n {
                    Some(n) => {
                        s.params = set_number(s.params, name, n);
                        Outcome::Run(s)
                    },
                    None => Outcome::Refused(
                        joined(&joined("flag -", name), ": invalid number"),
                    ),
                }
            } else if same(name, "adaptive") {
                s.params.adaptive = true;
                Outcome::Run(s)
            } else if same(name, "encrypt") {
                s.params.encrypt = true;
                Outcome::Run(s)
            } else if same(name, "addr") {
                s.addr = text;
                Outcome::Run(s)
            } else if same(name, "dir") {
                s.dir = text;
                Outcome::Run(s)
            } else if same(name, "procs") {
                Outcome::Run(s)
            } else if same(name, "h") || same(name, "help") {
                Outcome::Help
            } else {
                Outcome::Refused(joined("unknown flag -", name))
            }
        },
    }
}

/// Works out what a command line sets. `numbers` holds, for each argument, its
/// value read as a number, if it is one.
pub fn parse(args: Args, numbers: &[Option<Number>]) -> (r: Outcome)
    requires
        numbers@.len() == args.items@.len(),
    ensures
        r@ =~= parsed(args@, numbers@),
{
    let ghost items = args@.items;
    let mut s = Parsed {
        params: default_params(),
        addr: ":7400".to_owned(),
        dir: ".".to_owned(),
        positionals: Vec::new(),
    };
    assert(s@ =~= initial_settings());
    let mut i: usize = 0;
    while i < args.items.len()
        invariant
            i <= args.items@.len(),
            numbers@.len() == args.items@.len(),
            items == args@.items,
            settled(items, numbers@, i as nat) == OutcomeView::Run(s@),
        decreases args.items@.len() - i,
    {
        let next = apply(s, &args.items[i], numbers[i]);
        assert(settled(items, numbers@, (i + 1) as nat) == next@);
        match next {
            Outcome::Run(t) => {
                s = t;
            },
            other => {
                proof {
                    decided_early(items, numbers@, (i + 1) as nat, items.len());
                }
                return other;
            },
        }
        i = i + 1;
    }
    match args.problem {
        Some(p) => Outcome::Refused(p),
        None => Outcome::Run(s),
    }
}

/// Once an argument is wrong or asks for help, no later one matters.
proof fn decided_early(items: Seq<ArgView>, numbers: Seq<Option<Number>>, k: nat, n: nat)
    requires
        k <= n,
        !(settled(items, numbers, k) is Run),
    ensures
        settled(items, numbers, n) == settled(items, numbers, k),
    decreases n - k,
{
    if k < n {
        decided_early(items, numbers, k, (n - 1) as nat);
    }
}

/// Law: of two settings of the same number, the last one counts.
pub proof fn last_setting_counts(
    s: ParsedView,
    name: Seq<char>,
    v: Option<Seq<char>>,
    a: Number,
    b: Number,
)
    requires
        wants_number(name),
    ensures
        match with_arg(s, ArgView::Flag { name, value: v }, Some(a)) {
            OutcomeView::Run(t) => with_arg(t, ArgView::Flag { name, value: v }, Some(b))
                == with_arg(s, ArgView::Flag { name, value: v }, Some(b)),
            _ => false,
        },
{
}

/// Law: flags leave the positional arguments alone, and positional arguments
/// leave the settings alone.
pub proof fn flags_and_positionals_are_independent(s: ParsedView, a: ArgView, n: Option<Number>)
    ensures
        match with_arg(s, a, n) {
            OutcomeView::Run(t) => match a {
                ArgView::Positional(p) => t.params == s.params && t.addr == s.addr && t.dir == s.dir
                    && t.positionals == s.positionals.push(p),
                ArgView::Flag { .. } => t.positionals == s.positionals,
            },
            _ => a is Flag,
        },
{
}

// --- commands ---------------------------------------------------------------

/// What a command asks for.
pub enum Plan {
    Serve,
    Send { file: String, server: String },
    Recv { server: String, name: String, out: String },
    /// The command has the wrong number of arguments.
    Misused(&'static str),
    /// There is no such command.
    Unknown(String),
}

/// What `girth send` wants.
pub const SEND_USAGE: &'static str = "usage: girth send [flags] <file> <host:port>";

/// What `girth recv` wants.
pub const RECV_USAGE: &'static str = "usage: girth recv [flags] <host:port> <name> <out>";

/// Whether a command is a call for help.
pub fn is_help(cmd: &str) -> (r: bool)
    ensures
        r == (cmd@ == "-h"@ || cmd@ == "--help"@ || cmd@ == "help"@),
{
    same(cmd, "-h") || same(cmd, "--help") || same(cmd, "help")
}

/// What a command with these positional arguments asks for.
pub fn plan(cmd: &str, positionals: &[String]) -> (r: Plan)
    ensures
        cmd@ == "server"@ ==> r is Serve,
        cmd@ != "server"@ && cmd@ == "send"@ ==> if positionals@.len() == 2 {
            &&& r matches Plan::Send { file, server }
            &&& file@ == positionals@[0]@
            &&& server@ == positionals@[1]@
        } else {
            r == Plan::Misused(SEND_USAGE)
        },
        cmd@ != "server"@ && cmd@ != "send"@ && cmd@ == "recv"@ ==> if positionals@.len() == 3 {
            &&& r matches Plan::Recv { server, name, out }
            &&& server@ == positionals@[0]@
            &&& name@ == positionals@[1]@
            &&& out@ == positionals@[2]@
        } else {
            r == Plan::Misused(RECV_USAGE)
        },
        cmd@ != "server"@ && cmd@ != "send"@ && cmd@ != "recv"@ ==> {
            &&& r matches Plan::Unknown(text)
            &&& text@ == "unknown command "@ + crate::text::debug_quoted(cmd@) + "\n"@
        },
{
    if same(cmd, "server") {
        Plan::Serve
    } else if same(cmd, "send") {
        if positionals.len() != 2 {
            return Plan::Misused(SEND_USAGE);
        }
        Plan::Send {
            file: positionals[0].as_str().to_owned(),
            server: positionals[1].as_str().to_owned(),
        }
    } else if same(cmd, "recv") {
        if positionals.len() != 3 {
            return Plan::Misused(RECV_USAGE);
        }
        Plan::Recv {
            server: positionals[0].as_str().to_owned(),
            name: positionals[1].as_str().to_owned(),
            out: positionals[2].as_str().to_owned(),
        }
    } else {
        Plan::Unknown(joined(&joined("unknown command ", &quoted(cmd)), "\n"))
    }
}

} // verus!
