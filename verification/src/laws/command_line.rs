//! What holds of command lines: which argument each setting comes from, and what
//! stops a command line.

use crate::cli::{apply, is_help, parse, plan, scan};
use crate::cli::{Arg, ArgView, Args, Number, Outcome, OutcomeView, Parsed, Plan};
use vstd::prelude::*;

verus! {

/// Whether an argument is a flag of the given name.
pub open spec fn names(a: ArgView, name: Seq<char>) -> bool {
    a matches ArgView::Flag { name: n, .. } && n == name
}

/// Whether argument `i` is the last flag of its name among the first `k`.
pub open spec fn is_last(items: Seq<ArgView>, k: int, name: Seq<char>, i: int) -> bool {
    &&& 0 <= i < k
    &&& names(items[i], name)
    &&& forall|j: int| i < j < k ==> !names(#[trigger] items[j], name)
}

/// Whether no flag of that name is among the first `k` arguments.
pub open spec fn is_absent(items: Seq<ArgView>, k: int, name: Seq<char>) -> bool {
    forall|j: int| 0 <= j < k ==> !names(#[trigger] items[j], name)
}

/// The value of a flag; empty where it has none.
pub open spec fn value_of(a: ArgView) -> Seq<char> {
    match a {
        ArgView::Flag { value: Some(v), .. } => v,
        _ => Seq::empty(),
    }
}

/// The names of the flags differ.
proof fn names_differ()
    ensures
        "adaptive"@ != "encrypt"@,
        !crate::cli::wants_number("adaptive"@),
        !crate::cli::wants_number("encrypt"@),
        !crate::cli::wants_number("addr"@),
        !crate::cli::wants_number("dir"@),
        !crate::cli::wants_number("procs"@),
        !crate::cli::wants_number("h"@),
        !crate::cli::wants_number("help"@),
        "rate"@ != "max"@,
        "rate"@ != "alpha"@,
        "rate"@ != "block"@,
        "rate"@ != "workers"@,
        "rate"@ != "fb"@,
        "rate"@ != "report"@,
        "max"@ != "alpha"@,
        "max"@ != "block"@,
        "max"@ != "workers"@,
        "max"@ != "fb"@,
        "max"@ != "report"@,
        "alpha"@ != "block"@,
        "alpha"@ != "workers"@,
        "alpha"@ != "fb"@,
        "alpha"@ != "report"@,
        "block"@ != "workers"@,
        "block"@ != "fb"@,
        "block"@ != "report"@,
        "workers"@ != "fb"@,
        "workers"@ != "report"@,
        "fb"@ != "report"@,
        "addr"@ != "dir"@,
        "adaptive"@ != "addr"@,
        "adaptive"@ != "dir"@,
        "encrypt"@ != "addr"@,
        "encrypt"@ != "dir"@,
        "procs"@ != "addr"@,
        "procs"@ != "dir"@,
        "procs"@ != "adaptive"@,
        "procs"@ != "encrypt"@,
        "h"@ != "addr"@ && "h"@ != "dir"@ && "h"@ != "adaptive"@ && "h"@ != "encrypt"@ && "h"@
            != "procs"@,
        "help"@ != "addr"@ && "help"@ != "dir"@ && "help"@ != "adaptive"@ && "help"@ != "encrypt"@
            && "help"@ != "procs"@,
{
    reveal_strlit("adaptive");
    reveal_strlit("encrypt");
    reveal_strlit("addr");
    reveal_strlit("dir");
    reveal_strlit("procs");
    reveal_strlit("h");
    reveal_strlit("help");
    reveal_strlit("rate");
    reveal_strlit("max");
    reveal_strlit("alpha");
    reveal_strlit("block");
    reveal_strlit("workers");
    reveal_strlit("fb");
    reveal_strlit("report");
    assert("adaptive"@[0] == 'a' && "encrypt"@[0] == 'e' && "addr"@[1] == 'd' && "dir"@[0] == 'd');
    assert("procs"@[0] == 'p' && "h"@[0] == 'h' && "help"@[0] == 'h' && "rate"@[0] == 'r');
    assert("max"@[0] == 'm' && "alpha"@[1] == 'l' && "block"@[0] == 'b' && "workers"@[0] == 'w');
    assert("fb"@[0] == 'f' && "report"@[1] == 'e' && "rate"@[1] == 'a');
    assert("adaptive"@.len() == 8 && "addr"@.len() == 4 && "h"@.len() == 1 && "help"@.len() == 4);
}

/// One more argument changes which flag of a name is the last only where it is
/// one of that name.
proof fn last_step(items: Seq<ArgView>, k: int, name: Seq<char>)
    requires
        0 < k <= items.len(),
    ensures
        names(items[k - 1], name) ==> !is_absent(items, k, name) && forall|i: int| #[trigger]
            is_last(items, k, name, i) ==> i == k - 1,
        !names(items[k - 1], name) ==> is_absent(items, k, name) == is_absent(items, k - 1, name)
            && forall|i: int| #[trigger]
            is_last(items, k, name, i) ==> is_last(items, k - 1, name, i),
{
    if !names(items[k - 1], name) {
        assert forall|i: int| #[trigger] is_last(items, k, name, i) implies is_last(
            items,
            k - 1,
            name,
            i,
        ) by {
            assert(i != k - 1);
        }
        if is_absent(items, k - 1, name) {
            assert forall|j: int| 0 <= j < k implies !names(#[trigger] items[j], name) by {
                if j < k - 1 {
                }
            }
        }
    }
}

/// Whether the settings `p` come from the first `k` arguments: each from the last
/// flag that names it, and from nothing else.
pub open spec fn settings_come_from(
    items: Seq<ArgView>,
    numbers: Seq<Option<Number>>,
    k: int,
    p: crate::cli::ParsedView,
) -> bool {
    &&& p.params.encrypt == !is_absent(items, k, "encrypt"@)
    &&& p.params.adaptive == !is_absent(items, k, "adaptive"@)
    &&& is_absent(items, k, "rate"@) ==> p.params.rate_bps == 100_000_000
    &&& forall|i: int| #[trigger]
        is_last(items, k, "rate"@, i) ==> numbers[i] is Some && p.params.rate_bps
            == numbers[i]->Some_0.bps
    &&& is_absent(items, k, "max"@) ==> p.params.max_bps == 10_000_000_000
    &&& forall|i: int| #[trigger]
        is_last(items, k, "max"@, i) ==> numbers[i] is Some && p.params.max_bps
            == numbers[i]->Some_0.bps
    &&& is_absent(items, k, "alpha"@) ==> p.params.alpha_bps == 30_000_000
    &&& forall|i: int| #[trigger]
        is_last(items, k, "alpha"@, i) ==> numbers[i] is Some && p.params.alpha_bps
            == numbers[i]->Some_0.bps
    &&& is_absent(items, k, "block"@) ==> p.params.block_size
        == crate::protocol::DEFAULT_BLOCK_SIZE
    &&& forall|i: int| #[trigger]
        is_last(items, k, "block"@, i) ==> numbers[i] is Some && p.params.block_size
            == numbers[i]->Some_0.size
    &&& is_absent(items, k, "workers"@) ==> p.params.read_workers == 0
    &&& forall|i: int| #[trigger]
        is_last(items, k, "workers"@, i) ==> numbers[i] is Some && p.params.read_workers
            == numbers[i]->Some_0.size
    &&& is_absent(items, k, "fb"@) ==> p.params.feedback_interval_us == 5000
    &&& forall|i: int| #[trigger]
        is_last(items, k, "fb"@, i) ==> numbers[i] is Some && p.params.feedback_interval_us
            == numbers[i]->Some_0.micros
    &&& is_absent(items, k, "report"@) ==> p.params.report_interval_ms == 1000
    &&& forall|i: int| #[trigger]
        is_last(items, k, "report"@, i) ==> numbers[i] is Some && {
            let millis = numbers[i]->Some_0.millis;
            &&& millis > 0 ==> p.params.report_interval_ms == millis
            &&& millis <= 0 ==> p.params.report_interval_ms == 3_600_000
        }
    &&& p.params.net_tick_interval_us == 10000
    &&& !p.params.verbose
    &&& is_absent(items, k, "addr"@) ==> p.addr == ":7400"@
    &&& forall|i: int| #[trigger]
        is_last(items, k, "addr"@, i) ==> p.addr == value_of(items[i])
    &&& is_absent(items, k, "dir"@) ==> p.dir == "."@
    &&& forall|i: int| #[trigger] is_last(items, k, "dir"@, i) ==> p.dir == value_of(items[i])
}

#[verifier::spinoff_prover]
#[verifier::rlimit(60)]
proof fn settled_settings(items: Seq<ArgView>, numbers: Seq<Option<Number>>, k: nat)
    requires
        k <= items.len(),
        crate::cli::settled(items, numbers, k) is Run,
    ensures
        settings_come_from(
            items,
            numbers,
            k as int,
            crate::cli::settled(items, numbers, k)->Run_0,
        ),
    decreases k,
{
    if k > 0 {
        settled_settings(items, numbers, (k - 1) as nat);
        names_differ();
        last_step(items, k as int, "encrypt"@);
        last_step(items, k as int, "adaptive"@);
        last_step(items, k as int, "rate"@);
        last_step(items, k as int, "max"@);
        last_step(items, k as int, "alpha"@);
        last_step(items, k as int, "block"@);
        last_step(items, k as int, "workers"@);
        last_step(items, k as int, "fb"@);
        last_step(items, k as int, "report"@);
        last_step(items, k as int, "addr"@);
        last_step(items, k as int, "dir"@);
    }
}

/// Law: the settings of a command line that runs come from its flags. Encryption
/// is on exactly where `-encrypt` is among them, the adaptive mode exactly where
/// `-adaptive` is, and every other setting is the one of the last flag that names
/// it, or the default where none does.
pub proof fn settings_come_from_their_flags()
    ensures
        forall|args: Args, numbers: &[Option<Number>], r: Outcome| #[trigger]
            call_ensures(parse, (args, numbers), r) ==> (r matches Outcome::Run(p)
                ==> settings_come_from(
                args@.items,
                numbers@,
                args@.items.len() as int,
                p@,
            )),
{
    assert forall|args: Args, numbers: &[Option<Number>], r: Outcome| #[trigger]
        call_ensures(parse, (args, numbers), r) && r is Run implies settings_come_from(
        args@.items,
        numbers@,
        args@.items.len() as int,
        r->Run_0@,
    ) by {
        assert(r@ is Run);
        settled_settings(args@.items, numbers@, args@.items.len());
    }
}

/// Whether a flag is one that a command line can go on with, with the number `n`
/// that its value reads as.
pub open spec fn goes_on(a: ArgView, n: Option<Number>) -> bool {
    ||| a is Positional
    ||| names(a, "adaptive"@)
    ||| names(a, "encrypt"@)
    ||| names(a, "addr"@)
    ||| names(a, "dir"@)
    ||| names(a, "procs"@)
    ||| n is Some && (names(a, "rate"@) || names(a, "max"@) || names(a, "alpha"@) || names(
        a,
        "block"@,
    ) || names(a, "workers"@) || names(a, "fb"@) || names(a, "report"@))
}

/// Whether `r` is what comes of an argument that a command line cannot go on
/// with.
pub open spec fn is_stop(a: ArgView, r: OutcomeView) -> bool {
    match a {
        ArgView::Positional(_) => false,
        ArgView::Flag { name, .. } => if name == "h"@ || name == "help"@ {
            r is Help
        } else if name == "rate"@ || name == "max"@ || name == "alpha"@ || name == "block"@ || name
            == "workers"@ || name == "fb"@ || name == "report"@ {
            r == OutcomeView::Refused("flag -"@ + name + ": invalid number"@)
        } else {
            r == OutcomeView::Refused("unknown flag -"@ + name)
        },
    }
}

/// Whether argument `i` is the first that a command line cannot go on with.
pub open spec fn is_first_stop(
    items: Seq<ArgView>,
    numbers: Seq<Option<Number>>,
    k: int,
    i: int,
) -> bool {
    &&& 0 <= i < k
    &&& !goes_on(items[i], numbers[i])
    &&& forall|j: int| 0 <= j < i ==> goes_on(#[trigger] items[j], numbers[j])
}

#[verifier::spinoff_prover]
proof fn settled_stops(items: Seq<ArgView>, numbers: Seq<Option<Number>>, k: nat)
    requires
        k <= items.len(),
    ensures
        crate::cli::settled(items, numbers, k) is Run ==> forall|j: int|
            0 <= j < k ==> goes_on(#[trigger] items[j], numbers[j]),
        forall|i: int| #[trigger]
            is_first_stop(items, numbers, k as int, i) ==> is_stop(
                items[i],
                crate::cli::settled(items, numbers, k),
            ),
        !(crate::cli::settled(items, numbers, k) is Run) ==> exists|i: int| #[trigger]
            is_first_stop(items, numbers, k as int, i),
    decreases k,
{
    if k > 0 {
        let before = crate::cli::settled(items, numbers, (k - 1) as nat);
        settled_stops(items, numbers, (k - 1) as nat);
        names_differ();
        let a = items[k - 1];
        let n = numbers[k - 1];
        if before is Run {
            assert(crate::cli::with_arg(before->Run_0, a, n) is Run == goes_on(a, n));
            if !goes_on(a, n) {
                assert(is_first_stop(items, numbers, k as int, k - 1));
            }
            assert forall|i: int| #[trigger]
                is_first_stop(items, numbers, k as int, i) implies is_stop(
                items[i],
                crate::cli::settled(items, numbers, k),
            ) by {
                assert(i == k - 1);
            }
        } else {
            let i = choose|i: int| #[trigger] is_first_stop(items, numbers, (k - 1) as int, i);
            assert(is_first_stop(items, numbers, k as int, i));
            assert forall|j: int| #[trigger]
                is_first_stop(items, numbers, k as int, j) implies is_stop(
                items[j],
                crate::cli::settled(items, numbers, k),
            ) by {
                if j == k - 1 {
                    assert(goes_on(items[i], numbers[i]));
                }
                assert(is_first_stop(items, numbers, (k - 1) as int, j));
            }
        }
    }
}

/// Law: a command line runs exactly where it was told apart to its end and knows
/// every flag, with a number where one is wanted. Else the first argument that it
/// cannot go on with decides: a call for help, an unknown flag, or a value that
/// is no number.
pub proof fn first_wrong_argument_decides()
    ensures
        forall|args: Args, numbers: &[Option<Number>], r: Outcome|
            #![trigger call_ensures(parse, (args, numbers), r)]
            call_ensures(parse, (args, numbers), r) ==> {
                let items = args@.items;
                let k = items.len() as int;
                &&& r is Run <==> args.problem is None && forall|j: int|
                    0 <= j < k ==> goes_on(#[trigger] items[j], numbers@[j])
                &&& forall|i: int| #[trigger]
                    is_first_stop(items, numbers@, k, i) ==> is_stop(items[i], r@)
                &&& (forall|j: int| 0 <= j < k ==> goes_on(#[trigger] items[j], numbers@[j]))
                    ==> (args.problem matches Some(p) ==> r@ == OutcomeView::Refused(p@))
            },
{
    assert forall|args: Args, numbers: &[Option<Number>], r: Outcome| #[trigger]
        call_ensures(parse, (args, numbers), r) implies {
        let items = args@.items;
        let k = items.len() as int;
        &&& r is Run <==> args.problem is None && forall|j: int|
            0 <= j < k ==> goes_on(#[trigger] items[j], numbers@[j])
        &&& forall|i: int| #[trigger]
            is_first_stop(items, numbers@, k, i) ==> is_stop(items[i], r@)
        &&& (forall|j: int| 0 <= j < k ==> goes_on(#[trigger] items[j], numbers@[j])) ==> (
        args.problem matches Some(p) ==> r@ == OutcomeView::Refused(p@))
    } by {
        let items = args@.items;
        settled_stops(items, numbers@, items.len());
        assert(r is Run == r@ is Run);
        assert(r@ == crate::cli::parsed(args@, numbers@));
        if forall|j: int| 0 <= j < items.len() ==> goes_on(#[trigger] items[j], numbers@[j]) {
            if !(crate::cli::settled(items, numbers@, items.len()) is Run) {
                let i = choose|i: int| #[trigger]
                    is_first_stop(items, numbers@, items.len() as int, i);
                assert(goes_on(items[i], numbers@[i]));
            }
        }
    }
}

/// The positional arguments among the first `k`, in order.
pub open spec fn positionals_of(items: Seq<ArgView>) -> Seq<Seq<char>> {
    items.filter(|a: ArgView| a is Positional).map_values(|a: ArgView| a->Positional_0)
}

proof fn settled_positionals(items: Seq<ArgView>, numbers: Seq<Option<Number>>, k: nat)
    requires
        k <= items.len(),
        crate::cli::settled(items, numbers, k) is Run,
    ensures
        crate::cli::settled(items, numbers, k)->Run_0.positionals == positionals_of(
            items.take(k as int),
        ),
    decreases k,
{
    reveal(Seq::filter);
    let f = |a: ArgView| a is Positional;
    if k == 0 {
        assert(items.take(0) =~= Seq::<ArgView>::empty());
        assert(positionals_of(items.take(0)) =~= Seq::<Seq<char>>::empty());
    } else {
        settled_positionals(items, numbers, (k - 1) as nat);
        let t = items.take(k as int);
        assert(t.drop_last() =~= items.take(k - 1));
        assert(t.last() == items[k - 1]);
        assert(positionals_of(t) =~= if items[k - 1] is Positional {
            positionals_of(items.take(k - 1)).push(items[k - 1]->Positional_0)
        } else {
            positionals_of(items.take(k - 1))
        });
    }
}

/// Law: the positional arguments of a command line that runs are those that are
/// no flags, all of them, in their order.
pub proof fn positionals_are_kept_in_order()
    ensures
        forall|args: Args, numbers: &[Option<Number>], r: Outcome| #[trigger]
            call_ensures(parse, (args, numbers), r) ==> (r matches Outcome::Run(p)
                ==> p@.positionals == positionals_of(args@.items)),
{
    assert forall|args: Args, numbers: &[Option<Number>], r: Outcome| #[trigger]
        call_ensures(parse, (args, numbers), r) && r is Run implies r->Run_0@.positionals
        == positionals_of(args@.items) by {
        assert(r@ is Run);
        settled_positionals(args@.items, numbers@, args@.items.len());
        assert(args@.items.take(args@.items.len() as int) =~= args@.items);
    }
}

/// The name and the value of a flag that is written out.
proof fn written_flag(name: Seq<char>, value: Seq<char>)
    requires
        !name.contains('='),
    ensures
        ({
            let a = seq!['-'] + name + seq!['='] + value;
            &&& a[0] == '-'
            &&& crate::cli::flag_name(a) == name
            &&& crate::cli::inline_value(a) == Some(value)
        }),
        ({
            let b = seq!['-'] + name;
            &&& b[0] == '-'
            &&& crate::cli::flag_name(b) == name
            &&& crate::cli::inline_value(b) is None
        }),
{
    let a = seq!['-'] + name + seq!['='] + value;
    let b = seq!['-'] + name;
    assert(a.skip(1) =~= name + seq!['='] + value);
    assert forall|k: int| 0 <= k < name.len() implies a.skip(1)[k] != '=' by {
        assert(name.contains(name[k]));
    }
    crate::text::first_of_step(a.skip(1), '=', name.len() as int);
    assert(a.skip(1).skip(name.len() as int)[0] == '=');
    assert(crate::cli::flag_name(a) =~= name);
    assert(a.skip(1).skip(name.len() as int + 1) =~= value);
    assert(b.skip(1) =~= name);
    assert forall|k: int| 0 <= k < name.len() implies name[k] != '=' by {
        assert(name.contains(name[k]));
    }
    crate::text::first_of_step(name, '=', name.len() as int);
    assert(crate::cli::flag_name(b) =~= name);
}

/// Whether the first argument of `all` alone makes the item `item`, before those
/// of `rest`.
pub open spec fn is_in_front(all: Args, item: ArgView, rest: Args) -> bool {
    all@.items == seq![item] + rest@.items && all@.problem == rest@.problem
}

/// Law: an argument that does not begin with a dash stands for itself.
pub proof fn other_arguments_are_positional()
    ensures
        forall|all: &[String], rest: &[String], x: Args, y: Args|
            #![trigger call_ensures(scan, (all,), x), call_ensures(scan, (rest,), y)]
            call_ensures(scan, (all,), x) && call_ensures(scan, (rest,), y) && all@.len() > 0
                && crate::cli::texts(rest@) == crate::cli::texts(all@).skip(1) && (all@[0]@.len()
                == 0 || all@[0]@[0] != '-') ==> is_in_front(x, ArgView::Positional(all@[0]@), y),
        forall|none: &[String], x: Args| #[trigger]
            call_ensures(scan, (none,), x) && none@.len() == 0 ==> x@.items.len() == 0 && x.problem
                is None,
{
    assert forall|none: &[String], x: Args| #[trigger]
        call_ensures(scan, (none,), x) && none@.len() == 0 implies x@.items.len() == 0 && x.problem
        is None by {
        assert(crate::cli::texts(none@).len() == 0);
    }
}

/// Law: `-adaptive` and `-encrypt` take no value, whatever follows them.
pub proof fn switches_take_no_value()
    ensures
        forall|all: &[String], rest: &[String], x: Args, y: Args, name: Seq<char>|
            #![trigger call_ensures(scan, (all,), x), call_ensures(scan, (rest,), y), seq!['-'] + name]
            call_ensures(scan, (all,), x) && call_ensures(scan, (rest,), y) && all@.len() > 0
                && crate::cli::texts(rest@) == crate::cli::texts(all@).skip(1) && (name
                == "adaptive"@ || name == "encrypt"@) && all@[0]@ == seq!['-'] + name
                ==> is_in_front(x, ArgView::Flag { name, value: None }, y),
{
    reveal_strlit("adaptive");
    reveal_strlit("encrypt");
    assert(!"adaptive"@.contains('='));
    assert(!"encrypt"@.contains('='));
    written_flag("adaptive"@, Seq::empty());
    written_flag("encrypt"@, Seq::empty());
}

/// Law: any other flag takes a value. It stands behind the flag's first `=`, or
/// else is the next argument, dash or no dash; where there is none the command
/// line is wrong.
#[verifier::spinoff_prover]
pub proof fn flags_take_values()
    ensures
        forall|
            all: &[String],
            rest: &[String],
            x: Args,
            y: Args,
            name: Seq<char>,
            value: Seq<char>,
        |
            #![trigger call_ensures(scan, (all,), x), call_ensures(scan, (rest,), y), seq!['-'] + name + seq!['='] + value]
            call_ensures(scan, (all,), x) && call_ensures(scan, (rest,), y) && all@.len() > 0
                && crate::cli::texts(rest@) == crate::cli::texts(all@).skip(1) && !name.contains(
                '=',
            ) && name != "adaptive"@ && name != "encrypt"@ && all@[0]@ == seq!['-'] + name
                + seq!['='] + value ==> is_in_front(
                x,
                ArgView::Flag { name, value: Some(value) },
                y,
            ),
        forall|all: &[String], rest: &[String], x: Args, y: Args, name: Seq<char>|
            #![trigger call_ensures(scan, (all,), x), call_ensures(scan, (rest,), y), seq!['-'] + name]
            call_ensures(scan, (all,), x) && call_ensures(scan, (rest,), y) && all@.len() > 1
                && crate::cli::texts(rest@) == crate::cli::texts(all@).skip(2) && !name.contains(
                '=',
            ) && name != "adaptive"@ && name != "encrypt"@ && all@[0]@ == seq!['-'] + name
                ==> is_in_front(x, ArgView::Flag { name, value: Some(all@[1]@) }, y),
        forall|all: &[String], x: Args, name: Seq<char>|
            #![trigger call_ensures(scan, (all,), x), seq!['-'] + name]
            call_ensures(scan, (all,), x) && all@.len() == 1 && !name.contains('=') && name
                != "adaptive"@ && name != "encrypt"@ && all@[0]@ == seq!['-'] + name
                ==> x@.items.len() == 0 && x@.problem == Some(
                "flag -"@ + name + " needs a value"@,
            ),
{
    assert forall|
        all: &[String],
        rest: &[String],
        x: Args,
        y: Args,
        name: Seq<char>,
        value: Seq<char>,
    |
        #![trigger call_ensures(scan, (all,), x), call_ensures(scan, (rest,), y), seq!['-'] + name + seq!['='] + value]
        call_ensures(scan, (all,), x) && call_ensures(scan, (rest,), y) && all@.len() > 0
            && crate::cli::texts(rest@) == crate::cli::texts(all@).skip(1) && !name.contains('=')
            && name != "adaptive"@ && name != "encrypt"@ && all@[0]@ == seq!['-'] + name
            + seq!['='] + value implies is_in_front(
        x,
        ArgView::Flag { name, value: Some(value) },
        y,
    ) by {
        written_flag(name, value);
        assert(crate::cli::texts(all@)[0] == all@[0]@);
    }
    assert forall|all: &[String], rest: &[String], x: Args, y: Args, name: Seq<char>|
        #![trigger call_ensures(scan, (all,), x), call_ensures(scan, (rest,), y), seq!['-'] + name]
        call_ensures(scan, (all,), x) && call_ensures(scan, (rest,), y) && all@.len() > 1
            && crate::cli::texts(rest@) == crate::cli::texts(all@).skip(2) && !name.contains('=')
            && name != "adaptive"@ && name != "encrypt"@ && all@[0]@ == seq!['-']
            + name implies is_in_front(x, ArgView::Flag { name, value: Some(all@[1]@) }, y) by {
        written_flag(name, Seq::empty());
        assert(crate::cli::texts(all@)[0] == all@[0]@);
        assert(crate::cli::texts(all@)[1] == all@[1]@);
    }
    assert forall|all: &[String], x: Args, name: Seq<char>|
        #![trigger call_ensures(scan, (all,), x), seq!['-'] + name]
        call_ensures(scan, (all,), x) && all@.len() == 1 && !name.contains('=') && name
            != "adaptive"@ && name != "encrypt"@ && all@[0]@ == seq!['-']
            + name implies x@.items.len() == 0 && x@.problem == Some(
        "flag -"@ + name + " needs a value"@,
    ) by {
        written_flag(name, Seq::empty());
        assert(crate::cli::texts(all@)[0] == all@[0]@);
    }
}

/// Law: a command gets its positional arguments in the order in which its usage
/// text names them, and exactly as many; the commands are `server`, `send` and
/// `recv`.
pub proof fn commands_take_their_arguments()
    ensures
        forall|cmd: &str, p: &[String], r: Plan| #[trigger]
            call_ensures(plan, (cmd, p), r) ==> {
                &&& cmd@ == "server"@ <==> r is Serve
                &&& cmd@ == "send"@ && p@.len() == 2 <==> r is Send
                &&& r matches Plan::Send { file, server } ==> file@ == p@[0]@ && server@ == p@[1]@
                &&& cmd@ == "recv"@ && p@.len() == 3 <==> r is Recv
                &&& r matches Plan::Recv { server, name, out } ==> server@ == p@[0]@ && name@
                    == p@[1]@ && out@ == p@[2]@
                &&& cmd@ == "send"@ && p@.len() != 2 ==> r is Misused && r->Misused_0@
                    == "usage: girth send [flags] <file> <host:port>"@
                &&& cmd@ == "recv"@ && p@.len() != 3 ==> r is Misused && r->Misused_0@
                    == "usage: girth recv [flags] <host:port> <name> <out>"@
                &&& cmd@ != "server"@ && cmd@ != "send"@ && cmd@ != "recv"@ <==> r is Unknown
                &&& r matches Plan::Unknown(text) ==> text@ == "unknown command "@
                    + crate::text::debug_quoted(cmd@) + "\n"@
            },
        forall|cmd: &str, r: bool| #[trigger]
            call_ensures(is_help, (cmd,), r) ==> r == (cmd@ == "-h"@ || cmd@ == "--help"@ || cmd@
                == "help"@),
{
    reveal_strlit("server");
    reveal_strlit("send");
    reveal_strlit("recv");
    assert("send"@[0] == 's' && "recv"@[0] == 'r' && "server"@.len() == 6 && "send"@.len() == 4);
}

/// Law: a flag changes only the setting that it names, and no positional argument;
/// a positional argument changes no setting.
pub proof fn flags_change_only_what_they_name()
    ensures
        forall|s: Parsed, a: &Arg, n: Option<Number>, r: Outcome| #[trigger]
            call_ensures(apply, (s, a, n), r) ==> (r matches Outcome::Run(t) ==> {
                &&& !names(a@, "rate"@) ==> t@.params.rate_bps == s@.params.rate_bps
                &&& !names(a@, "max"@) ==> t@.params.max_bps == s@.params.max_bps
                &&& !names(a@, "alpha"@) ==> t@.params.alpha_bps == s@.params.alpha_bps
                &&& !names(a@, "block"@) ==> t@.params.block_size == s@.params.block_size
                &&& !names(a@, "workers"@) ==> t@.params.read_workers == s@.params.read_workers
                &&& !names(a@, "fb"@) ==> t@.params.feedback_interval_us
                    == s@.params.feedback_interval_us
                &&& !names(a@, "report"@) ==> t@.params.report_interval_ms
                    == s@.params.report_interval_ms
                &&& !names(a@, "adaptive"@) ==> t@.params.adaptive == s@.params.adaptive
                &&& !names(a@, "encrypt"@) ==> t@.params.encrypt == s@.params.encrypt
                &&& !names(a@, "addr"@) ==> t@.addr == s@.addr
                &&& !names(a@, "dir"@) ==> t@.dir == s@.dir
                &&& t@.params.net_tick_interval_us == s@.params.net_tick_interval_us
                &&& t@.params.verbose == s@.params.verbose
                &&& a@ is Flag ==> t@.positionals == s@.positionals
                &&& a@ matches ArgView::Positional(p) ==> t@.positionals == s@.positionals.push(p)
            }),
{
    names_differ();
}

/// Law: flags of different names can be exchanged.
pub proof fn flags_commute()
    ensures
        forall|
            s: Parsed,
            a: &Arg,
            n: Option<Number>,
            b: &Arg,
            m: Option<Number>,
            sa: Parsed,
            sb: Parsed,
            sab: Outcome,
            sba: Outcome,
        |
            #![trigger call_ensures(apply, (s, a, n), Outcome::Run(sa)), call_ensures(apply, (s, b, m), Outcome::Run(sb)), call_ensures(apply, (sa, b, m), sab), call_ensures(apply, (sb, a, n), sba)]
            call_ensures(apply, (s, a, n), Outcome::Run(sa)) && call_ensures(
                apply,
                (s, b, m),
                Outcome::Run(sb),
            ) && call_ensures(apply, (sa, b, m), sab) && call_ensures(apply, (sb, a, n), sba)
                && a@ is Flag && b@ is Flag && a@->Flag_name != b@->Flag_name ==> sab@ is Run
                && sab@ == sba@,
{
    names_differ();
    assert forall|
        s: Parsed,
        a: &Arg,
        n: Option<Number>,
        b: &Arg,
        m: Option<Number>,
        sa: Parsed,
        sb: Parsed,
        sab: Outcome,
        sba: Outcome,
    |
        #![trigger call_ensures(apply, (s, a, n), Outcome::Run(sa)), call_ensures(apply, (s, b, m), Outcome::Run(sb)), call_ensures(apply, (sa, b, m), sab), call_ensures(apply, (sb, a, n), sba)]
        call_ensures(apply, (s, a, n), Outcome::Run(sa)) && call_ensures(
            apply,
            (s, b, m),
            Outcome::Run(sb),
        ) && call_ensures(apply, (sa, b, m), sab) && call_ensures(apply, (sb, a, n), sba) && a@
            is Flag && b@ is Flag && a@->Flag_name != b@->Flag_name implies sab@ is Run && sab@
        == sba@ by {
        assert(Outcome::Run(sa)@ == OutcomeView::Run(sa@));
        assert(Outcome::Run(sb)@ == OutcomeView::Run(sb@));
        assert(sab@->Run_0 =~= sba@->Run_0);
    }
}

} // verus!
