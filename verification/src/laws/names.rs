//! What holds of names, addresses, frames and settings.

use crate::control::{
    basename, decode_bytes, default_params, encode_bytes, frame_message, host_basename,
    message_len, slashed, slice_or_empty, TransferParams,
};
use crate::error::{IoError, IoKind};
use crate::laws::wire::{number_at, number_of};
use crate::rate::{RateConfig, RateMode};
use crate::transfer::{normalize_listen_addr, peer_target, served_object_name};
use vstd::prelude::*;

verus! {

// --- names ------------------------------------------------------------------

/// Whether a text can be the name of an object: it is not empty, no relative step,
/// and holds no `/`.
pub open spec fn names_something(name: Seq<char>) -> bool {
    &&& name.len() > 0
    &&& !(name.len() == 1 && name[0] == '.')
    &&& !(name.len() == 2 && name[0] == '.' && name[1] == '.')
    &&& forall|i: int| 0 <= i < name.len() ==> #[trigger] name[i] != '/'
}

proof fn name_is_one(name: Seq<char>)
    requires
        names_something(name),
    ensures
        crate::control::is_name(name),
        !name.contains('/'),
{
    assert(seq!['.'].len() == 1 && seq!['.'][0] == '.');
    assert(seq!['.', '.'].len() == 2 && seq!['.', '.'][0] == '.' && seq!['.', '.'][1] == '.');
}

/// A trailing `/` does not change the last component.
proof fn trailing_slash(p: Seq<char>)
    ensures
        crate::control::last_component(p + seq!['/']) == crate::control::last_component(p),
{
    let q = p + seq!['/'];
    assert(q.last() == '/');
    assert(q.drop_last() =~= p);
}

/// A path that ends in a relative step has that step as its last component.
proof fn step_up(dir: Seq<char>)
    ensures
        crate::control::last_component(dir + seq!['/', '.', '.']) == seq!['.', '.'],
{
    let p = dir + seq!['/', '.', '.'];
    assert(p.last() == '.' && p[p.len() - 2] == '.');
    assert(crate::control::without_tail(p) == p);
    assert(p =~= dir + seq!['/'] + seq!['.', '.']);
    assert(!seq!['.', '.'].contains('/'));
    crate::transfer::name_is_behind_separator(dir, '/', seq!['.', '.']);
    assert(p.skip(dir.len() as int + 1) =~= seq!['.', '.']);
}

/// The path that steps up from `dir`.
pub open spec fn above(dir: Seq<char>) -> Seq<char> {
    dir + seq!['/', '.', '.']
}

/// Law: a path's name is what stands behind its last `/`, with or without a `/` or
/// a `/.` behind it, whatever stands before; a path that ends in a step up has none and
/// stands for itself. This is so where `/` alone separates.
pub proof fn paths_end_in_names()
    ensures
        forall|p: &str, r: String, dir: Seq<char>, name: Seq<char>|
            #![trigger call_ensures(basename, (p,), r), dir + seq!['/'] + name]
            call_ensures(basename, (p,), r) && names_something(name) && p@ == dir + seq!['/'] + name
                ==> r@ == name,
        forall|p: &str, r: String, dir: Seq<char>, name: Seq<char>|
            #![trigger call_ensures(basename, (p,), r), dir + seq!['/'] + name + seq!['/']]
            call_ensures(basename, (p,), r) && names_something(name) && p@ == dir + seq!['/'] + name
                + seq!['/'] ==> r@ == name,
        forall|p: &str, r: String, dir: Seq<char>, name: Seq<char>|
            #![trigger call_ensures(basename, (p,), r), dir + seq!['/'] + name + seq!['/'] + seq!['.']]
            call_ensures(basename, (p,), r) && names_something(name) && p@ == dir + seq!['/'] + name
                + seq!['/'] + seq!['.'] ==> r@ == name,
        forall|p: &str, r: String| #[trigger]
            call_ensures(basename, (p,), r) && names_something(p@) ==> r@ == p@,
        forall|p: &str, r: String, dir: Seq<char>|
            #![trigger call_ensures(basename, (p,), r), above(dir)]
            call_ensures(basename, (p,), r) && p@ == above(dir) ==> r@ == p@,
        forall|p: &str, r: String, s: String|
            #![trigger call_ensures(host_basename, (p, false), r), call_ensures(basename, (p,), s)]
            call_ensures(host_basename, (p, false), r) && call_ensures(basename, (p,), s) ==> r@
                == s@,
{
    assert forall|p: &str, r: String, dir: Seq<char>, name: Seq<char>|
        #![trigger call_ensures(basename, (p,), r), dir + seq!['/'] + name]
        call_ensures(basename, (p,), r) && names_something(name) && p@ == dir + seq!['/']
            + name implies r@ == name by {
        name_is_one(name);
        crate::transfer::name_is_last_component(dir, name);
    }
    assert forall|p: &str, r: String, dir: Seq<char>, name: Seq<char>|
        #![trigger call_ensures(basename, (p,), r), dir + seq!['/'] + name + seq!['/']]
        call_ensures(basename, (p,), r) && names_something(name) && p@ == dir + seq!['/'] + name
            + seq!['/'] implies r@ == name by {
        name_is_one(name);
        crate::transfer::name_is_last_component(dir, name);
        trailing_slash(dir + seq!['/'] + name);
    }
    assert forall|p: &str, r: String, dir: Seq<char>, name: Seq<char>|
        #![trigger call_ensures(basename, (p,), r), dir + seq!['/'] + name + seq!['/'] + seq!['.']]
        call_ensures(basename, (p,), r) && names_something(name) && p@ == dir + seq!['/'] + name
            + seq!['/'] + seq!['.'] implies r@ == name by {
        name_is_one(name);
        crate::transfer::name_is_last_component(dir, name);
        let d = dir + seq!['/'] + name;
        trailing_slash(d);
        assert(p@.drop_last() =~= d + seq!['/']);
        assert(crate::control::last_component(p@) == crate::control::last_component(d + seq!['/']));
    }
    assert forall|p: &str, r: String| #[trigger]
        call_ensures(basename, (p,), r) && names_something(p@) implies r@ == p@ by {
        name_is_one(p@);
        crate::transfer::name_is_last_component(p@, p@);
    }
    assert forall|p: &str, r: String, dir: Seq<char>|
        #![trigger call_ensures(basename, (p,), r), above(dir)]
        call_ensures(basename, (p,), r) && p@ == above(dir) implies r@ == p@ by {
        step_up(dir);
    }
}

/// Law: a request is served under a plain name or not at all. What is served holds
/// no separator, is no relative step and, where `\` separates, begins with no
/// drive; a plain name is served as it is, and so is the name that a path ends in.
pub proof fn served_names_are_plain()
    ensures
        forall|name: &str, backslash: bool, r: Result<String, IoError>| #[trigger]
            call_ensures(served_object_name, (name, backslash), r) ==> {
                &&& r matches Ok(s) ==> {
                    &&& s@.len() > 0
                    &&& !s@.contains('/')
                    &&& !s@.contains('\\')
                    &&& !(s@.len() == 1 && s@[0] == '.')
                    &&& !(s@.len() == 2 && s@[0] == '.' && s@[1] == '.')
                    &&& backslash && s@.len() >= 2 && s@[1] == ':' ==> !(('a' <= s@[0] <= 'z') || (
                    'A' <= s@[0] <= 'Z'))
                }
                &&& r matches Err(e) ==> e.kind == IoKind::InvalidInput && e.message@
                    == "invalid object name"@
                &&& !backslash && names_something(name@) && !name@.contains('\\') ==> r is Ok
                    && r->Ok_0@ == name@
            },
        forall|
            path: &str,
            r: Result<String, IoError>,
            dir: Seq<char>,
            name: Seq<char>,
        |
            #![trigger call_ensures(served_object_name, (path, false), r), dir + seq!['/'] + name]
            call_ensures(served_object_name, (path, false), r) && names_something(name)
                && !name.contains('\\') && path@ == dir + seq!['/'] + name ==> r is Ok && r->Ok_0@
                == name,
        forall|name: &str, backslash: bool, r: Result<String, IoError>, b: String|
            #![trigger call_ensures(served_object_name, (name, backslash), r), call_ensures(host_basename, (name, backslash), b)]
            call_ensures(served_object_name, (name, backslash), r) && call_ensures(
                host_basename,
                (name, backslash),
                b,
            ) && r is Ok ==> r->Ok_0@ == b@,
{
    assert forall|name: &str, backslash: bool, r: Result<String, IoError>| #[trigger]
        call_ensures(served_object_name, (name, backslash), r) implies {
        &&& r matches Ok(s) ==> {
            &&& !(s@.len() == 1 && s@[0] == '.')
            &&& !(s@.len() == 2 && s@[0] == '.' && s@[1] == '.')
        }
        &&& !backslash && names_something(name@) && !name@.contains('\\') ==> r is Ok && r->Ok_0@
            == name@
    } by {
        if r is Ok {
            let s = r->Ok_0@;
            if s.len() == 1 && s[0] == '.' {
                assert(s =~= seq!['.']);
            }
            if s.len() == 2 && s[0] == '.' && s[1] == '.' {
                assert(s =~= seq!['.', '.']);
            }
        }
        if names_something(name@) {
            name_is_one(name@);
            crate::transfer::name_is_last_component(name@, name@);
        }
    }
    assert forall|path: &str, r: Result<String, IoError>, dir: Seq<char>, name: Seq<char>|
        #![trigger call_ensures(served_object_name, (path, false), r), dir + seq!['/'] + name]
        call_ensures(served_object_name, (path, false), r) && names_something(name)
            && !name.contains('\\') && path@ == dir + seq!['/'] + name implies r is Ok && r->Ok_0@
        == name by {
        name_is_one(name);
        crate::transfer::name_is_last_component(dir, name);
    }
}

/// Law: where `\` separates, a plain name is served as it is, and a path that ends
/// in one is served under it or turned down, never under another.
pub proof fn backslashed_names_are_plain()
    ensures
        forall|
            path: &str,
            r: Result<String, IoError>,
            dir: Seq<char>,
            c: char,
            name: Seq<char>,
        |
            #![trigger call_ensures(served_object_name, (path, true), r), dir + seq![c] + name]
            call_ensures(served_object_name, (path, true), r) && (c == '/' || c == '\\')
                && names_something(name) && !name.contains('\\') && !(name.len() >= 2 && name[1]
                == ':') && path@ == dir + seq![c] + name && r is Ok ==> r->Ok_0@ == name,
        forall|name: &str, r: Result<String, IoError>| #[trigger]
            call_ensures(served_object_name, (name, true), r) && names_something(name@)
                && !name@.contains('\\') && !(name@.len() >= 2 && name@[1] == ':') ==> r is Ok
                && r->Ok_0@ == name@,
        forall|p: &str, r: String| #[trigger]
            call_ensures(slashed, (p, false), r) ==> r@ == p@,
        forall|p: &str, r: String| #[trigger]
            call_ensures(slashed, (p, true), r) ==> r@.len() == p@.len() && forall|i: int|
                0 <= i < p@.len() ==> (#[trigger] r@[i] == if p@[i] == '\\' {
                    '/'
                } else {
                    p@[i]
                }),
{
    assert forall|path: &str, r: Result<String, IoError>, dir: Seq<char>, c: char, name: Seq<char>|
        #![trigger call_ensures(served_object_name, (path, true), r), dir + seq![c] + name]
        call_ensures(served_object_name, (path, true), r) && (c == '/' || c == '\\')
            && names_something(name) && !name.contains('\\') && !(name.len() >= 2 && name[1] == ':')
            && path@ == dir + seq![c] + name && r is Ok implies r->Ok_0@ == name by {
        name_is_one(name);
        crate::transfer::backslashed_paths_reduce_to_names(dir, c, name);
    }
    assert forall|name: &str, r: Result<String, IoError>| #[trigger]
        call_ensures(served_object_name, (name, true), r) && names_something(name@)
            && !name@.contains('\\') && !(name@.len() >= 2 && name@[1] == ':') implies r is Ok
        && r->Ok_0@ == name@ by {
        name_is_one(name@);
        crate::transfer::backslashed_paths_reduce_to_names(name@, '/', name@);
    }
}

/// Whether a text is a part of a path: it is not empty and holds no separator.
pub open spec fn is_part(s: Seq<char>) -> bool {
    s.len() > 0 && !s.contains('/') && !s.contains('\\')
}

/// Whether a text is a part of a path that names something.
pub open spec fn is_plain_part(s: Seq<char>) -> bool {
    is_part(s) && names_something(s)
}

/// The path that a drive begins, with `rest` behind it.
pub open spec fn on_drive(d: char, rest: Seq<char>) -> Seq<char> {
    seq![d, ':'] + rest
}

/// The path of a share.
pub open spec fn share_path(server: Seq<char>, share: Seq<char>) -> Seq<char> {
    seq!['\\', '\\'] + server + seq!['\\'] + share
}

/// The path that is to be taken verbatim.
pub open spec fn verbatim_path(rest: Seq<char>) -> Seq<char> {
    seq!['\\', '\\', '?', '\\'] + rest
}

/// The verbatim path of a share.
pub open spec fn verbatim_share(server: Seq<char>, share: Seq<char>) -> Seq<char> {
    seq!['\\', '\\', '?', '\\', 'U', 'N', 'C', '\\'] + server + seq!['\\'] + share
}

proof fn first_behind(a: Seq<char>, c: char, rest: Seq<char>)
    requires
        !a.contains(c),
    ensures
        crate::text::first_of(a + seq![c] + rest, c) == a.len(),
        crate::text::first_of(a, c) == a.len(),
    decreases a.len(),
{
    let s = a + seq![c] + rest;
    if a.len() == 0 {
        assert(s[0] == c);
    } else {
        assert(a.contains(a[0]));
        assert(s[0] == a[0]);
        assert(s.drop_first() =~= a.drop_first() + seq![c] + rest);
        assert forall|x: char| a.drop_first().contains(x) implies a.contains(x) by {
            let i = choose|i: int| 0 <= i < a.len() - 1 && a.drop_first()[i] == x;
            assert(a[i + 1] == x);
        }
        first_behind(a.drop_first(), c, rest);
    }
}

proof fn drive_is_no_name(d: char, name: Seq<char>)
    requires
        ('a' <= d <= 'z') || ('A' <= d <= 'Z'),
        is_plain_part(name),
    ensures
        crate::control::host_name_of_path(on_drive(d, name), true) == name,
{
    let p = on_drive(d, name);
    name_is_one(name);
    assert(p[0] == d && p[1] == ':');
    assert forall|i: int| 0 <= i < p.len() implies #[trigger] p[i] != '\\' by {
        if i >= 2 {
            assert(name.contains(name[i - 2]));
        }
    }
    let s = crate::control::slashed_path(p, true);
    assert(s =~= p);
    assert(s.skip(2) =~= name);
    crate::transfer::name_is_last_component(name, name);
}

proof fn slashed_share(server: Seq<char>, share: Seq<char>, rest: Seq<char>)
    requires
        is_part(server),
        is_part(share),
        server != seq!['?'],
        rest.len() == 0 || rest[0] == '\\',
    ensures
        ({
            let p = share_path(server, share) + rest;
            let s = crate::control::slashed_path(p, true);
            &&& !crate::control::is_verbatim(p)
            &&& crate::control::prefix_len(s) == share_path(server, share).len()
            &&& s.skip(crate::control::prefix_len(s)) == crate::control::slashed_path(rest, true)
        }),
{
    let head = share_path(server, share);
    let p = head + rest;
    let s = crate::control::slashed_path(p, true);
    let n = server.len() as int;
    assert(p[2] == server[0]);
    if p[2] == '?' && p[3] == '\\' {
        if n > 1 {
            assert(p[3] == server[1]);
            assert(server.contains(server[1]));
        }
        assert(server =~= seq!['?']);
    }
    assert(s[0] == '/' && s[1] == '/');
    let tail = crate::control::slashed_path(rest, true);
    assert forall|i: int| 0 <= i < n implies #[trigger] s[i + 2] == server[i] by {
        assert(server.contains(server[i]));
        assert(p[i + 2] == server[i]);
    }
    assert(p[n + 2] == '\\');
    assert forall|i: int| 0 <= i < share.len() implies #[trigger] s[i + n + 3] == share[i] by {
        assert(share.contains(share[i]));
        assert(p[i + n + 3] == share[i]);
    }
    let behind = share + tail;
    assert forall|i: int| 0 <= i < behind.len() implies behind[i] == #[trigger] s[i + n + 3] by {
        if i >= share.len() {
            assert(p[i + n + 3] == rest[i - share.len()]);
        }
    }
    assert(s.skip(2) =~= server + seq!['/'] + behind) by {
        assert forall|i: int| 0 <= i < s.len() - 2 implies s.skip(2)[i] == (server + seq!['/']
            + behind)[i] by {
            if i < n {
                assert(s[i + 2] == server[i]);
            } else if i > n {
                assert(s[(i - n - 1) + n + 3] == behind[i - n - 1]);
            }
        }
    }
    first_behind(server, '/', behind);
    assert(s.skip(n + 3) =~= behind) by {
        assert forall|i: int| 0 <= i < behind.len() implies s.skip(n + 3)[i]
            == behind[i] by {
            assert(behind[i] == s[i + n + 3]);
        }
    }
    if rest.len() == 0 {
        assert(behind =~= share);
        first_behind(share, '/', rest);
    } else {
        assert(tail[0] == '/');
        assert(behind =~= share + seq!['/'] + tail.skip(1));
        first_behind(share, '/', tail.skip(1));
    }
    assert(s.skip(head.len() as int) =~= tail) by {
        assert forall|i: int| 0 <= i < tail.len() implies s.skip(head.len() as int)[i] == tail[i] by {
            assert(p[i + head.len()] == rest[i]);
        }
    }
}

proof fn share_is_no_name(server: Seq<char>, share: Seq<char>, name: Seq<char>)
    requires
        is_part(server),
        is_part(share),
        server != seq!['?'],
        is_plain_part(name),
    ensures
        crate::control::host_name_of_path(share_path(server, share), true) == share_path(
            server,
            share,
        ),
        crate::control::host_name_of_path(share_path(server, share) + seq!['\\'] + name, true)
            == name,
{
    let none = Seq::<char>::empty();
    let head = share_path(server, share);
    slashed_share(server, share, none);
    assert(head + none =~= head);
    assert(crate::control::slashed_path(none, true) =~= none);
    assert(none.skip(0) =~= none);
    assert(crate::control::last_component(none) =~= none);
    let rest = seq!['\\'] + name;
    slashed_share(server, share, rest);
    assert(head + rest =~= head + seq!['\\'] + name);
    assert(crate::control::slashed_path(rest, true) =~= none + seq!['/'] + name) by {
        assert forall|i: int| 0 <= i < rest.len() implies crate::control::slashed_path(
            rest,
            true,
        )[i] == (none + seq!['/'] + name)[i] by {
            if i > 0 {
                assert(name.contains(name[i - 1]));
            }
        }
    }
    name_is_one(name);
    crate::transfer::name_is_last_component(none, name);
}

proof fn behind_last_backslash(name: Seq<char>)
    requires
        name.len() > 0,
        !name.contains('\\'),
    ensures
        ({
            let q = crate::control::without_trailing(seq!['\\'] + name, '\\');
            q.skip(crate::text::after_last(q, '\\')) == name
        }),
{
    let q = seq!['\\'] + name;
    assert(name.contains(name.last()));
    assert(q.last() == name.last());
    let none = Seq::<char>::empty();
    assert(q =~= none + seq!['\\'] + name);
    crate::transfer::name_is_behind_separator(none, '\\', name);
    assert(q.skip(1) =~= name);
}

/// Whether a text may stand behind the first part of a verbatim path: it is not
/// empty, no relative step, and holds no `\`.
pub open spec fn is_verbatim_name(name: Seq<char>) -> bool {
    &&& name.len() > 0
    &&& name != seq!['.']
    &&& name != seq!['.', '.']
    &&& !name.contains('\\')
}

proof fn verbatim_names_stay(part: Seq<char>, name: Seq<char>)
    requires
        is_part(part),
        !part.contains(':'),
        part[0] != 'U',
        is_verbatim_name(name),
    ensures
        crate::control::host_name_of_path(verbatim_path(part), true) == verbatim_path(part),
        crate::control::host_name_of_path(verbatim_path(part + seq!['\\'] + name), true) == name,
{
    let none = Seq::<char>::empty();
    let a = verbatim_path(part);
    assert(a[4] == part[0]);
    assert(a.skip(4) =~= part);
    first_behind(part, '\\', none);
    if part.len() >= 2 {
        assert(part.contains(part[1]));
    }
    assert(a.skip(a.len() as int) =~= none);
    assert(crate::control::without_trailing(none, '\\') == none);
    assert(none.skip(0) =~= none);
    let b = verbatim_path(part + seq!['\\'] + name);
    assert(b[4] == part[0]);
    let c = part + seq!['\\'] + name;
    assert(b.skip(4) =~= c);
    first_behind(part, '\\', name);
    if part.len() >= 2 {
        assert(c[1] == part[1]);
    }
    assert(b.skip(4 + part.len() as int) =~= seq!['\\'] + name);
    behind_last_backslash(name);
}

proof fn verbatim_drives_are_no_names(d: char, name: Seq<char>)
    requires
        ('a' <= d <= 'z') || ('A' <= d <= 'Z'),
        is_verbatim_name(name),
    ensures
        crate::control::host_name_of_path(
            verbatim_path(on_drive(d, seq!['\\'] + name)),
            true,
        ) == name,
        crate::control::host_name_of_path(verbatim_path(on_drive(d, seq!['/'] + name)), true)
            == seq!['/'] + name,
{
    let a = verbatim_path(on_drive(d, seq!['\\'] + name));
    assert(a[4] == d && a[5] == ':' && a[6] == '\\');
    assert(a.skip(4) =~= on_drive(d, seq!['\\'] + name));
    assert(a.skip(6) =~= seq!['\\'] + name);
    behind_last_backslash(name);
    let b = verbatim_path(on_drive(d, seq!['/'] + name));
    assert(b[4] == d && b[5] == ':' && b[6] == '/');
    assert(b.skip(4) =~= on_drive(d, seq!['/'] + name));
    let c = seq!['/'] + name;
    assert(b.skip(6) =~= c);
    assert(name.contains(name.last()));
    assert(c.last() == name.last());
    assert forall|i: int| 0 <= i < c.len() implies c[i] != '\\' by {
        if i > 0 {
            assert(name.contains(name[i - 1]));
        }
    }
    assert(!c.contains('\\'));
    crate::transfer::name_is_behind_separator(c, '\\', c);
    assert(c.skip(0) =~= c);
    assert(c[0] == '/' && c.len() >= 2);
}

proof fn verbatim_shares_are_no_names(server: Seq<char>, share: Seq<char>, name: Seq<char>)
    requires
        is_part(server),
        is_part(share),
        is_verbatim_name(name),
    ensures
        crate::control::host_name_of_path(verbatim_share(server, share), true) == verbatim_share(
            server,
            share,
        ),
        crate::control::host_name_of_path(verbatim_share(server, share) + seq!['\\'] + name, true)
            == name,
{
    let none = Seq::<char>::empty();
    let a = verbatim_share(server, share);
    let n = server.len() as int;
    assert(a.skip(8) =~= server + seq!['\\'] + share);
    first_behind(server, '\\', share);
    assert(a.skip(n + 9) =~= share);
    first_behind(share, '\\', none);
    assert(a.skip(a.len() as int) =~= none);
    assert(crate::control::without_trailing(none, '\\') == none);
    assert(none.skip(0) =~= none);
    let b = a + seq!['\\'] + name;
    let behind = share + seq!['\\'] + name;
    assert(b.skip(8) =~= server + seq!['\\'] + behind);
    first_behind(server, '\\', behind);
    assert(b.skip(n + 9) =~= behind);
    first_behind(share, '\\', name);
    assert(b.skip(a.len() as int) =~= seq!['\\'] + name);
    behind_last_backslash(name);
}

/// Law: where `\` separates, a drive or a share that begins a path is no part of
/// its name, and is no name itself. In a path to be taken verbatim `\` alone
/// separates, and so its name may hold a `/`.
pub proof fn drives_and_shares_are_no_names()
    ensures
        forall|p: &str, r: String, d: char, name: Seq<char>|
            #![trigger call_ensures(host_basename, (p, true), r), on_drive(d, name)]
            call_ensures(host_basename, (p, true), r) && (('a' <= d <= 'z') || ('A' <= d <= 'Z'))
                && is_plain_part(name) && p@ == on_drive(d, name) ==> r@ == name,
        forall|p: &str, r: String, server: Seq<char>, share: Seq<char>|
            #![trigger call_ensures(host_basename, (p, true), r), share_path(server, share)]
            call_ensures(host_basename, (p, true), r) && is_part(server) && is_part(share)
                && server != seq!['?'] && p@ == share_path(server, share) ==> r@ == p@,
        forall|p: &str, r: String, server: Seq<char>, share: Seq<char>, name: Seq<char>|
            #![trigger call_ensures(host_basename, (p, true), r), share_path(server, share) + seq!['\\'] + name]
            call_ensures(host_basename, (p, true), r) && is_part(server) && is_part(share)
                && server != seq!['?'] && is_plain_part(name) && p@ == share_path(server, share)
                + seq!['\\'] + name ==> r@ == name,
        forall|p: &str, r: String, part: Seq<char>|
            #![trigger call_ensures(host_basename, (p, true), r), verbatim_path(part)]
            call_ensures(host_basename, (p, true), r) && is_part(part) && !part.contains(':')
                && part[0] != 'U' && p@ == verbatim_path(part) ==> r@ == p@,
        forall|p: &str, r: String, part: Seq<char>, name: Seq<char>|
            #![trigger call_ensures(host_basename, (p, true), r), verbatim_path(part + seq!['\\'] + name)]
            call_ensures(host_basename, (p, true), r) && is_part(part) && !part.contains(':')
                && part[0] != 'U' && is_verbatim_name(name) && p@ == verbatim_path(
                part + seq!['\\'] + name,
            ) ==> r@ == name,
        forall|p: &str, r: String, d: char, name: Seq<char>|
            #![trigger call_ensures(host_basename, (p, true), r), verbatim_path(on_drive(d, seq!['\\'] + name))]
            call_ensures(host_basename, (p, true), r) && (('a' <= d <= 'z') || ('A' <= d <= 'Z'))
                && is_verbatim_name(name) && p@ == verbatim_path(on_drive(d, seq!['\\'] + name))
                ==> r@ == name,
        forall|p: &str, r: String, d: char, name: Seq<char>|
            #![trigger call_ensures(host_basename, (p, true), r), verbatim_path(on_drive(d, seq!['/'] + name))]
            call_ensures(host_basename, (p, true), r) && (('a' <= d <= 'z') || ('A' <= d <= 'Z'))
                && is_verbatim_name(name) && p@ == verbatim_path(on_drive(d, seq!['/'] + name))
                ==> r@ == seq!['/'] + name,
        forall|p: &str, r: String, server: Seq<char>, share: Seq<char>|
            #![trigger call_ensures(host_basename, (p, true), r), verbatim_share(server, share)]
            call_ensures(host_basename, (p, true), r) && is_part(server) && is_part(share) && p@
                == verbatim_share(server, share) ==> r@ == p@,
        forall|p: &str, r: String, server: Seq<char>, share: Seq<char>, name: Seq<char>|
            #![trigger call_ensures(host_basename, (p, true), r), verbatim_share(server, share) + seq!['\\'] + name]
            call_ensures(host_basename, (p, true), r) && is_part(server) && is_part(share)
                && is_verbatim_name(name) && p@ == verbatim_share(server, share) + seq!['\\']
                + name ==> r@ == name,
{
    let some = seq!['a'];
    assert(some[0] == 'a');
    assert(is_plain_part(some));
    assert(is_verbatim_name(some));
    assert forall|d: char, name: Seq<char>|
        (('a' <= d <= 'z') || ('A' <= d <= 'Z')) && is_plain_part(
            name,
        ) implies crate::control::host_name_of_path(#[trigger] on_drive(d, name), true)
        == name by {
        drive_is_no_name(d, name);
    }
    assert forall|server: Seq<char>, share: Seq<char>|
        is_part(server) && is_part(share) && server
            != seq!['?'] implies crate::control::host_name_of_path(
        #[trigger] share_path(server, share),
        true,
    ) == share_path(server, share) by {
        share_is_no_name(server, share, some);
    }
    assert forall|server: Seq<char>, share: Seq<char>, name: Seq<char>|
        is_part(server) && is_part(share) && server != seq!['?'] && is_plain_part(
            name,
        ) implies crate::control::host_name_of_path(
        #[trigger] (share_path(server, share) + seq!['\\'] + name),
        true,
    ) == name by {
        share_is_no_name(server, share, name);
    }
    assert forall|part: Seq<char>|
        is_part(part) && !part.contains(':') && part[0]
            != 'U' implies crate::control::host_name_of_path(#[trigger] verbatim_path(part), true)
        == verbatim_path(part) by {
        verbatim_names_stay(part, some);
    }
    assert forall|part: Seq<char>, name: Seq<char>|
        is_part(part) && !part.contains(':') && part[0] != 'U' && is_verbatim_name(
            name,
        ) implies crate::control::host_name_of_path(
        #[trigger] verbatim_path(part + seq!['\\'] + name),
        true,
    ) == name by {
        verbatim_names_stay(part, name);
    }
    assert forall|d: char, name: Seq<char>|
        (('a' <= d <= 'z') || ('A' <= d <= 'Z')) && is_verbatim_name(
            name,
        ) implies crate::control::host_name_of_path(
        #[trigger] verbatim_path(on_drive(d, seq!['\\'] + name)),
        true,
    ) == name by {
        verbatim_drives_are_no_names(d, name);
    }
    assert forall|d: char, name: Seq<char>|
        (('a' <= d <= 'z') || ('A' <= d <= 'Z')) && is_verbatim_name(
            name,
        ) implies crate::control::host_name_of_path(
        #[trigger] verbatim_path(on_drive(d, seq!['/'] + name)),
        true,
    ) == seq!['/'] + name by {
        verbatim_drives_are_no_names(d, name);
    }
    assert forall|server: Seq<char>, share: Seq<char>|
        is_part(server) && is_part(share) implies crate::control::host_name_of_path(
        #[trigger] verbatim_share(server, share),
        true,
    ) == verbatim_share(server, share) by {
        verbatim_shares_are_no_names(server, share, some);
    }
    assert forall|server: Seq<char>, share: Seq<char>, name: Seq<char>|
        is_part(server) && is_part(share) && is_verbatim_name(
            name,
        ) implies crate::control::host_name_of_path(
        #[trigger] (verbatim_share(server, share) + seq!['\\'] + name),
        true,
    ) == name by {
        verbatim_shares_are_no_names(server, share, name);
    }
}

// --- addresses --------------------------------------------------------------

/// Whether a text neither begins nor ends with a bracket.
pub open spec fn is_bare(host: Seq<char>) -> bool {
    host.len() > 0 && host[0] != '[' && host.last() != ']'
}

proof fn bare_host_stays(host: Seq<char>)
    requires
        is_bare(host),
    ensures
        crate::transfer::without_close(crate::transfer::without_open(host)) == host,
        crate::transfer::without_close(
            crate::transfer::without_open(seq!['['] + host + seq![']']),
        ) == host,
{
    let b = seq!['['] + host + seq![']'];
    assert(b[0] == '[');
    assert(b.drop_first() =~= host + seq![']']);
    let t = host + seq![']'];
    assert(t[0] == host[0]);
    assert(crate::transfer::without_open(t) == t);
    assert(t.last() == ']');
    assert(t.drop_last() =~= host);
}

/// Law: data goes to the host of the control address, at the port that the server
/// named. The brackets of an IPv6 address are no part of it.
pub proof fn data_goes_to_the_same_host()
    ensures
        forall|addr: &str, udp: i64, r: String, host: Seq<char>, port: Seq<char>|
            #![trigger call_ensures(peer_target, (addr, udp), r), host + seq![':'] + port]
            call_ensures(peer_target, (addr, udp), r) && is_bare(host) && !port.contains(':')
                && addr@ == host + seq![':'] + port ==> r@ == host + ":"@ + crate::text::dec_signed(
                udp as int,
            ),
        forall|addr: &str, udp: i64, r: String, host: Seq<char>, port: Seq<char>|
            #![trigger call_ensures(peer_target, (addr, udp), r), seq!['['] + host + seq![']'] + seq![':'] + port]
            call_ensures(peer_target, (addr, udp), r) && is_bare(host) && !port.contains(':')
                && addr@ == seq!['['] + host + seq![']'] + seq![':'] + port ==> r@ == host + ":"@
                + crate::text::dec_signed(udp as int),
        forall|addr: &str, udp: i64, r: String, port: Seq<char>|
            #![trigger call_ensures(peer_target, (addr, udp), r), seq![':'] + port]
            call_ensures(peer_target, (addr, udp), r) && !port.contains(':') && addr@ == seq![':']
                + port ==> r@ == ":"@ + crate::text::dec_signed(udp as int),
        forall|addr: &str, udp: i64, r: String| #[trigger]
            call_ensures(peer_target, (addr, udp), r) && is_bare(addr@) && !addr@.contains(':')
                ==> r@ == addr@ + ":"@ + crate::text::dec_signed(udp as int),
{
    assert forall|addr: &str, udp: i64, r: String, host: Seq<char>, port: Seq<char>|
        #![trigger call_ensures(peer_target, (addr, udp), r), host + seq![':'] + port]
        call_ensures(peer_target, (addr, udp), r) && is_bare(host) && !port.contains(':') && addr@
            == host + seq![':'] + port implies r@ == host + ":"@ + crate::text::dec_signed(
        udp as int,
    ) by {
        crate::transfer::name_is_behind_separator(host, ':', port);
        assert(addr@.take(host.len() as int) =~= host);
        bare_host_stays(host);
    }
    assert forall|addr: &str, udp: i64, r: String, host: Seq<char>, port: Seq<char>|
        #![trigger call_ensures(peer_target, (addr, udp), r), seq!['['] + host + seq![']'] + seq![':'] + port]
        call_ensures(peer_target, (addr, udp), r) && is_bare(host) && !port.contains(':') && addr@
            == seq!['['] + host + seq![']'] + seq![':'] + port implies r@ == host + ":"@
        + crate::text::dec_signed(udp as int) by {
        let b = seq!['['] + host + seq![']'];
        crate::transfer::name_is_behind_separator(b, ':', port);
        assert(addr@.take(b.len() as int) =~= b);
        bare_host_stays(host);
    }
    assert forall|addr: &str, udp: i64, r: String, port: Seq<char>|
        #![trigger call_ensures(peer_target, (addr, udp), r), seq![':'] + port]
        call_ensures(peer_target, (addr, udp), r) && !port.contains(':') && addr@ == seq![':']
            + port implies r@ == ":"@ + crate::text::dec_signed(udp as int) by {
        let none = Seq::<char>::empty();
        assert(addr@ =~= none + seq![':'] + port);
        crate::transfer::name_is_behind_separator(none, ':', port);
        assert(addr@.take(0) =~= none);
        assert(r@ =~= ":"@ + crate::text::dec_signed(udp as int));
    }
    assert forall|addr: &str, udp: i64, r: String| #[trigger]
        call_ensures(peer_target, (addr, udp), r) && is_bare(addr@) && !addr@.contains(
            ':',
        ) implies r@ == addr@ + ":"@ + crate::text::dec_signed(udp as int) by {
        crate::transfer::name_is_behind_separator(addr@, ':', addr@);
        bare_host_stays(addr@);
    }
}

/// Law: a bare port and `:port` listen on all IPv4 addresses; an address with a
/// host is taken as it stands.
pub proof fn listen_addresses_are_filled_in()
    ensures
        forall|addr: &str, r: String| #[trigger]
            call_ensures(normalize_listen_addr, (addr,), r) && addr@.len() > 0
                && crate::transfer::all_digits(addr@) ==> r@ == "0.0.0.0:"@ + addr@,
        forall|addr: &str, r: String, port: Seq<char>|
            #![trigger call_ensures(normalize_listen_addr, (addr,), r), ":"@ + port]
            call_ensures(normalize_listen_addr, (addr,), r) && port.len() > 0
                && crate::transfer::all_digits(port) && addr@ == ":"@ + port ==> r@ == "0.0.0.0:"@
                + port,
        forall|addr: &str, r: String, host: Seq<char>, port: Seq<char>|
            #![trigger call_ensures(normalize_listen_addr, (addr,), r), host + seq![':'] + port]
            call_ensures(normalize_listen_addr, (addr,), r) && host.len() > 0 && port.len() > 0
                && !crate::text::is_space(host[0]) && crate::transfer::all_digits(port) && addr@
                == host + seq![':'] + port ==> r@ == addr@,
{
    assert forall|addr: &str, r: String| #[trigger]
        call_ensures(normalize_listen_addr, (addr,), r) && addr@.len() > 0
            && crate::transfer::all_digits(addr@) implies r@ == "0.0.0.0:"@ + addr@ by {
        crate::transfer::bare_ports_bind_everywhere(addr@);
    }
    assert forall|addr: &str, r: String, port: Seq<char>|
        #![trigger call_ensures(normalize_listen_addr, (addr,), r), ":"@ + port]
        call_ensures(normalize_listen_addr, (addr,), r) && port.len() > 0
            && crate::transfer::all_digits(port) && addr@ == ":"@ + port implies r@ == "0.0.0.0:"@
        + port by {
        crate::transfer::bare_ports_bind_everywhere(port);
    }
    assert forall|addr: &str, r: String, host: Seq<char>, port: Seq<char>|
        #![trigger call_ensures(normalize_listen_addr, (addr,), r), host + seq![':'] + port]
        call_ensures(normalize_listen_addr, (addr,), r) && host.len() > 0 && port.len() > 0
            && !crate::text::is_space(host[0]) && crate::transfer::all_digits(port) && addr@ == host
            + seq![':'] + port implies r@ == addr@ by {
        let a = addr@;
        assert('0' <= port[port.len() - 1] && port[port.len() - 1] <= '9');
        assert(a.last() == port.last());
        assert(a[0] == host[0]);
        assert(crate::text::trimmed_start(a) == a);
        assert(crate::text::trimmed_end(a) == a);
        assert(!port.contains(':')) by {
            if port.contains(':') {
                let i = choose|i: int| 0 <= i < port.len() && port[i] == ':';
                assert('0' <= port[i] && port[i] <= '9');
            }
        }
        crate::transfer::name_is_behind_separator(host, ':', port);
    }
}

proof fn leading_space(s: Seq<char>, c: char)
    requires
        crate::text::is_space(c),
    ensures
        crate::text::trimmed(seq![c] + s) == crate::text::trimmed(s),
{
    let t = seq![c] + s;
    assert(t[0] == c);
    assert(t.drop_first() =~= s);
}

proof fn start_before_space(s: Seq<char>, c: char)
    requires
        crate::text::is_space(c),
    ensures
        crate::text::trimmed_start(s).len() > 0 ==> crate::text::trimmed_start(s + seq![c])
            == crate::text::trimmed_start(s) + seq![c],
        crate::text::trimmed_start(s).len() == 0 ==> crate::text::trimmed_start(
            s + seq![c],
        ).len() == 0,
    decreases s.len(),
{
    let t = s + seq![c];
    if s.len() == 0 {
        assert(t[0] == c);
        assert(t.drop_first() =~= s);
    } else {
        assert(t[0] == s[0]);
        if crate::text::is_space(s[0]) {
            start_before_space(s.drop_first(), c);
            assert(t.drop_first() =~= s.drop_first() + seq![c]);
        }
    }
}

proof fn trailing_space(s: Seq<char>, c: char)
    requires
        crate::text::is_space(c),
    ensures
        crate::text::trimmed(s + seq![c]) == crate::text::trimmed(s),
{
    start_before_space(s, c);
    let a = crate::text::trimmed_start(s);
    let b = crate::text::trimmed_start(s + seq![c]);
    if a.len() > 0 {
        assert(b.last() == c);
        assert(b.drop_last() =~= a);
    } else {
        assert(a =~= b);
    }
}

/// Law: white space around an address changes nothing.
pub proof fn space_around_addresses_is_ignored()
    ensures
        forall|a: &str, x: String, b: &str, y: String, c: char|
            #![trigger call_ensures(normalize_listen_addr, (a,), x), call_ensures(normalize_listen_addr, (b,), y), crate::laws::texts::is_white(c)]
            call_ensures(normalize_listen_addr, (a,), x) && call_ensures(
                normalize_listen_addr,
                (b,),
                y,
            ) && crate::laws::texts::is_white(c) && (b@ == seq![c] + a@ || b@ == a@ + seq![c]) ==> x@
                == y@,
{
    assert forall|a: &str, x: String, b: &str, y: String, c: char|
        #![trigger call_ensures(normalize_listen_addr, (a,), x), call_ensures(normalize_listen_addr, (b,), y), crate::laws::texts::is_white(c)]
        call_ensures(normalize_listen_addr, (a,), x) && call_ensures(
            normalize_listen_addr,
            (b,),
            y,
        ) && crate::laws::texts::is_white(c) && (b@ == seq![c] + a@ || b@ == a@ + seq![c]) implies x@
        == y@ by {
        crate::laws::texts::white_is_space(c);
        leading_space(a@, c);
        trailing_space(a@, c);
    }
}

// --- frames -----------------------------------------------------------------

/// Law: a message is framed by its length in four bytes, and comes back from its
/// frame; one that is longer than a megabyte is turned down.
pub proof fn frames_carry_messages()
    ensures
        forall|body: &[u8], r: Vec<u8>| #[trigger]
            call_ensures(frame_message, (body,), r) && body@.len() <= u32::MAX ==> {
                &&& r@.len() == 4 + body@.len()
                &&& number_at(r@, 0, 4) == body@.len()
                &&& r@.skip(4) == body@
            },
        forall|prefix: &[u8], r: Result<usize, IoError>| #[trigger]
            call_ensures(message_len, (prefix,), r) && prefix@.len() == 4 ==> {
                let n = number_of(prefix@);
                &&& r is Ok <==> n <= 1_048_576
                &&& r is Ok ==> r->Ok_0 == n
                &&& r is Err ==> r->Err_0.kind == IoKind::Malformed && r->Err_0.message@
                    == "control message too large: "@ + crate::text::dec(n as nat)
            },
        forall|body: &[u8], f: Vec<u8>, prefix: &[u8], r: Result<usize, IoError>|
            #![trigger call_ensures(frame_message, (body,), f), call_ensures(message_len, (prefix,), r)]
            call_ensures(frame_message, (body,), f) && call_ensures(message_len, (prefix,), r)
                && prefix@ == f@.take(4) && body@.len() <= 1_048_576 ==> r is Ok && r->Ok_0
                == body@.len(),
{
    assert forall|body: &[u8], r: Vec<u8>| #[trigger]
        call_ensures(frame_message, (body,), r) && body@.len() <= u32::MAX implies {
        &&& r@.len() == 4 + body@.len()
        &&& number_at(r@, 0, 4) == body@.len()
        &&& r@.skip(4) == body@
    } by {
        crate::control::frame_round_trip(body@);
        crate::laws::wire::short_number_at(r@, 0);
    }
    assert forall|prefix: &[u8], r: Result<usize, IoError>| #[trigger]
        call_ensures(message_len, (prefix,), r) && prefix@.len() == 4 implies {
        let n = number_of(prefix@);
        &&& r is Ok <==> n <= 1_048_576
        &&& r is Ok ==> r->Ok_0 == n
        &&& r is Err ==> r->Err_0.kind == IoKind::Malformed && r->Err_0.message@
            == "control message too large: "@ + crate::text::dec(n as nat)
    } by {
        crate::laws::wire::short_number_at(prefix@, 0);
        assert(prefix@.subrange(0, 4) =~= prefix@);
    }
    assert forall|body: &[u8], f: Vec<u8>, prefix: &[u8], r: Result<usize, IoError>|
        #![trigger call_ensures(frame_message, (body,), f), call_ensures(message_len, (prefix,), r)]
        call_ensures(frame_message, (body,), f) && call_ensures(message_len, (prefix,), r)
            && prefix@ == f@.take(4) && body@.len() <= 1_048_576 implies r is Ok && r->Ok_0
        == body@.len() by {
        crate::control::frame_round_trip(body@);
    }
}

/// Law: byte strings come back from the texts that stand for them in messages, and
/// one that is absent stays absent.
pub proof fn byte_strings_come_back()
    ensures
        forall|v: &Option<Vec<u8>>, s: Option<String>, r: Result<Option<Vec<u8>>, String>|
            #![trigger call_ensures(encode_bytes, (v,), s), call_ensures(decode_bytes, (&s,), r)]
            call_ensures(encode_bytes, (v,), s) && call_ensures(decode_bytes, (&s,), r) ==> {
                &&& r is Ok
                &&& r->Ok_0 is Some <==> *v is Some
                &&& *v is Some ==> r->Ok_0->Some_0@ == (*v)->Some_0@
            },
        forall|v: &Option<Vec<u8>>, r: &[u8]| #[trigger]
            call_ensures(slice_or_empty, (v,), r) ==> {
                &&& *v is None ==> r@.len() == 0
                &&& *v is Some ==> r@ == (*v)->Some_0@
            },
{
}

// --- settings ---------------------------------------------------------------

/// Law: the settings of a transfer that was given none, and the rate that settings
/// amount to: fixed unless adaptive is asked for, at the given target, below the
/// settings' ceiling.
pub proof fn settings_amount_to_rates()
    ensures
        forall|p: TransferParams| #[trigger]
            call_ensures(default_params, (), p) ==> p.block_size == 1400 && p.rate_bps
                == 100_000_000 && p.max_bps == 10_000_000_000 && !p.adaptive && p.alpha_bps
                == 30_000_000 && p.read_workers == 0 && p.feedback_interval_us == 5000
                && p.net_tick_interval_us == 10000 && p.report_interval_ms == 1000 && !p.verbose
                && !p.encrypt,
        forall|p: &TransferParams, target: u64, r: RateConfig| #[trigger]
            call_ensures(TransferParams::rate_config, (p, target), r) ==> {
                &&& r.mode == RateMode::Adaptive <==> p.adaptive
                &&& r.target_bps == target
                &&& r.min_bps == 0
                &&& r.max_bps == p.max_bps
                &&& r.alpha == p.alpha_bps
            },
{
}

} // verus!
