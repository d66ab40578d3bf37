//! What holds of numbers as text and of searches in text.

use crate::text::{
    chars_of, contains, contains_char, decimal, decimal_signed, hex8, joined, joined4,
    position_after_last, position_of_first, same, string_between, string_of, to_lower, trim,
};
use vstd::prelude::*;

verus! {

// --- numbers ----------------------------------------------------------------

/// The value of a digit, in bases up to sixteen.
pub open spec fn digit_value(c: char) -> int {
    if '0' <= c && c <= '9' {
        c as int - '0' as int
    } else {
        c as int - 'a' as int + 10
    }
}

/// Whether a character is a digit of a base, in small letters.
pub open spec fn is_digit(c: char, base: int) -> bool {
    (('0' <= c && c <= '9') || ('a' <= c && c <= 'f')) && digit_value(c) < base
}

/// Whether every character is a digit of a base.
pub open spec fn are_digits(s: Seq<char>, base: int) -> bool {
    forall|i: int| 0 <= i < s.len() ==> is_digit(#[trigger] s[i], base)
}

/// The number that digits stand for, the most significant first.
pub open spec fn value(s: Seq<char>, base: int) -> int
    decreases s.len(),
{
    if s.len() == 0 {
        0
    } else {
        base * value(s.drop_last(), base) + digit_value(s.last())
    }
}

proof fn one_digit(d: int)
    requires
        0 <= d < 10,
    ensures
        digit_value(crate::text::digit(d)) == d,
        is_digit(crate::text::digit(d), 10),
        d > 0 ==> crate::text::digit(d) != '0',
{
    let c = (48 + d) as u8;
    assert(c as char as int == c as int);
}

proof fn one_hex_digit(d: int)
    requires
        0 <= d < 16,
    ensures
        digit_value(crate::text::hex_digit(d)) == d,
        is_digit(crate::text::hex_digit(d), 16),
{
    if d < 10 {
        let c = (48 + d) as u8;
        assert(c as char as int == c as int);
    } else {
        let c = (87 + d) as u8;
        assert(c as char as int == c as int);
    }
}

proof fn decimal_has_value(n: nat)
    ensures
        are_digits(crate::text::dec(n), 10),
        value(crate::text::dec(n), 10) == n,
        crate::text::dec(n).len() > 0,
        crate::text::dec(n).len() > 1 ==> crate::text::dec(n)[0] != '0',
        n > 0 ==> crate::text::dec(n)[0] != '0',
    decreases n,
{
    let s = crate::text::dec(n);
    one_digit((n % 10) as int);
    if n < 10 {
        one_digit(n as int);
        assert(s.drop_last() =~= Seq::<char>::empty());
        assert(value(s.drop_last(), 10) == 0);
    } else {
        decimal_has_value(n / 10);
        assert(s.drop_last() =~= crate::text::dec(n / 10));
        assert(s[0] == crate::text::dec(n / 10)[0]);
    }
}

proof fn hex_has_value(n: nat, k: nat)
    ensures
        crate::text::hex(n, k).len() == k,
        are_digits(crate::text::hex(n, k), 16),
        k == 0 ==> value(crate::text::hex(n, k), 16) == 0,
        k > 0 ==> value(crate::text::hex(n, k), 16) == 16 * value(
            crate::text::hex(n / 16, (k - 1) as nat),
            16,
        ) + (n % 16) as int,
    decreases k,
{
    let s = crate::text::hex(n, k);
    if k > 0 {
        hex_has_value(n / 16, (k - 1) as nat);
        one_hex_digit((n % 16) as int);
        assert(s.drop_last() =~= crate::text::hex(n / 16, (k - 1) as nat));
        assert(s.last() == crate::text::hex_digit((n % 16) as int));
    }
}

proof fn hex8_has_value(n: nat)
    requires
        n < 0x1_0000_0000,
    ensures
        value(crate::text::hex(n, 8), 16) == n,
{
    let n1 = n / 16;
    let n2 = n1 / 16;
    let n3 = n2 / 16;
    let n4 = n3 / 16;
    let n5 = n4 / 16;
    let n6 = n5 / 16;
    let n7 = n6 / 16;
    hex_has_value(n, 8);
    hex_has_value(n1, 7);
    hex_has_value(n2, 6);
    hex_has_value(n3, 5);
    hex_has_value(n4, 4);
    hex_has_value(n5, 3);
    hex_has_value(n6, 2);
    hex_has_value(n7, 1);
    hex_has_value(n7 / 16, 0);
}

/// Law: a number is told in digits that stand for it: in decimal without leading
/// zeros, with a sign where it is negative, or in eight hexadecimal digits.
pub proof fn numbers_are_told()
    ensures
        forall|n: u64, r: String| #[trigger]
            call_ensures(decimal, (n,), r) ==> {
                &&& are_digits(r@, 10)
                &&& value(r@, 10) == n
                &&& r@.len() > 0
                &&& n > 0 ==> r@[0] != '0'
                &&& n == 0 ==> r@.len() == 1
            },
        forall|n: i64, r: String| #[trigger]
            call_ensures(decimal_signed, (n,), r) ==> {
                &&& n >= 0 ==> are_digits(r@, 10) && value(r@, 10) == n
                &&& n < 0 ==> r@.len() > 1 && r@[0] == '-' && are_digits(r@.skip(1), 10) && value(
                    r@.skip(1),
                    10,
                ) == -n
            },
        forall|n: u32, r: String| #[trigger]
            call_ensures(hex8, (n,), r) ==> r@.len() == 8 && are_digits(r@, 16) && value(r@, 16)
                == n,
{
    assert forall|n: u64, r: String| #[trigger] call_ensures(decimal, (n,), r) implies {
        &&& are_digits(r@, 10)
        &&& value(r@, 10) == n
        &&& r@.len() > 0
        &&& n > 0 ==> r@[0] != '0'
        &&& n == 0 ==> r@.len() == 1
    } by {
        decimal_has_value(n as nat);
    }
    assert forall|n: i64, r: String| #[trigger] call_ensures(decimal_signed, (n,), r) implies {
        &&& n >= 0 ==> are_digits(r@, 10) && value(r@, 10) == n
        &&& n < 0 ==> r@.len() > 1 && r@[0] == '-' && are_digits(r@.skip(1), 10) && value(
            r@.skip(1),
            10,
        ) == -n
    } by {
        if n >= 0 {
            decimal_has_value(n as nat);
        } else {
            decimal_has_value((-n) as nat);
            assert(r@.skip(1) =~= crate::text::dec((-n) as nat));
        }
    }
    assert forall|n: u32, r: String| #[trigger] call_ensures(hex8, (n,), r) implies r@.len() == 8
        && are_digits(r@, 16) && value(r@, 16) == n by {
        hex_has_value(n as nat, 8);
        hex8_has_value(n as nat);
    }
}

// --- searches ---------------------------------------------------------------

/// Law: two texts are the same exactly where they have the same characters, and
/// texts are put together and cut out character by character.
pub proof fn texts_are_their_characters()
    ensures
        forall|a: &str, b: &str, r: bool| #[trigger]
            call_ensures(same, (a, b), r) ==> (r <==> a@ == b@),
        forall|s: &str, r: Vec<char>| #[trigger] call_ensures(chars_of, (s,), r) ==> r@ == s@,
        forall|s: &[char], r: String| #[trigger] call_ensures(string_of, (s,), r) ==> r@ == s@,
        forall|s: &[char], from: usize, to: usize, r: String| #[trigger]
            call_ensures(string_between, (s, from, to), r) && from <= to <= s@.len() ==> r@.len()
                == to - from && forall|i: int|
                0 <= i < to - from ==> #[trigger] r@[i] == s@[from + i],
        forall|a: &str, b: &str, r: String| #[trigger]
            call_ensures(joined, (a, b), r) ==> r@ == a@ + b@,
        forall|a: &str, b: &str, c: &str, d: &str, r: String| #[trigger]
            call_ensures(joined4, (a, b, c, d), r) ==> r@ == a@ + b@ + c@ + d@,
{
}

/// Law: a search finds what is there. A character is found at its first or behind
/// its last place; a text is found exactly where it stands somewhere.
pub proof fn searches_find_what_is_there()
    ensures
        forall|s: &[char], c: char, r: bool| #[trigger]
            call_ensures(contains_char, (s, c), r) ==> (r <==> exists|i: int|
                0 <= i < s@.len() && #[trigger] s@[i] == c),
        forall|s: &[char], c: char, r: usize| #[trigger]
            call_ensures(position_of_first, (s, c), r) ==> {
                &&& r <= s@.len()
                &&& r < s@.len() ==> s@[r as int] == c
                &&& forall|i: int| 0 <= i < r ==> #[trigger] s@[i] != c
            },
        forall|s: &[char], c: char, r: usize| #[trigger]
            call_ensures(position_after_last, (s, c), r) ==> {
                &&& r <= s@.len()
                &&& r > 0 ==> s@[r - 1] == c
                &&& forall|i: int| r <= i < s@.len() ==> #[trigger] s@[i] != c
            },
        forall|s: &[char], needle: &str, r: bool| #[trigger]
            call_ensures(contains, (s, needle), r) ==> (r <==> exists|i: int|
                0 <= i && i + needle@.len() <= s@.len() && needle@ == #[trigger] s@.subrange(
                    i,
                    i + needle@.len(),
                )),
        forall|s: &str, r: Vec<char>| #[trigger]
            call_ensures(to_lower, (s,), r) ==> r@.len() == s@.len() && forall|i: int|
                0 <= i < s@.len() ==> #[trigger] r@[i] == crate::laws::reporting::small(s@[i]),
{
    assert forall|s: &[char], c: char, r: usize| #[trigger]
        call_ensures(position_after_last, (s, c), r) implies {
        &&& r <= s@.len()
        &&& r > 0 ==> s@[r - 1] == c
        &&& forall|i: int| r <= i < s@.len() ==> #[trigger] s@[i] != c
    } by {
        crate::transfer::after_last_is_last(s@, c);
    }
    assert forall|s: &[char], needle: &str, r: bool| #[trigger]
        call_ensures(contains, (s, needle), r) implies (r <==> exists|i: int|
        0 <= i && i + needle@.len() <= s@.len() && needle@ == #[trigger] s@.subrange(
            i,
            i + needle@.len(),
        )) by {
        if r {
            let i = choose|i: int| crate::text::stands_at(s@, needle@, i);
            assert(needle@ == s@.subrange(i, i + needle@.len()));
        }
        if exists|i: int|
            0 <= i && i + needle@.len() <= s@.len() && needle@ == #[trigger] s@.subrange(
                i,
                i + needle@.len(),
            ) {
            let i = choose|i: int|
                0 <= i && i + needle@.len() <= s@.len() && needle@ == #[trigger] s@.subrange(
                    i,
                    i + needle@.len(),
                );
            assert(crate::text::stands_at(s@, needle@, i));
        }
    }
}

proof fn start_is_trimmed(s: Seq<char>)
    ensures
        ({
            let t = crate::text::trimmed_start(s);
            let k = s.len() - t.len();
            &&& 0 <= k
            &&& t == s.skip(k)
            &&& forall|i: int| 0 <= i < k ==> crate::text::is_space(#[trigger] s[i])
            &&& t.len() > 0 ==> !crate::text::is_space(t[0])
        }),
    decreases s.len(),
{
    if s.len() > 0 && crate::text::is_space(s[0]) {
        let rest = s.drop_first();
        start_is_trimmed(rest);
        let t = crate::text::trimmed_start(s);
        let k = s.len() - t.len();
        assert(rest.skip(k - 1) =~= s.skip(k));
        assert forall|i: int| 0 <= i < k implies crate::text::is_space(#[trigger] s[i]) by {
            if i > 0 {
                assert(rest[i - 1] == s[i]);
            }
        }
    } else {
        assert(s.skip(0) =~= s);
    }
}

proof fn end_is_trimmed(s: Seq<char>)
    ensures
        ({
            let t = crate::text::trimmed_end(s);
            let k = t.len() as int;
            &&& k <= s.len()
            &&& t == s.take(k)
            &&& forall|i: int| k <= i < s.len() ==> crate::text::is_space(#[trigger] s[i])
            &&& k > 0 ==> !crate::text::is_space(t.last())
        }),
    decreases s.len(),
{
    if s.len() > 0 && crate::text::is_space(s.last()) {
        let rest = s.drop_last();
        end_is_trimmed(rest);
        let k = crate::text::trimmed_end(s).len() as int;
        assert(rest.take(k) =~= s.take(k));
        assert forall|i: int| k <= i < s.len() implies crate::text::is_space(#[trigger] s[i]) by {
            if i < s.len() - 1 {
                assert(rest[i] == s[i]);
            }
        }
    } else {
        assert(s.take(s.len() as int) =~= s);
    }
}

/// Whether a character is one of Unicode's white space.
pub open spec fn is_white(c: char) -> bool {
    let n = c as u32;
    ||| 0x9 <= n <= 0xd
    ||| n == 0x20
    ||| n == 0x85
    ||| n == 0xa0
    ||| n == 0x1680
    ||| 0x2000 <= n <= 0x200a
    ||| n == 0x2028
    ||| n == 0x2029
    ||| n == 0x202f
    ||| n == 0x205f
    ||| n == 0x3000
}

/// A character is trimmed exactly where it is white space.
pub proof fn white_is_space(c: char)
    ensures
        crate::text::is_space(c) == is_white(c),
{
}

/// Whether `t` is the part of `s` between `from` and `to`, and all that was left
/// out is white space.
pub open spec fn is_trimmed(s: Seq<char>, t: Seq<char>, from: int, to: int) -> bool {
    &&& 0 <= from <= to <= s.len()
    &&& t == s.subrange(from, to)
    &&& forall|i: int|
        0 <= i < from || to <= i < s.len() ==> is_white(#[trigger] s[i])
    &&& t.len() > 0 ==> !is_white(t[0]) && !is_white(t.last())
}

/// Law: trimming takes off the white space at both ends and nothing else.
pub proof fn trimming_takes_white_space_off()
    ensures
        forall|s: &str, r: Vec<char>| #[trigger]
            call_ensures(trim, (s,), r) ==> exists|from: int, to: int| #[trigger]
                is_trimmed(s@, r@, from, to),
{
    assert forall|s: &str, r: Vec<char>| #[trigger] call_ensures(trim, (s,), r) implies (exists|
        from: int,
        to: int,
    | #[trigger]
        is_trimmed(s@, r@, from, to)) by {
        let mid = crate::text::trimmed_start(s@);
        assert forall|c: char| #[trigger] crate::text::is_space(c) == is_white(c) by {
            white_is_space(c);
        }
        start_is_trimmed(s@);
        end_is_trimmed(mid);
        let from = s@.len() - mid.len();
        let to = from + r@.len();
        assert(r@ =~= s@.subrange(from, to));
        assert forall|i: int| 0 <= i < from || to <= i < s@.len() implies is_white(
            #[trigger] s@[i],
        ) by {
            if i >= to {
                assert(mid[i - from] == s@[i]);
            }
        }
        if r@.len() > 0 {
            assert(r@[0] == mid[0]);
        }
        assert(is_trimmed(s@, r@, from, to));
    }
}

} // verus!
