//! The durable text format of the task list: a JSON-style rendering with
//! a strict parser, proved to read back exactly what was written. Values
//! are rendered with no surrounding whitespace; strings are quoted with
//! `"`, `\` and control characters escaped; every composite is a bracketed
//! list whose first element tags its kind.

use vstd::prelude::*;
use crate::condition::{DateCondition, TimeOfDay};

verus! {

// ---------------------------------------------------------------------
// characters and digits
// ---------------------------------------------------------------------

/// Whether `c` is a decimal digit.
pub open spec fn spec_is_digit(c: char) -> bool {
    48 <= c as u32 <= 57
}

/// The numeric value of a decimal digit.
pub open spec fn spec_digit_val(c: char) -> int {
    c as u32 - 48
}

/// The decimal digit character for `d`, meaningful for `0 <= d <= 9`.
pub open spec fn spec_digit_char(d: int) -> char {
    if d == 0 { '0' }
    else if d == 1 { '1' }
    else if d == 2 { '2' }
    else if d == 3 { '3' }
    else if d == 4 { '4' }
    else if d == 5 { '5' }
    else if d == 6 { '6' }
    else if d == 7 { '7' }
    else if d == 8 { '8' }
    else { '9' }
}

/// The hexadecimal digit character for `d`, meaningful for `0 <= d <= 15`.
pub open spec fn spec_hex_char(d: int) -> char {
    if d < 10 { spec_digit_char(d) }
    else if d == 10 { 'a' }
    else if d == 11 { 'b' }
    else if d == 12 { 'c' }
    else if d == 13 { 'd' }
    else if d == 14 { 'e' }
    else { 'f' }
}

/// The value of a hexadecimal digit character, or `None`.
pub open spec fn spec_hex_val(c: char) -> Option<int> {
    if spec_is_digit(c) { Some(spec_digit_val(c)) }
    else if c == 'a' { Some(10int) }
    else if c == 'b' { Some(11int) }
    else if c == 'c' { Some(12int) }
    else if c == 'd' { Some(13int) }
    else if c == 'e' { Some(14int) }
    else if c == 'f' { Some(15int) }
    else { None }
}

proof fn lemma_digit_char_val(d: int)
    requires
        0 <= d <= 9,
    ensures
        spec_is_digit(spec_digit_char(d)),
        spec_digit_val(spec_digit_char(d)) == d,
{
}

proof fn lemma_hex_char_val(d: int)
    requires
        0 <= d <= 15,
    ensures
        spec_hex_val(spec_hex_char(d)) == Some(d),
{
}

// ---------------------------------------------------------------------
// spec-level rendering of the primitives
// ---------------------------------------------------------------------

/// The canonical decimal rendering of `n`: most significant digit first,
/// no leading zeros.
pub open spec fn spec_render_u64(n: int) -> Seq<char>
    decreases n,
{
    if n < 10 {
        seq![spec_digit_char(n)]
    } else {
        spec_render_u64(n / 10).push(spec_digit_char(n % 10))
    }
}

/// The decimal rendering of a signed count of seconds.
pub open spec fn spec_render_i64(n: int) -> Seq<char> {
    if n < 0 {
        seq!['-'] + spec_render_u64(-n)
    } else {
        spec_render_u64(n)
    }
}

/// `true` or `false`.
pub open spec fn spec_render_bool(b: bool) -> Seq<char> {
    if b {
        seq!['t', 'r', 'u', 'e']
    } else {
        seq!['f', 'a', 'l', 's', 'e']
    }
}

/// The escaped form of one string character: quote and backslash get a
/// backslash, any other control character becomes `\u00` and two hex
/// digits, and everything else stands for itself.
pub open spec fn spec_esc_char(c: char) -> Seq<char> {
    if c == '"' {
        seq!['\\', '"']
    } else if c == '\\' {
        seq!['\\', '\\']
    } else if (c as u32) < 32 {
        seq!['\\', 'u', '0', '0', spec_hex_char(c as u32 as int / 16), spec_hex_char(c as u32 as int % 16)]
    } else {
        seq![c]
    }
}

/// The escaped body of a string.
pub open spec fn spec_esc(t: Seq<char>) -> Seq<char>
    decreases t.len(),
{
    if t.len() == 0 {
        Seq::empty()
    } else {
        spec_esc_char(t[0]) + spec_esc(t.drop_first())
    }
}

/// A quoted, escaped string.
pub open spec fn spec_render_string(t: Seq<char>) -> Seq<char> {
    seq!['"'] + spec_esc(t) + seq!['"']
}

// ---------------------------------------------------------------------
// spec-level parsing of the primitives
// ---------------------------------------------------------------------
//
// Every parser takes the text still to be read and returns the parsed
// value together with the remainder, or `None` when the text does not
// start with a well-formed value.

/// Consume one expected character.
pub open spec fn spec_parse_char(s: Seq<char>, c: char) -> Option<Seq<char>> {
    if s.len() > 0 && s[0] == c {
        Some(s.drop_first())
    } else {
        None
    }
}

/// Consume decimal digits into `acc`, rejecting values above `u64::MAX`.
pub open spec fn spec_parse_u64_digits(s: Seq<char>, acc: int) -> Option<(int, Seq<char>)>
    decreases s.len(),
{
    if s.len() > 0 && spec_is_digit(s[0]) {
        if acc * 10 + spec_digit_val(s[0]) > u64::MAX as int {
            None
        } else {
            spec_parse_u64_digits(s.drop_first(), acc * 10 + spec_digit_val(s[0]))
        }
    } else {
        Some((acc, s))
    }
}

/// Parse an unsigned decimal number: at least one digit, value within
/// `u64`.
pub open spec fn spec_parse_u64(s: Seq<char>) -> Option<(int, Seq<char>)> {
    if s.len() > 0 && spec_is_digit(s[0]) {
        spec_parse_u64_digits(s, 0)
    } else {
        None
    }
}

/// Parse a signed decimal count of seconds, value within `i64`.
pub open spec fn spec_parse_i64(s: Seq<char>) -> Option<(int, Seq<char>)> {
    if s.len() > 0 && s[0] == '-' {
        match spec_parse_u64(s.drop_first()) {
            Some((m, rem)) => if m <= -(i64::MIN as int) {
                Some((-m, rem))
            } else {
                None
            },
            None => None,
        }
    } else {
        match spec_parse_u64(s) {
            Some((m, rem)) => if m <= i64::MAX as int {
                Some((m, rem))
            } else {
                None
            },
            None => None,
        }
    }
}

/// Parse `true` or `false`.
pub open spec fn spec_parse_bool(s: Seq<char>) -> Option<(bool, Seq<char>)> {
    if s.len() >= 4 && s.take(4) == seq!['t', 'r', 'u', 'e'] {
        Some((true, s.skip(4)))
    } else if s.len() >= 5 && s.take(5) == seq!['f', 'a', 'l', 's', 'e'] {
        Some((false, s.skip(5)))
    } else {
        None
    }
}

/// Decode one escape sequence, starting at the backslash.
pub open spec fn spec_parse_escape(s: Seq<char>) -> Option<(char, Seq<char>)> {
    if s.len() >= 2 && s[0] == '\\' {
        if s[1] == '"' {
            Some(('"', s.skip(2)))
        } else if s[1] == '\\' {
            Some(('\\', s.skip(2)))
        } else if s[1] == 'u' && s.len() >= 6 {
            match (spec_hex_val(s[2]), spec_hex_val(s[3]), spec_hex_val(s[4]), spec_hex_val(s[5])) {
                (Some(a), Some(b), Some(c), Some(d)) => {
                    let v = a * 4096 + b * 256 + c * 16 + d;
                    if v < 32 {
                        Some(((v as u8) as char, s.skip(6)))
                    } else {
                        None
                    }
                },
                _ => None,
            }
        } else {
            None
        }
    } else {
        None
    }
}

/// Parse the body of a string after the opening quote, up to and
/// including the closing quote.
pub open spec fn spec_parse_str_body(s: Seq<char>) -> Option<(Seq<char>, Seq<char>)>
    decreases s.len(),
{
    if s.len() == 0 {
        None
    } else if s[0] == '"' {
        Some((Seq::empty(), s.drop_first()))
    } else if s[0] == '\\' {
        match spec_parse_escape(s) {
            Some((c, rem)) => if rem.len() < s.len() {
                match spec_parse_str_body(rem) {
                    Some((t, rem2)) => Some((seq![c] + t, rem2)),
                    None => None,
                }
            } else {
                None
            },
            None => None,
        }
    } else {
        match spec_parse_str_body(s.drop_first()) {
            Some((t, rem)) => Some((seq![s[0]] + t, rem)),
            None => None,
        }
    }
}

/// Parse a quoted string.
pub open spec fn spec_parse_string(s: Seq<char>) -> Option<(Seq<char>, Seq<char>)> {
    if s.len() > 0 && s[0] == '"' {
        spec_parse_str_body(s.drop_first())
    } else {
        None
    }
}

// ---------------------------------------------------------------------
// round trips of the primitives
// ---------------------------------------------------------------------

/// How many digits the canonical rendering of `n` has.
pub open spec fn spec_num_digits(n: int) -> nat
    decreases n,
{
    if n < 10 {
        1
    } else {
        1 + spec_num_digits(n / 10)
    }
}

/// Ten to the `k`.
pub open spec fn spec_pow10(k: nat) -> int
    decreases k,
{
    if k == 0 {
        1
    } else {
        10 * spec_pow10((k - 1) as nat)
    }
}

proof fn lemma_parse_render_u64_digits(n: int, acc: int, rest: Seq<char>)
    requires
        0 <= n,
        0 <= acc,
        acc * spec_pow10(spec_num_digits(n)) + n <= u64::MAX as int,
    ensures
        spec_parse_u64_digits(spec_render_u64(n) + rest, acc) == spec_parse_u64_digits(
            rest,
            acc * spec_pow10(spec_num_digits(n)) + n,
        ),
    decreases n,
{
    let p = spec_pow10(spec_num_digits(n));
    if n < 10 {
        lemma_digit_char_val(n);
        let s = spec_render_u64(n) + rest;
        assert(s[0] == spec_digit_char(n));
        assert(spec_num_digits(n) == 1);
        assert(spec_pow10(1) == 10 * spec_pow10(0));
        assert(spec_pow10(0) == 1);
        assert(p == 10);
        assert(s.drop_first() =~= rest);
        assert(acc * 10 + n <= u64::MAX as int);
        assert(spec_parse_u64_digits(s, acc) == spec_parse_u64_digits(rest, acc * 10 + n));
    } else {
        let hi = n / 10;
        let lo = n % 10;
        let ph = spec_pow10(spec_num_digits(hi));
        assert(spec_num_digits(n) == 1 + spec_num_digits(hi));
        assert(p == 10 * ph);
        assert(n == hi * 10 + lo && 0 <= lo < 10 && 1 <= hi) by (nonlinear_arith)
            requires n >= 10 && hi == n / 10 && lo == n % 10 {}
        assert(ph >= 1) by {
            lemma_pow10_pos(spec_num_digits(hi));
        }
        let acc2 = acc * ph + hi;
        assert(acc2 * 10 + lo == acc * p + n) by (nonlinear_arith)
            requires acc2 == acc * ph + hi, p == 10 * ph, n == hi * 10 + lo {}
        assert(0 <= acc2) by (nonlinear_arith)
            requires acc2 == acc * ph + hi, 0 <= acc, 0 <= hi, ph >= 1 {}
        assert(acc2 * 10 <= acc2 * 10 + lo);
        assert(acc * ph + hi <= u64::MAX as int) by (nonlinear_arith)
            requires acc2 == acc * ph + hi, acc2 * 10 + lo <= u64::MAX as int, 0 <= acc2, 0 <= lo {}
        let tail = seq![spec_digit_char(lo)] + rest;
        assert(spec_render_u64(n) + rest =~= spec_render_u64(hi) + tail);
        lemma_parse_render_u64_digits(hi, acc, tail);
        lemma_digit_char_val(lo);
        assert(tail[0] == spec_digit_char(lo));
        assert(tail.drop_first() =~= rest);
        assert(spec_parse_u64_digits(tail, acc2) == spec_parse_u64_digits(rest, acc2 * 10 + lo));
    }
}

proof fn lemma_pow10_pos(k: nat)
    ensures
        spec_pow10(k) >= 1,
    decreases k,
{
    if k > 0 {
        lemma_pow10_pos((k - 1) as nat);
    }
}

/// The first character of a rendered number is a digit.
proof fn lemma_render_u64_first_digit(n: int)
    requires
        0 <= n,
    ensures
        spec_render_u64(n).len() >= 1,
        spec_is_digit(spec_render_u64(n)[0]),
    decreases n,
{
    if n < 10 {
        lemma_digit_char_val(n);
    } else {
        lemma_render_u64_first_digit(n / 10);
    }
}

/// An unsigned number reads back as itself when what follows starts with
/// no digit.
pub proof fn lemma_rt_u64(n: int, rest: Seq<char>)
    requires
        0 <= n <= u64::MAX as int,
        rest.len() == 0 || !spec_is_digit(rest[0]),
    ensures
        spec_parse_u64(spec_render_u64(n) + rest) == Some((n, rest)),
{
    lemma_render_u64_first_digit(n);
    let s = spec_render_u64(n) + rest;
    assert(s[0] == spec_render_u64(n)[0]);
    lemma_parse_render_u64_digits(n, 0, rest);
    assert(spec_parse_u64_digits(rest, n) == Some((n, rest)));
}

/// A signed number reads back as itself when what follows starts with no
/// digit.
pub proof fn lemma_rt_i64(n: int, rest: Seq<char>)
    requires
        i64::MIN as int <= n <= i64::MAX as int,
        rest.len() == 0 || !spec_is_digit(rest[0]),
    ensures
        spec_parse_i64(spec_render_i64(n) + rest) == Some((n, rest)),
{
    if n < 0 {
        let s = spec_render_i64(n) + rest;
        assert(s[0] == '-');
        lemma_render_u64_first_digit(-n);
        assert(s.drop_first() =~= spec_render_u64(-n) + rest);
        lemma_rt_u64(-n, rest);
    } else {
        let s = spec_render_u64(n) + rest;
        lemma_render_u64_first_digit(n);
        assert(s[0] == spec_render_u64(n)[0]);
        lemma_rt_u64(n, rest);
    }
}

/// A boolean reads back as itself.
pub proof fn lemma_rt_bool(b: bool, rest: Seq<char>)
    ensures
        spec_parse_bool(spec_render_bool(b) + rest) == Some((b, rest)),
{
    let s = spec_render_bool(b) + rest;
    if b {
        assert(s.take(4) =~= seq!['t', 'r', 'u', 'e']);
        assert(s.skip(4) =~= rest);
    } else {
        assert(s.take(5) =~= seq!['f', 'a', 'l', 's', 'e']);
        assert(s.take(4)[0] == 'f');
        assert(!(s.take(4) == seq!['t', 'r', 'u', 'e'])) by {
            assert(seq!['t', 'r', 'u', 'e'][0] == 't');
        }
        assert(s.skip(5) =~= rest);
    }
}

/// One escaped character reads back as itself, leaving the rest.
proof fn lemma_rt_esc_char(c: char, rest: Seq<char>)
    ensures
        ({
            let s = spec_esc_char(c) + rest;
            if c == '"' || c == '\\' || (c as u32) < 32 {
                s.len() > 0 && s[0] == '\\' && spec_parse_escape(s) == Some((c, rest))
            } else {
                s.len() > 0 && s[0] == c
            }
        }),
{
    let s = spec_esc_char(c) + rest;
    if c == '"' {
        assert(s.skip(2) =~= rest);
    } else if c == '\\' {
        assert(s.skip(2) =~= rest);
    } else if (c as u32) < 32 {
        let v = c as u32 as int;
        lemma_hex_char_val(v / 16);
        lemma_hex_char_val(v % 16);
        assert(s.len() >= 6 && s[0] == '\\' && s[1] == 'u');
        assert(spec_hex_val(s[2]) == Some(0int));
        assert(spec_hex_val(s[3]) == Some(0int));
        assert(spec_hex_val(s[4]) == Some(v / 16));
        assert(spec_hex_val(s[5]) == Some(v % 16));
        assert((v / 16) * 16 + v % 16 == v);
        assert(0 * 4096 + 0 * 256 + (v / 16) * 16 + v % 16 == v);
        assert(((v as u8) as char) == c);
        assert(s.skip(6) =~= rest);
    }
}

/// A string body reads back as itself: escaping then parsing up to the
/// closing quote restores every character.
pub proof fn lemma_rt_str_body(t: Seq<char>, rest: Seq<char>)
    ensures
        spec_parse_str_body(spec_esc(t) + seq!['"'] + rest) == Some((t, rest)),
    decreases t.len(),
{
    let s = spec_esc(t) + seq!['"'] + rest;
    if t.len() == 0 {
        assert(s =~= seq!['"'] + rest);
        assert(s[0] == '"');
        assert(s.drop_first() =~= rest);
    } else {
        let c = t[0];
        let t2 = t.drop_first();
        let s2 = spec_esc(t2) + seq!['"'] + rest;
        assert(s =~= spec_esc_char(c) + s2);
        lemma_rt_esc_char(c, s2);
        lemma_rt_str_body(t2, rest);
        if c == '"' || c == '\\' || (c as u32) < 32 {
            assert(s[0] == '\\');
            assert(spec_parse_escape(s) == Some((c, s2)));
            assert(s2.len() < s.len());
            assert(seq![c] + t2 =~= t);
        } else {
            assert(s[0] == c);
            assert(!spec_is_digit('"') ==> true);
            assert(s[0] != '"' && s[0] != '\\');
            assert(s.drop_first() =~= s2);
            assert(seq![c] + t2 =~= t);
        }
    }
}

/// A quoted string reads back as itself.
pub proof fn lemma_rt_string(t: Seq<char>, rest: Seq<char>)
    ensures
        spec_parse_string(spec_render_string(t) + rest) == Some((t, rest)),
{
    let s = spec_render_string(t) + rest;
    assert(s[0] == '"');
    assert(s.drop_first() =~= spec_esc(t) + seq!['"'] + rest);
    lemma_rt_str_body(t, rest);
}

/// One expected character reads off the front.
proof fn lemma_rt_char(c: char, rest: Seq<char>)
    ensures
        spec_parse_char(seq![c] + rest, c) == Some(rest),
{
    assert((seq![c] + rest).drop_first() =~= rest);
}

// ---------------------------------------------------------------------
// small composites
// ---------------------------------------------------------------------

/// Parse an unsigned number bounded by `bound`.
pub open spec fn spec_parse_bounded(s: Seq<char>, bound: int) -> Option<(int, Seq<char>)> {
    match spec_parse_u64(s) {
        Some((v, rem)) => if v <= bound {
            Some((v, rem))
        } else {
            None
        },
        None => None,
    }
}

/// `null`, or the rendering the `Some` case carries.
pub open spec fn spec_render_opt_string(o: Option<Seq<char>>) -> Seq<char> {
    match o {
        None => seq!['n', 'u', 'l', 'l'],
        Some(t) => spec_render_string(t),
    }
}

/// Parse `null` or a quoted string.
pub open spec fn spec_parse_opt_string(s: Seq<char>) -> Option<(Option<Seq<char>>, Seq<char>)> {
    if s.len() >= 4 && s.take(4) == seq!['n', 'u', 'l', 'l'] {
        Some((None, s.skip(4)))
    } else {
        match spec_parse_string(s) {
            Some((t, rem)) => Some((Some(t), rem)),
            None => None,
        }
    }
}

/// An optional string reads back as itself.
pub proof fn lemma_rt_opt_string(o: Option<Seq<char>>, rest: Seq<char>)
    ensures
        spec_parse_opt_string(spec_render_opt_string(o) + rest) == Some((o, rest)),
{
    let s = spec_render_opt_string(o) + rest;
    match o {
        None => {
            assert(s.take(4) =~= seq!['n', 'u', 'l', 'l']);
            assert(s.skip(4) =~= rest);
        },
        Some(t) => {
            assert(s[0] == '"');
            if s.len() >= 4 && s.take(4) == seq!['n', 'u', 'l', 'l'] {
                assert(s.take(4)[0] == 'n');
                assert(false);
            }
            lemma_rt_string(t, rest);
        },
    }
}

/// A time of day as a bracketed triple of hour, minute and second.
pub open spec fn spec_render_tod(t: TimeOfDay) -> Seq<char> {
    seq!['['] + spec_render_u64(t.hour as int) + seq![','] + spec_render_u64(t.minute as int)
        + seq![','] + spec_render_u64(t.second as int) + seq![']']
}

/// Parse a time-of-day triple.
pub open spec fn spec_parse_tod(s: Seq<char>) -> Option<(TimeOfDay, Seq<char>)> {
    match spec_parse_char(s, '[') {
        None => None,
        Some(s1) => match spec_parse_bounded(s1, 255) {
            None => None,
            Some((h, s2)) => match spec_parse_char(s2, ',') {
                None => None,
                Some(s3) => match spec_parse_bounded(s3, 255) {
                    None => None,
                    Some((m, s4)) => match spec_parse_char(s4, ',') {
                        None => None,
                        Some(s5) => match spec_parse_bounded(s5, 255) {
                            None => None,
                            Some((sec, s6)) => match spec_parse_char(s6, ']') {
                                None => None,
                                Some(s7) => Some(
                                    (
                                        TimeOfDay {
                                            hour: h as u8,
                                            minute: m as u8,
                                            second: sec as u8,
                                        },
                                        s7,
                                    ),
                                ),
                            },
                        },
                    },
                },
            },
        },
    }
}

/// A bounded number reads back as itself.
proof fn lemma_rt_bounded(n: int, bound: int, rest: Seq<char>)
    requires
        0 <= n <= bound <= u64::MAX as int,
        rest.len() == 0 || !spec_is_digit(rest[0]),
    ensures
        spec_parse_bounded(spec_render_u64(n) + rest, bound) == Some((n, rest)),
{
    lemma_rt_u64(n, rest);
}

/// A time of day reads back as itself.
#[verifier::spinoff_prover]
#[verifier::rlimit(100)]
pub proof fn lemma_rt_tod(t: TimeOfDay, rest: Seq<char>)
    ensures
        spec_parse_tod(spec_render_tod(t) + rest) == Some((t, rest)),
{
    let s = spec_render_tod(t) + rest;
    let a1 = spec_render_u64(t.hour as int) + seq![','] + spec_render_u64(t.minute as int)
        + seq![','] + spec_render_u64(t.second as int) + seq![']'] + rest;
    assert(s =~= seq!['['] + a1);
    lemma_rt_char('[', a1);
    let a2 = seq![','] + spec_render_u64(t.minute as int) + seq![','] + spec_render_u64(
        t.second as int,
    ) + seq![']'] + rest;
    assert(a1 =~= spec_render_u64(t.hour as int) + a2);
    lemma_rt_bounded(t.hour as int, 255, a2);
    let a3 = spec_render_u64(t.minute as int) + seq![','] + spec_render_u64(t.second as int)
        + seq![']'] + rest;
    assert(a2 =~= seq![','] + a3);
    lemma_rt_char(',', a3);
    let a4 = seq![','] + spec_render_u64(t.second as int) + seq![']'] + rest;
    assert(a3 =~= spec_render_u64(t.minute as int) + a4);
    lemma_rt_bounded(t.minute as int, 255, a4);
    let a5 = spec_render_u64(t.second as int) + seq![']'] + rest;
    assert(a4 =~= seq![','] + a5);
    lemma_rt_char(',', a5);
    let a6 = seq![']'] + rest;
    assert(a5 =~= spec_render_u64(t.second as int) + a6);
    lemma_rt_bounded(t.second as int, 255, a6);
    lemma_rt_char(']', rest);
    assert(a6 =~= seq![']'] + rest);
}

/// `null` or a time of day.
pub open spec fn spec_render_opt_tod(o: Option<TimeOfDay>) -> Seq<char> {
    match o {
        None => seq!['n', 'u', 'l', 'l'],
        Some(t) => spec_render_tod(t),
    }
}

/// Parse `null` or a time of day.
pub open spec fn spec_parse_opt_tod(s: Seq<char>) -> Option<(Option<TimeOfDay>, Seq<char>)> {
    if s.len() >= 4 && s.take(4) == seq!['n', 'u', 'l', 'l'] {
        Some((None, s.skip(4)))
    } else {
        match spec_parse_tod(s) {
            Some((t, rem)) => Some((Some(t), rem)),
            None => None,
        }
    }
}

/// An optional time of day reads back as itself.
pub proof fn lemma_rt_opt_tod(o: Option<TimeOfDay>, rest: Seq<char>)
    ensures
        spec_parse_opt_tod(spec_render_opt_tod(o) + rest) == Some((o, rest)),
{
    let s = spec_render_opt_tod(o) + rest;
    match o {
        None => {
            assert(s.take(4) =~= seq!['n', 'u', 'l', 'l']);
            assert(s.skip(4) =~= rest);
        },
        Some(t) => {
            assert(s[0] == '[');
            if s.len() >= 4 && s.take(4) == seq!['n', 'u', 'l', 'l'] {
                assert(s.take(4)[0] == 'n');
                assert(false);
            }
            lemma_rt_tod(t, rest);
        },
    }
}

/// `null` or an unsigned number.
pub open spec fn spec_render_opt_num(o: Option<int>) -> Seq<char> {
    match o {
        None => seq!['n', 'u', 'l', 'l'],
        Some(v) => spec_render_u64(v),
    }
}

/// Parse `null` or an unsigned number bounded by `bound`.
pub open spec fn spec_parse_opt_num(s: Seq<char>, bound: int) -> Option<(Option<int>, Seq<char>)> {
    if s.len() >= 4 && s.take(4) == seq!['n', 'u', 'l', 'l'] {
        Some((None, s.skip(4)))
    } else {
        match spec_parse_bounded(s, bound) {
            Some((v, rem)) => Some((Some(v), rem)),
            None => None,
        }
    }
}

/// An optional bounded number reads back as itself.
pub proof fn lemma_rt_opt_num(o: Option<int>, bound: int, rest: Seq<char>)
    requires
        0 <= bound <= u64::MAX as int,
        match o {
            Some(v) => 0 <= v <= bound,
            None => true,
        },
        rest.len() == 0 || !spec_is_digit(rest[0]),
    ensures
        spec_parse_opt_num(spec_render_opt_num(o) + rest, bound) == Some((o, rest)),
{
    let s = spec_render_opt_num(o) + rest;
    match o {
        None => {
            assert(s.take(4) =~= seq!['n', 'u', 'l', 'l']);
            assert(s.skip(4) =~= rest);
        },
        Some(v) => {
            lemma_render_u64_first_digit(v);
            assert(s[0] == spec_render_u64(v)[0]);
            if s.len() >= 4 && s.take(4) == seq!['n', 'u', 'l', 'l'] {
                assert(s.take(4)[0] == 'n');
                assert(!spec_is_digit('n'));
                assert(false);
            }
            lemma_rt_bounded(v, bound, rest);
        },
    }
}

/// The numeric tail of a rendered condition: weekday, day of month and
/// month of year, each `null` when unset, then the closing bracket.
pub open spec fn spec_render_cond_nums(wd: Option<int>, dom: Option<int>, moy: Option<int>) -> Seq<
    char,
> {
    spec_render_opt_num(wd) + seq![','] + spec_render_opt_num(dom) + seq![',']
        + spec_render_opt_num(moy) + seq![']']
}

/// Parse the numeric tail of a condition.
pub open spec fn spec_parse_cond_nums(s: Seq<char>) -> Option<
    ((Option<int>, Option<int>, Option<int>), Seq<char>),
> {
    match spec_parse_opt_num(s, 255) {
        None => None,
        Some((wd, s1)) => match spec_parse_char(s1, ',') {
            None => None,
            Some(s2) => match spec_parse_opt_num(s2, u32::MAX as int) {
                None => None,
                Some((dom, s3)) => match spec_parse_char(s3, ',') {
                    None => None,
                    Some(s4) => match spec_parse_opt_num(s4, u32::MAX as int) {
                        None => None,
                        Some((moy, s5)) => match spec_parse_char(s5, ']') {
                            None => None,
                            Some(s6) => Some(((wd, dom, moy), s6)),
                        },
                    },
                },
            },
        },
    }
}

#[verifier::spinoff_prover]
#[verifier::rlimit(100)]
proof fn lemma_rt_cond_nums(wd: Option<int>, dom: Option<int>, moy: Option<int>, rest: Seq<char>)
    requires
        match wd {
            Some(v) => 0 <= v <= 255,
            None => true,
        },
        match dom {
            Some(v) => 0 <= v <= u32::MAX as int,
            None => true,
        },
        match moy {
            Some(v) => 0 <= v <= u32::MAX as int,
            None => true,
        },
    ensures
        spec_parse_cond_nums(spec_render_cond_nums(wd, dom, moy) + rest) == Some(
            ((wd, dom, moy), rest),
        ),
{
    let s = spec_render_cond_nums(wd, dom, moy) + rest;
    let a1 = seq![','] + spec_render_opt_num(dom) + seq![','] + spec_render_opt_num(moy)
        + seq![']'] + rest;
    assert(s =~= spec_render_opt_num(wd) + a1);
    lemma_rt_opt_num(wd, 255, a1);
    let a2 = spec_render_opt_num(dom) + seq![','] + spec_render_opt_num(moy) + seq![']'] + rest;
    assert(a1 =~= seq![','] + a2);
    lemma_rt_char(',', a2);
    let a3 = seq![','] + spec_render_opt_num(moy) + seq![']'] + rest;
    assert(a2 =~= spec_render_opt_num(dom) + a3);
    lemma_rt_opt_num(dom, u32::MAX as int, a3);
    let a4 = spec_render_opt_num(moy) + seq![']'] + rest;
    assert(a3 =~= seq![','] + a4);
    lemma_rt_char(',', a4);
    let a5 = seq![']'] + rest;
    assert(a4 =~= spec_render_opt_num(moy) + a5);
    lemma_rt_opt_num(moy, u32::MAX as int, a5);
    lemma_rt_char(']', rest);
    assert(a5 =~= seq![']'] + rest);
}

/// A calendar condition as a bracketed quadruple: time of day, weekday,
/// day of month, month of year, each `null` when unset.
pub open spec fn spec_render_condition(c: DateCondition) -> Seq<char> {
    let wd = match c.weekday {
        Some(w) => Some(w as int),
        None => None,
    };
    let dom = match c.day_of_month {
        Some(d) => Some(d as int),
        None => None,
    };
    let moy = match c.month_of_year {
        Some(m) => Some(m as int),
        None => None,
    };
    seq!['['] + spec_render_opt_tod(c.time) + seq![','] + spec_render_cond_nums(wd, dom, moy)
}

/// Parse a calendar condition.
pub open spec fn spec_parse_condition(s: Seq<char>) -> Option<(DateCondition, Seq<char>)> {
    match spec_parse_char(s, '[') {
        None => None,
        Some(s1) => match spec_parse_opt_tod(s1) {
            None => None,
            Some((time, s2)) => match spec_parse_char(s2, ',') {
                None => None,
                Some(s3) => match spec_parse_cond_nums(s3) {
                    None => None,
                    Some(((wd, dom, moy), s4)) => Some(
                        (
                            DateCondition {
                                time,
                                weekday: match wd {
                                    Some(w) => Some(w as u8),
                                    None => None,
                                },
                                day_of_month: match dom {
                                    Some(d) => Some(d as u32),
                                    None => None,
                                },
                                month_of_year: match moy {
                                    Some(m) => Some(m as u32),
                                    None => None,
                                },
                            },
                            s4,
                        ),
                    ),
                },
            },
        },
    }
}

/// A calendar condition reads back as itself.
pub proof fn lemma_rt_condition(c: DateCondition, rest: Seq<char>)
    ensures
        spec_parse_condition(spec_render_condition(c) + rest) == Some((c, rest)),
{
    let wd = match c.weekday {
        Some(w) => Some(w as int),
        None => None,
    };
    let dom = match c.day_of_month {
        Some(d) => Some(d as int),
        None => None,
    };
    let moy = match c.month_of_year {
        Some(m) => Some(m as int),
        None => None,
    };
    let s = spec_render_condition(c) + rest;
    let a1 = spec_render_opt_tod(c.time) + seq![','] + spec_render_cond_nums(wd, dom, moy) + rest;
    assert(s =~= seq!['['] + a1);
    lemma_rt_char('[', a1);
    let a2 = seq![','] + spec_render_cond_nums(wd, dom, moy) + rest;
    assert(a1 =~= spec_render_opt_tod(c.time) + a2);
    lemma_rt_opt_tod(c.time, a2);
    let a3 = spec_render_cond_nums(wd, dom, moy) + rest;
    assert(a2 =~= seq![','] + a3);
    lemma_rt_char(',', a3);
    lemma_rt_cond_nums(wd, dom, moy, rest);
}

// ---------------------------------------------------------------------
// embeds and messages
// ---------------------------------------------------------------------

use crate::message::{EmbedMessageV, MessageTypeV};

/// Three optional strings separated by commas.
pub open spec fn spec_render_opt3(
    a: Option<Seq<char>>,
    b: Option<Seq<char>>,
    c: Option<Seq<char>>,
) -> Seq<char> {
    spec_render_opt_string(a) + seq![','] + spec_render_opt_string(b) + seq![',']
        + spec_render_opt_string(c)
}

/// Parse three optional strings separated by commas.
pub open spec fn spec_parse_opt3(s: Seq<char>) -> Option<
    ((Option<Seq<char>>, Option<Seq<char>>, Option<Seq<char>>), Seq<char>),
> {
    match spec_parse_opt_string(s) {
        None => None,
        Some((a, s1)) => match spec_parse_char(s1, ',') {
            None => None,
            Some(s2) => match spec_parse_opt_string(s2) {
                None => None,
                Some((b, s3)) => match spec_parse_char(s3, ',') {
                    None => None,
                    Some(s4) => match spec_parse_opt_string(s4) {
                        None => None,
                        Some((c, s5)) => Some(((a, b, c), s5)),
                    },
                },
            },
        },
    }
}

#[verifier::spinoff_prover]
#[verifier::rlimit(100)]
proof fn lemma_rt_opt3(
    a: Option<Seq<char>>,
    b: Option<Seq<char>>,
    c: Option<Seq<char>>,
    rest: Seq<char>,
)
    ensures
        spec_parse_opt3(spec_render_opt3(a, b, c) + rest) == Some(((a, b, c), rest)),
{
    let s = spec_render_opt3(a, b, c) + rest;
    let a1 = seq![','] + spec_render_opt_string(b) + seq![','] + spec_render_opt_string(c) + rest;
    assert(s =~= spec_render_opt_string(a) + a1);
    lemma_rt_opt_string(a, a1);
    let a2 = spec_render_opt_string(b) + seq![','] + spec_render_opt_string(c) + rest;
    assert(a1 =~= seq![','] + a2);
    lemma_rt_char(',', a2);
    let a3 = seq![','] + spec_render_opt_string(c) + rest;
    assert(a2 =~= spec_render_opt_string(b) + a3);
    lemma_rt_opt_string(b, a3);
    let a4 = spec_render_opt_string(c) + rest;
    assert(a3 =~= seq![','] + a4);
    lemma_rt_char(',', a4);
    lemma_rt_opt_string(c, rest);
}

/// A colour as three byte values separated by commas.
pub open spec fn spec_render_colour(colour: (u8, u8, u8)) -> Seq<char> {
    spec_render_u64(colour.0 as int) + seq![','] + spec_render_u64(colour.1 as int) + seq![',']
        + spec_render_u64(colour.2 as int)
}

/// Parse a colour triple.
pub open spec fn spec_parse_colour(s: Seq<char>) -> Option<((u8, u8, u8), Seq<char>)> {
    match spec_parse_bounded(s, 255) {
        None => None,
        Some((r, s1)) => match spec_parse_char(s1, ',') {
            None => None,
            Some(s2) => match spec_parse_bounded(s2, 255) {
                None => None,
                Some((g, s3)) => match spec_parse_char(s3, ',') {
                    None => None,
                    Some(s4) => match spec_parse_bounded(s4, 255) {
                        None => None,
                        Some((b, s5)) => Some(((r as u8, g as u8, b as u8), s5)),
                    },
                },
            },
        },
    }
}

#[verifier::spinoff_prover]
proof fn lemma_rt_colour(colour: (u8, u8, u8), rest: Seq<char>)
    requires
        rest.len() > 0 && !spec_is_digit(rest[0]),
    ensures
        spec_parse_colour(spec_render_colour(colour) + rest) == Some((colour, rest)),
{
    let s = spec_render_colour(colour) + rest;
    let a1 = seq![','] + spec_render_u64(colour.1 as int) + seq![','] + spec_render_u64(
        colour.2 as int,
    ) + rest;
    assert(s =~= spec_render_u64(colour.0 as int) + a1);
    lemma_rt_bounded(colour.0 as int, 255, a1);
    let a2 = spec_render_u64(colour.1 as int) + seq![','] + spec_render_u64(colour.2 as int)
        + rest;
    assert(a1 =~= seq![','] + a2);
    lemma_rt_char(',', a2);
    let a3 = seq![','] + spec_render_u64(colour.2 as int) + rest;
    assert(a2 =~= spec_render_u64(colour.1 as int) + a3);
    lemma_rt_bounded(colour.1 as int, 255, a3);
    let a4 = spec_render_u64(colour.2 as int) + rest;
    assert(a3 =~= seq![','] + a4);
    lemma_rt_char(',', a4);
    lemma_rt_bounded(colour.2 as int, 255, rest);
}

/// One embed field: name, value, and whether it is inline.
pub open spec fn spec_render_field(f: (Seq<char>, Seq<char>, bool)) -> Seq<char> {
    seq!['['] + spec_render_string(f.0) + seq![','] + spec_render_string(f.1) + seq![',']
        + spec_render_bool(f.2) + seq![']']
}

/// Parse one embed field.
pub open spec fn spec_parse_field(s: Seq<char>) -> Option<((Seq<char>, Seq<char>, bool), Seq<char>)> {
    match spec_parse_char(s, '[') {
        None => None,
        Some(s1) => match spec_parse_string(s1) {
            None => None,
            Some((n, s2)) => match spec_parse_char(s2, ',') {
                None => None,
                Some(s3) => match spec_parse_string(s3) {
                    None => None,
                    Some((v, s4)) => match spec_parse_char(s4, ',') {
                        None => None,
                        Some(s5) => match spec_parse_bool(s5) {
                            None => None,
                            Some((i, s6)) => match spec_parse_char(s6, ']') {
                                None => None,
                                Some(s7) => Some(((n, v, i), s7)),
                            },
                        },
                    },
                },
            },
        },
    }
}

#[verifier::spinoff_prover]
#[verifier::rlimit(100)]
proof fn lemma_rt_field(f: (Seq<char>, Seq<char>, bool), rest: Seq<char>)
    ensures
        spec_parse_field(spec_render_field(f) + rest) == Some((f, rest)),
{
    let s = spec_render_field(f) + rest;
    let a1 = spec_render_string(f.0) + seq![','] + spec_render_string(f.1) + seq![',']
        + spec_render_bool(f.2) + seq![']'] + rest;
    assert(s =~= seq!['['] + a1);
    lemma_rt_char('[', a1);
    let a2 = seq![','] + spec_render_string(f.1) + seq![','] + spec_render_bool(f.2) + seq![']']
        + rest;
    assert(a1 =~= spec_render_string(f.0) + a2);
    lemma_rt_string(f.0, a2);
    let a3 = spec_render_string(f.1) + seq![','] + spec_render_bool(f.2) + seq![']'] + rest;
    assert(a2 =~= seq![','] + a3);
    lemma_rt_char(',', a3);
    let a4 = seq![','] + spec_render_bool(f.2) + seq![']'] + rest;
    assert(a3 =~= spec_render_string(f.1) + a4);
    lemma_rt_string(f.1, a4);
    let a5 = spec_render_bool(f.2) + seq![']'] + rest;
    assert(a4 =~= seq![','] + a5);
    lemma_rt_char(',', a5);
    let a6 = seq![']'] + rest;
    assert(a5 =~= spec_render_bool(f.2) + a6);
    lemma_rt_bool(f.2, a6);
    lemma_rt_char(']', rest);
    assert(a6 =~= seq![']'] + rest);
}

/// One or more fields separated by commas, then the closing bracket.
pub open spec fn spec_render_field_items(items: Seq<(Seq<char>, Seq<char>, bool)>) -> Seq<char>
    decreases items.len(),
{
    if items.len() <= 1 {
        spec_render_field(items[0]) + seq![']']
    } else {
        spec_render_field(items[0]) + seq![','] + spec_render_field_items(items.drop_first())
    }
}

/// Parse fields until the closing bracket.
pub open spec fn spec_parse_field_items(s: Seq<char>) -> Option<
    (Seq<(Seq<char>, Seq<char>, bool)>, Seq<char>),
>
    decreases s.len(),
{
    match spec_parse_field(s) {
        None => None,
        Some((f, rem)) => if rem.len() >= s.len() {
            None
        } else if rem.len() > 0 && rem[0] == ',' {
            match spec_parse_field_items(rem.drop_first()) {
                Some((fs, rem2)) => Some((seq![f] + fs, rem2)),
                None => None,
            }
        } else if rem.len() > 0 && rem[0] == ']' {
            Some((seq![f], rem.drop_first()))
        } else {
            None
        },
    }
}

/// A rendered field is never empty.
proof fn lemma_render_field_len(f: (Seq<char>, Seq<char>, bool))
    ensures
        spec_render_field(f).len() >= 1,
        spec_render_field(f)[0] == '[',
{
}

proof fn lemma_rt_field_items(items: Seq<(Seq<char>, Seq<char>, bool)>, rest: Seq<char>)
    requires
        items.len() >= 1,
    ensures
        spec_parse_field_items(spec_render_field_items(items) + rest) == Some((items, rest)),
    decreases items.len(),
{
    let s = spec_render_field_items(items) + rest;
    let f = items[0];
    lemma_render_field_len(f);
    if items.len() == 1 {
        let a1 = seq![']'] + rest;
        assert(s =~= spec_render_field(f) + a1);
        lemma_rt_field(f, a1);
        assert(a1[0] == ']');
        assert(a1.drop_first() =~= rest);
        assert(a1.len() < s.len());
        assert(seq![f] =~= items);
    } else {
        let tail = spec_render_field_items(items.drop_first()) + rest;
        let a1 = seq![','] + tail;
        assert(s =~= spec_render_field(f) + a1);
        lemma_rt_field(f, a1);
        assert(a1[0] == ',');
        assert(a1.len() < s.len());
        assert(a1.drop_first() =~= tail);
        lemma_rt_field_items(items.drop_first(), rest);
        assert(seq![f] + items.drop_first() =~= items);
    }
}

/// `null`, or a bracketed list of fields.
pub open spec fn spec_render_opt_fields(o: Option<Seq<(Seq<char>, Seq<char>, bool)>>) -> Seq<char> {
    match o {
        None => seq!['n', 'u', 'l', 'l'],
        Some(items) => if items.len() == 0 {
            seq!['[', ']']
        } else {
            seq!['['] + spec_render_field_items(items)
        },
    }
}

/// Parse `null` or a bracketed list of fields.
pub open spec fn spec_parse_opt_fields(s: Seq<char>) -> Option<
    (Option<Seq<(Seq<char>, Seq<char>, bool)>>, Seq<char>),
> {
    if s.len() >= 4 && s.take(4) == seq!['n', 'u', 'l', 'l'] {
        Some((None, s.skip(4)))
    } else {
        match spec_parse_char(s, '[') {
            None => None,
            Some(s1) => if s1.len() > 0 && s1[0] == ']' {
                Some((Some(Seq::empty()), s1.drop_first()))
            } else {
                match spec_parse_field_items(s1) {
                    Some((fs, rem)) => Some((Some(fs), rem)),
                    None => None,
                }
            },
        }
    }
}

proof fn lemma_rt_opt_fields(o: Option<Seq<(Seq<char>, Seq<char>, bool)>>, rest: Seq<char>)
    ensures
        spec_parse_opt_fields(spec_render_opt_fields(o) + rest) == Some((o, rest)),
{
    let s = spec_render_opt_fields(o) + rest;
    match o {
        None => {
            assert(s.take(4) =~= seq!['n', 'u', 'l', 'l']);
            assert(s.skip(4) =~= rest);
        },
        Some(items) => {
            assert(s[0] == '[');
            if s.len() >= 4 && s.take(4) == seq!['n', 'u', 'l', 'l'] {
                assert(s.take(4)[0] == 'n');
                assert(false);
            }
            if items.len() == 0 {
                let a1 = seq![']'] + rest;
                assert(s =~= seq!['['] + a1);
                lemma_rt_char('[', a1);
                assert(a1[0] == ']');
                assert(a1.drop_first() =~= rest);
                assert(Some(Seq::<(Seq<char>, Seq<char>, bool)>::empty()) == Some(items));
            } else {
                let a1 = spec_render_field_items(items) + rest;
                assert(s =~= seq!['['] + a1);
                lemma_rt_char('[', a1);
                lemma_render_field_len(items[0]);
                assert(a1[0] == '[');
                lemma_rt_field_items(items, rest);
            }
        },
    }
}

/// An embed as a bracketed row of its parts, in declaration order, with
/// the colour flattened into its three bytes.
pub open spec fn spec_render_embed(e: EmbedMessageV) -> Seq<char> {
    seq!['['] + spec_render_opt3(e.author_icon_url, e.author_name, e.author_url) + seq![',']
        + spec_render_colour(e.colour) + seq![','] + spec_render_embed_mid(e)
}

/// The middle of a rendered embed: description and fields.
pub open spec fn spec_render_embed_mid(e: EmbedMessageV) -> Seq<char> {
    spec_render_opt_string(e.description) + seq![','] + spec_render_opt_fields(e.fields)
        + seq![','] + spec_render_embed_tail(e)
}

/// The tail of a rendered embed: footer, images, timestamp flag and
/// titles.
pub open spec fn spec_render_embed_tail(e: EmbedMessageV) -> Seq<char> {
    spec_render_opt3(e.footer_text, e.image_url, e.thumbnail_url) + seq![','] + spec_render_bool(
        e.timestamp,
    ) + seq![','] + spec_render_opt3(e.title, e.title_url, None) + seq![']']
}

/// Parse the tail of an embed.
pub open spec fn spec_parse_embed_tail(s: Seq<char>) -> Option<
    ((Option<Seq<char>>, Option<Seq<char>>, Option<Seq<char>>), bool, Option<Seq<char>>, Option<
        Seq<char>,
    >, Seq<char>),
> {
    match spec_parse_opt3(s) {
        None => None,
        Some((footer, s1)) => match spec_parse_char(s1, ',') {
            None => None,
            Some(s2) => match spec_parse_bool(s2) {
                None => None,
                Some((ts, s3)) => match spec_parse_char(s3, ',') {
                    None => None,
                    Some(s4) => match spec_parse_opt3(s4) {
                        None => None,
                        Some(((title, title_url, pad), s5)) => if pad is None {
                            match spec_parse_char(s5, ']') {
                                None => None,
                                Some(s6) => Some((footer, ts, title, title_url, s6)),
                            }
                        } else {
                            None
                        },
                    },
                },
            },
        },
    }
}

#[verifier::spinoff_prover]
#[verifier::rlimit(100)]
proof fn lemma_rt_embed_tail(e: EmbedMessageV, rest: Seq<char>)
    ensures
        spec_parse_embed_tail(spec_render_embed_tail(e) + rest) == Some(
            (
                (e.footer_text, e.image_url, e.thumbnail_url),
                e.timestamp,
                e.title,
                e.title_url,
                rest,
            ),
        ),
{
    let s = spec_render_embed_tail(e) + rest;
    let a1 = seq![','] + spec_render_bool(e.timestamp) + seq![','] + spec_render_opt3(
        e.title,
        e.title_url,
        None,
    ) + seq![']'] + rest;
    assert(s =~= spec_render_opt3(e.footer_text, e.image_url, e.thumbnail_url) + a1);
    lemma_rt_opt3(e.footer_text, e.image_url, e.thumbnail_url, a1);
    let a2 = spec_render_bool(e.timestamp) + seq![','] + spec_render_opt3(
        e.title,
        e.title_url,
        None,
    ) + seq![']'] + rest;
    assert(a1 =~= seq![','] + a2);
    lemma_rt_char(',', a2);
    let a3 = seq![','] + spec_render_opt3(e.title, e.title_url, None) + seq![']'] + rest;
    assert(a2 =~= spec_render_bool(e.timestamp) + a3);
    lemma_rt_bool(e.timestamp, a3);
    let a4 = spec_render_opt3(e.title, e.title_url, None) + seq![']'] + rest;
    assert(a3 =~= seq![','] + a4);
    lemma_rt_char(',', a4);
    let a5 = seq![']'] + rest;
    assert(a4 =~= spec_render_opt3(e.title, e.title_url, None) + a5);
    lemma_rt_opt3(e.title, e.title_url, None, a5);
    lemma_rt_char(']', rest);
    assert(a5 =~= seq![']'] + rest);
}

/// Parse the middle of an embed and everything after it.
pub open spec fn spec_parse_embed_mid(s: Seq<char>) -> Option<
    ((Option<Seq<char>>, Option<Seq<(Seq<char>, Seq<char>, bool)>>), (Option<Seq<char>>, Option<
        Seq<char>,
    >, Option<Seq<char>>), bool, Option<Seq<char>>, Option<Seq<char>>, Seq<char>),
> {
    match spec_parse_opt_string(s) {
        None => None,
        Some((desc, s1)) => match spec_parse_char(s1, ',') {
            None => None,
            Some(s2) => match spec_parse_opt_fields(s2) {
                None => None,
                Some((fields, s3)) => match spec_parse_char(s3, ',') {
                    None => None,
                    Some(s4) => match spec_parse_embed_tail(s4) {
                        None => None,
                        Some((footer3, ts, title, title_url, s5)) => Some(
                            ((desc, fields), footer3, ts, title, title_url, s5),
                        ),
                    },
                },
            },
        },
    }
}

#[verifier::spinoff_prover]
#[verifier::rlimit(100)]
proof fn lemma_rt_embed_mid(e: EmbedMessageV, rest: Seq<char>)
    ensures
        spec_parse_embed_mid(spec_render_embed_mid(e) + rest) == Some(
            (
                (e.description, e.fields),
                (e.footer_text, e.image_url, e.thumbnail_url),
                e.timestamp,
                e.title,
                e.title_url,
                rest,
            ),
        ),
{
    let s = spec_render_embed_mid(e) + rest;
    let a1 = seq![','] + spec_render_opt_fields(e.fields) + seq![','] + spec_render_embed_tail(e)
        + rest;
    assert(s =~= spec_render_opt_string(e.description) + a1);
    lemma_rt_opt_string(e.description, a1);
    let a2 = spec_render_opt_fields(e.fields) + seq![','] + spec_render_embed_tail(e) + rest;
    assert(a1 =~= seq![','] + a2);
    lemma_rt_char(',', a2);
    let a3 = seq![','] + spec_render_embed_tail(e) + rest;
    assert(a2 =~= spec_render_opt_fields(e.fields) + a3);
    lemma_rt_opt_fields(e.fields, a3);
    let a4 = spec_render_embed_tail(e) + rest;
    assert(a3 =~= seq![','] + a4);
    lemma_rt_char(',', a4);
    lemma_rt_embed_tail(e, rest);
}

/// Parse a whole embed.
pub open spec fn spec_parse_embed(s: Seq<char>) -> Option<(EmbedMessageV, Seq<char>)> {
    match spec_parse_char(s, '[') {
        None => None,
        Some(s1) => match spec_parse_opt3(s1) {
            None => None,
            Some(((icon, name, url), s2)) => match spec_parse_char(s2, ',') {
                None => None,
                Some(s3) => match spec_parse_colour(s3) {
                    None => None,
                    Some((colour, s4)) => match spec_parse_char(s4, ',') {
                        None => None,
                        Some(s5) => match spec_parse_embed_mid(s5) {
                            None => None,
                            Some(
                                ((desc, fields), (footer, image, thumb), ts, title, title_url, s6),
                            ) => Some(
                                (
                                    EmbedMessageV {
                                        author_icon_url: icon,
                                        author_name: name,
                                        author_url: url,
                                        colour,
                                        description: desc,
                                        fields,
                                        footer_text: footer,
                                        image_url: image,
                                        thumbnail_url: thumb,
                                        timestamp: ts,
                                        title,
                                        title_url,
                                    },
                                    s6,
                                ),
                            ),
                        },
                    },
                },
            },
        },
    }
}

/// An embed reads back as itself.
#[verifier::spinoff_prover]
#[verifier::rlimit(100)]
pub proof fn lemma_rt_embed(e: EmbedMessageV, rest: Seq<char>)
    ensures
        spec_parse_embed(spec_render_embed(e) + rest) == Some((e, rest)),
{
    let s = spec_render_embed(e) + rest;
    let a1 = spec_render_opt3(e.author_icon_url, e.author_name, e.author_url) + seq![',']
        + spec_render_colour(e.colour) + seq![','] + spec_render_embed_mid(e) + rest;
    assert(s =~= seq!['['] + a1);
    lemma_rt_char('[', a1);
    let a2 = seq![','] + spec_render_colour(e.colour) + seq![','] + spec_render_embed_mid(e)
        + rest;
    assert(a1 =~= spec_render_opt3(e.author_icon_url, e.author_name, e.author_url) + a2);
    lemma_rt_opt3(e.author_icon_url, e.author_name, e.author_url, a2);
    let a3 = spec_render_colour(e.colour) + seq![','] + spec_render_embed_mid(e) + rest;
    assert(a2 =~= seq![','] + a3);
    lemma_rt_char(',', a3);
    let a4 = seq![','] + spec_render_embed_mid(e) + rest;
    assert(a3 =~= spec_render_colour(e.colour) + a4);
    assert(a4[0] == ',');
    lemma_rt_colour(e.colour, a4);
    let a5 = spec_render_embed_mid(e) + rest;
    assert(a4 =~= seq![','] + a5);
    lemma_rt_char(',', a5);
    lemma_rt_embed_mid(e, rest);
}

/// A message: a tagged plain text or a tagged embed.
pub open spec fn spec_render_message(m: MessageTypeV) -> Seq<char> {
    match m {
        MessageTypeV::Plain { content } => seq!['[', '"', 'p', '"', ','] + spec_render_string(
            content,
        ) + seq![']'],
        MessageTypeV::Embed(e) => seq!['[', '"', 'e', '"', ','] + spec_render_embed(e)
            + seq![']'],
    }
}

/// Consume the five-character opening tag of a composite: bracket, the
/// quoted tag letter, and the comma.
pub open spec fn spec_parse_tag(s: Seq<char>, t: char) -> Option<Seq<char>> {
    if s.len() >= 5 && s.take(5) == seq!['[', '"', t, '"', ','] {
        Some(s.skip(5))
    } else {
        None
    }
}

proof fn lemma_rt_tag(t: char, rest: Seq<char>)
    ensures
        spec_parse_tag(seq!['[', '"', t, '"', ','] + rest, t) == Some(rest),
{
    let s = seq!['[', '"', t, '"', ','] + rest;
    assert(s.take(5) =~= seq!['[', '"', t, '"', ',']);
    assert(s.skip(5) =~= rest);
}

/// Two tags differ exactly in their tag letter.
proof fn lemma_tag_mismatch(s: Seq<char>, t1: char, t2: char)
    requires
        t1 != t2,
        s.len() >= 5,
        s.take(5) == seq!['[', '"', t1, '"', ','],
    ensures
        spec_parse_tag(s, t2) is None,
{
    assert(s.take(5)[2] == t1);
    if s.len() >= 5 && s.take(5) == seq!['[', '"', t2, '"', ','] {
        assert(s.take(5)[2] == t2);
        assert(false);
    }
}

/// Parse a message.
pub open spec fn spec_parse_message(s: Seq<char>) -> Option<(MessageTypeV, Seq<char>)> {
    match spec_parse_tag(s, 'p') {
        Some(s1) => match spec_parse_string(s1) {
            None => None,
            Some((content, s2)) => match spec_parse_char(s2, ']') {
                None => None,
                Some(s3) => Some((MessageTypeV::Plain { content }, s3)),
            },
        },
        None => match spec_parse_tag(s, 'e') {
            Some(s1) => match spec_parse_embed(s1) {
                None => None,
                Some((e, s2)) => match spec_parse_char(s2, ']') {
                    None => None,
                    Some(s3) => Some((MessageTypeV::Embed(e), s3)),
                },
            },
            None => None,
        },
    }
}

#[verifier::spinoff_prover]
#[verifier::rlimit(100)]
proof fn lemma_rt_message_plain(content: Seq<char>, rest: Seq<char>)
    ensures
        spec_parse_message(spec_render_message(MessageTypeV::Plain { content }) + rest) == Some(
            (MessageTypeV::Plain { content }, rest),
        ),
{
    let s = spec_render_message(MessageTypeV::Plain { content }) + rest;
    let a1 = spec_render_string(content) + seq![']'] + rest;
    assert(s =~= seq!['[', '"', 'p', '"', ','] + a1);
    lemma_rt_tag('p', a1);
    assert(s.take(5) =~= seq!['[', '"', 'p', '"', ',']);
    let a2 = seq![']'] + rest;
    assert(a1 =~= spec_render_string(content) + a2);
    lemma_rt_string(content, a2);
    lemma_rt_char(']', rest);
    assert(a2 =~= seq![']'] + rest);
}

#[verifier::spinoff_prover]
#[verifier::rlimit(100)]
proof fn lemma_rt_message_embed(e: EmbedMessageV, rest: Seq<char>)
    ensures
        spec_parse_message(spec_render_message(MessageTypeV::Embed(e)) + rest) == Some(
            (MessageTypeV::Embed(e), rest),
        ),
{
    let s = spec_render_message(MessageTypeV::Embed(e)) + rest;
    let a1 = spec_render_embed(e) + seq![']'] + rest;
    assert(s =~= seq!['[', '"', 'e', '"', ','] + a1);
    assert(s.take(5) =~= seq!['[', '"', 'e', '"', ',']);
    lemma_tag_mismatch(s, 'e', 'p');
    lemma_rt_tag('e', a1);
    let a2 = seq![']'] + rest;
    assert(a1 =~= spec_render_embed(e) + a2);
    lemma_rt_embed(e, a2);
    lemma_rt_char(']', rest);
    assert(a2 =~= seq![']'] + rest);
}

/// A message reads back as itself.
pub proof fn lemma_rt_message(m: MessageTypeV, rest: Seq<char>)
    ensures
        spec_parse_message(spec_render_message(m) + rest) == Some((m, rest)),
{
    match m {
        MessageTypeV::Plain { content } => {
            lemma_rt_message_plain(content, rest);
        },
        MessageTypeV::Embed(e) => {
            lemma_rt_message_embed(e, rest);
        },
    }
}

// ---------------------------------------------------------------------
// actions and tasks
// ---------------------------------------------------------------------

use crate::action::TaskV;
use crate::tasks::{DateConditionalTaskV, GulagV, PeriodicTaskV, TaskTypeV};

/// An action: a tagged send-message row or a tagged appearance-update
/// row.
pub open spec fn spec_render_action(a: TaskV) -> Seq<char> {
    match a {
        TaskV::SendMessage { send_to, message, upload_file } => seq!['[', '"', 'S', '"', ',']
            + spec_render_u64(send_to as int) + seq![','] + spec_render_message(message)
            + seq![','] + spec_render_opt_string(upload_file) + seq![']'],
        TaskV::UpdateAppearance { new_name, new_icon_filename } => seq!['[', '"', 'U', '"', ',']
            + spec_render_string(new_name) + seq![','] + spec_render_string(new_icon_filename)
            + seq![']'],
    }
}

/// Parse an action.
pub open spec fn spec_parse_action(s: Seq<char>) -> Option<(TaskV, Seq<char>)> {
    match spec_parse_tag(s, 'S') {
        Some(s1) => match spec_parse_bounded(s1, u64::MAX as int) {
            None => None,
            Some((send_to, s2)) => match spec_parse_char(s2, ',') {
                None => None,
                Some(s3) => match spec_parse_message(s3) {
                    None => None,
                    Some((message, s4)) => match spec_parse_char(s4, ',') {
                        None => None,
                        Some(s5) => match spec_parse_opt_string(s5) {
                            None => None,
                            Some((upload_file, s6)) => match spec_parse_char(s6, ']') {
                                None => None,
                                Some(s7) => Some(
                                    (
                                        TaskV::SendMessage {
                                            send_to: send_to as u64,
                                            message,
                                            upload_file,
                                        },
                                        s7,
                                    ),
                                ),
                            },
                        },
                    },
                },
            },
        },
        None => match spec_parse_tag(s, 'U') {
            Some(s1) => match spec_parse_string(s1) {
                None => None,
                Some((new_name, s2)) => match spec_parse_char(s2, ',') {
                    None => None,
                    Some(s3) => match spec_parse_string(s3) {
                        None => None,
                        Some((new_icon_filename, s4)) => match spec_parse_char(s4, ']') {
                            None => None,
                            Some(s5) => Some(
                                (TaskV::UpdateAppearance { new_name, new_icon_filename }, s5),
                            ),
                        },
                    },
                },
            },
            None => None,
        },
    }
}

#[verifier::spinoff_prover]
#[verifier::rlimit(100)]
proof fn lemma_rt_action_send(
    send_to: u64,
    message: MessageTypeV,
    upload_file: Option<Seq<char>>,
    rest: Seq<char>,
)
    ensures
        ({
            let a = TaskV::SendMessage { send_to, message, upload_file };
            spec_parse_action(spec_render_action(a) + rest) == Some((a, rest))
        }),
{
    let a = TaskV::SendMessage { send_to, message, upload_file };
    let s = spec_render_action(a) + rest;
    let a1 = spec_render_u64(send_to as int) + seq![','] + spec_render_message(message)
        + seq![','] + spec_render_opt_string(upload_file) + seq![']'] + rest;
    assert(s =~= seq!['[', '"', 'S', '"', ','] + a1);
    assert(s.take(5) =~= seq!['[', '"', 'S', '"', ',']);
    lemma_rt_tag('S', a1);
    let a2 = seq![','] + spec_render_message(message) + seq![','] + spec_render_opt_string(
        upload_file,
    ) + seq![']'] + rest;
    assert(a1 =~= spec_render_u64(send_to as int) + a2);
    lemma_rt_bounded(send_to as int, u64::MAX as int, a2);
    let a3 = spec_render_message(message) + seq![','] + spec_render_opt_string(upload_file)
        + seq![']'] + rest;
    assert(a2 =~= seq![','] + a3);
    lemma_rt_char(',', a3);
    let a4 = seq![','] + spec_render_opt_string(upload_file) + seq![']'] + rest;
    assert(a3 =~= spec_render_message(message) + a4);
    lemma_rt_message(message, a4);
    let a5 = spec_render_opt_string(upload_file) + seq![']'] + rest;
    assert(a4 =~= seq![','] + a5);
    lemma_rt_char(',', a5);
    let a6 = seq![']'] + rest;
    assert(a5 =~= spec_render_opt_string(upload_file) + a6);
    lemma_rt_opt_string(upload_file, a6);
    lemma_rt_char(']', rest);
    assert(a6 =~= seq![']'] + rest);
}

#[verifier::spinoff_prover]
#[verifier::rlimit(100)]
proof fn lemma_rt_action_update(
    new_name: Seq<char>,
    new_icon_filename: Seq<char>,
    rest: Seq<char>,
)
    ensures
        ({
            let a = TaskV::UpdateAppearance { new_name, new_icon_filename };
            spec_parse_action(spec_render_action(a) + rest) == Some((a, rest))
        }),
{
    let a = TaskV::UpdateAppearance { new_name, new_icon_filename };
    let s = spec_render_action(a) + rest;
    let a1 = spec_render_string(new_name) + seq![','] + spec_render_string(new_icon_filename)
        + seq![']'] + rest;
    assert(s =~= seq!['[', '"', 'U', '"', ','] + a1);
    assert(s.take(5) =~= seq!['[', '"', 'U', '"', ',']);
    lemma_tag_mismatch(s, 'U', 'S');
    lemma_rt_tag('U', a1);
    let a2 = seq![','] + spec_render_string(new_icon_filename) + seq![']'] + rest;
    assert(a1 =~= spec_render_string(new_name) + a2);
    lemma_rt_string(new_name, a2);
    let a3 = spec_render_string(new_icon_filename) + seq![']'] + rest;
    assert(a2 =~= seq![','] + a3);
    lemma_rt_char(',', a3);
    let a4 = seq![']'] + rest;
    assert(a3 =~= spec_render_string(new_icon_filename) + a4);
    lemma_rt_string(new_icon_filename, a4);
    lemma_rt_char(']', rest);
    assert(a4 =~= seq![']'] + rest);
}

/// An action reads back as itself.
pub proof fn lemma_rt_action(a: TaskV, rest: Seq<char>)
    ensures
        spec_parse_action(spec_render_action(a) + rest) == Some((a, rest)),
{
    match a {
        TaskV::SendMessage { send_to, message, upload_file } => {
            lemma_rt_action_send(send_to, message, upload_file, rest);
        },
        TaskV::UpdateAppearance { new_name, new_icon_filename } => {
            lemma_rt_action_update(new_name, new_icon_filename, rest);
        },
    }
}

/// One saved role: its display name and its ID.
pub open spec fn spec_render_role(r: (Seq<char>, u64)) -> Seq<char> {
    seq!['['] + spec_render_string(r.0) + seq![','] + spec_render_u64(r.1 as int) + seq![']']
}

/// Parse one saved role.
pub open spec fn spec_parse_role(s: Seq<char>) -> Option<((Seq<char>, u64), Seq<char>)> {
    match spec_parse_char(s, '[') {
        None => None,
        Some(s1) => match spec_parse_string(s1) {
            None => None,
            Some((name, s2)) => match spec_parse_char(s2, ',') {
                None => None,
                Some(s3) => match spec_parse_bounded(s3, u64::MAX as int) {
                    None => None,
                    Some((id, s4)) => match spec_parse_char(s4, ']') {
                        None => None,
                        Some(s5) => Some(((name, id as u64), s5)),
                    },
                },
            },
        },
    }
}

#[verifier::spinoff_prover]
#[verifier::rlimit(100)]
proof fn lemma_rt_role(r: (Seq<char>, u64), rest: Seq<char>)
    ensures
        spec_parse_role(spec_render_role(r) + rest) == Some((r, rest)),
{
    let s = spec_render_role(r) + rest;
    let a1 = spec_render_string(r.0) + seq![','] + spec_render_u64(r.1 as int) + seq![']'] + rest;
    assert(s =~= seq!['['] + a1);
    lemma_rt_char('[', a1);
    let a2 = seq![','] + spec_render_u64(r.1 as int) + seq![']'] + rest;
    assert(a1 =~= spec_render_string(r.0) + a2);
    lemma_rt_string(r.0, a2);
    let a3 = spec_render_u64(r.1 as int) + seq![']'] + rest;
    assert(a2 =~= seq![','] + a3);
    lemma_rt_char(',', a3);
    let a4 = seq![']'] + rest;
    assert(a3 =~= spec_render_u64(r.1 as int) + a4);
    lemma_rt_bounded(r.1 as int, u64::MAX as int, a4);
    lemma_rt_char(']', rest);
    assert(a4 =~= seq![']'] + rest);
}

/// One or more roles separated by commas, then the closing bracket.
pub open spec fn spec_render_role_items(items: Seq<(Seq<char>, u64)>) -> Seq<char>
    decreases items.len(),
{
    if items.len() <= 1 {
        spec_render_role(items[0]) + seq![']']
    } else {
        spec_render_role(items[0]) + seq![','] + spec_render_role_items(items.drop_first())
    }
}

/// Parse roles until the closing bracket.
pub open spec fn spec_parse_role_items(s: Seq<char>) -> Option<(Seq<(Seq<char>, u64)>, Seq<char>)>
    decreases s.len(),
{
    match spec_parse_role(s) {
        None => None,
        Some((r, rem)) => if rem.len() >= s.len() {
            None
        } else if rem.len() > 0 && rem[0] == ',' {
            match spec_parse_role_items(rem.drop_first()) {
                Some((rs, rem2)) => Some((seq![r] + rs, rem2)),
                None => None,
            }
        } else if rem.len() > 0 && rem[0] == ']' {
            Some((seq![r], rem.drop_first()))
        } else {
            None
        },
    }
}

proof fn lemma_rt_role_items(items: Seq<(Seq<char>, u64)>, rest: Seq<char>)
    requires
        items.len() >= 1,
    ensures
        spec_parse_role_items(spec_render_role_items(items) + rest) == Some((items, rest)),
    decreases items.len(),
{
    let s = spec_render_role_items(items) + rest;
    let r = items[0];
    assert(spec_render_role(r)[0] == '[');
    if items.len() == 1 {
        let a1 = seq![']'] + rest;
        assert(s =~= spec_render_role(r) + a1);
        lemma_rt_role(r, a1);
        assert(a1[0] == ']');
        assert(a1.drop_first() =~= rest);
        assert(a1.len() < s.len());
        assert(seq![r] =~= items);
    } else {
        let tail = spec_render_role_items(items.drop_first()) + rest;
        let a1 = seq![','] + tail;
        assert(s =~= spec_render_role(r) + a1);
        lemma_rt_role(r, a1);
        assert(a1[0] == ',');
        assert(a1.len() < s.len());
        assert(a1.drop_first() =~= tail);
        lemma_rt_role_items(items.drop_first(), rest);
        assert(seq![r] + items.drop_first() =~= items);
    }
}

/// A bracketed list of roles, possibly empty.
pub open spec fn spec_render_roles(items: Seq<(Seq<char>, u64)>) -> Seq<char> {
    if items.len() == 0 {
        seq!['[', ']']
    } else {
        seq!['['] + spec_render_role_items(items)
    }
}

/// Parse a bracketed list of roles.
pub open spec fn spec_parse_roles(s: Seq<char>) -> Option<(Seq<(Seq<char>, u64)>, Seq<char>)> {
    match spec_parse_char(s, '[') {
        None => None,
        Some(s1) => if s1.len() > 0 && s1[0] == ']' {
            Some((Seq::empty(), s1.drop_first()))
        } else {
            spec_parse_role_items(s1)
        },
    }
}

proof fn lemma_rt_roles(items: Seq<(Seq<char>, u64)>, rest: Seq<char>)
    ensures
        spec_parse_roles(spec_render_roles(items) + rest) == Some((items, rest)),
{
    let s = spec_render_roles(items) + rest;
    if items.len() == 0 {
        let a1 = seq![']'] + rest;
        assert(s =~= seq!['['] + a1);
        lemma_rt_char('[', a1);
        assert(a1[0] == ']');
        assert(a1.drop_first() =~= rest);
        assert(Seq::<(Seq<char>, u64)>::empty() =~= items);
    } else {
        let a1 = spec_render_role_items(items) + rest;
        assert(s =~= seq!['['] + a1);
        lemma_rt_char('[', a1);
        assert(spec_render_role(items[0])[0] == '[');
        assert(a1[0] == '[');
        lemma_rt_role_items(items, rest);
    }
}

/// A suspension entry: subject name and ID, saved roles, and expiry.
pub open spec fn spec_render_gulag(g: GulagV) -> Seq<char> {
    seq!['[', '"', 'G', '"', ','] + spec_render_string(g.user.0) + seq![',']
        + spec_render_gulag_tail(g)
}

/// The tail of a suspension entry: subject ID, roles and expiry.
pub open spec fn spec_render_gulag_tail(g: GulagV) -> Seq<char> {
    spec_render_u64(g.user.1 as int) + seq![','] + spec_render_roles(g.roles) + seq![',']
        + spec_render_i64(g.end as int) + seq![']']
}

/// Parse the tail of a suspension entry.
pub open spec fn spec_parse_gulag_tail(s: Seq<char>) -> Option<
    ((u64, Seq<(Seq<char>, u64)>, i64), Seq<char>),
> {
    match spec_parse_bounded(s, u64::MAX as int) {
        None => None,
        Some((id, s1)) => match spec_parse_char(s1, ',') {
            None => None,
            Some(s2) => match spec_parse_roles(s2) {
                None => None,
                Some((roles, s3)) => match spec_parse_char(s3, ',') {
                    None => None,
                    Some(s4) => match spec_parse_i64(s4) {
                        None => None,
                        Some((end, s5)) => match spec_parse_char(s5, ']') {
                            None => None,
                            Some(s6) => Some(((id as u64, roles, end as i64), s6)),
                        },
                    },
                },
            },
        },
    }
}

#[verifier::spinoff_prover]
#[verifier::rlimit(100)]
proof fn lemma_rt_gulag_tail(g: GulagV, rest: Seq<char>)
    ensures
        spec_parse_gulag_tail(spec_render_gulag_tail(g) + rest) == Some(
            ((g.user.1, g.roles, g.end), rest),
        ),
{
    let s = spec_render_gulag_tail(g) + rest;
    let a1 = seq![','] + spec_render_roles(g.roles) + seq![','] + spec_render_i64(g.end as int)
        + seq![']'] + rest;
    assert(s =~= spec_render_u64(g.user.1 as int) + a1);
    lemma_rt_bounded(g.user.1 as int, u64::MAX as int, a1);
    let a2 = spec_render_roles(g.roles) + seq![','] + spec_render_i64(g.end as int) + seq![']']
        + rest;
    assert(a1 =~= seq![','] + a2);
    lemma_rt_char(',', a2);
    let a3 = seq![','] + spec_render_i64(g.end as int) + seq![']'] + rest;
    assert(a2 =~= spec_render_roles(g.roles) + a3);
    lemma_rt_roles(g.roles, a3);
    let a4 = spec_render_i64(g.end as int) + seq![']'] + rest;
    assert(a3 =~= seq![','] + a4);
    lemma_rt_char(',', a4);
    let a5 = seq![']'] + rest;
    assert(a4 =~= spec_render_i64(g.end as int) + a5);
    lemma_rt_i64(g.end as int, a5);
    lemma_rt_char(']', rest);
    assert(a5 =~= seq![']'] + rest);
}

/// A recurring fixed-interval entry: its action, interval and last period
/// boundary.
pub open spec fn spec_render_periodic(p: PeriodicTaskV) -> Seq<char> {
    seq!['[', '"', 'P', '"', ','] + spec_render_action(p.task) + seq![','] + spec_render_i64(
        p.diff as int,
    ) + seq![','] + spec_render_i64(p.last_sent as int) + seq![']']
}

/// Parse the tail of a recurring fixed-interval entry, after its tag.
pub open spec fn spec_parse_periodic_tail(s: Seq<char>) -> Option<(PeriodicTaskV, Seq<char>)> {
    match spec_parse_action(s) {
        None => None,
        Some((task, s1)) => match spec_parse_char(s1, ',') {
            None => None,
            Some(s2) => match spec_parse_i64(s2) {
                None => None,
                Some((diff, s3)) => match spec_parse_char(s3, ',') {
                    None => None,
                    Some(s4) => match spec_parse_i64(s4) {
                        None => None,
                        Some((last_sent, s5)) => match spec_parse_char(s5, ']') {
                            None => None,
                            Some(s6) => Some(
                                (
                                    PeriodicTaskV {
                                        task,
                                        diff: diff as i64,
                                        last_sent: last_sent as i64,
                                    },
                                    s6,
                                ),
                            ),
                        },
                    },
                },
            },
        },
    }
}

#[verifier::spinoff_prover]
#[verifier::rlimit(100)]
proof fn lemma_rt_periodic_tail(p: PeriodicTaskV, rest: Seq<char>)
    ensures
        spec_parse_periodic_tail(
            spec_render_action(p.task) + seq![','] + spec_render_i64(p.diff as int) + seq![',']
                + spec_render_i64(p.last_sent as int) + seq![']'] + rest,
        ) == Some((p, rest)),
{
    let s = spec_render_action(p.task) + seq![','] + spec_render_i64(p.diff as int) + seq![',']
        + spec_render_i64(p.last_sent as int) + seq![']'] + rest;
    let a1 = seq![','] + spec_render_i64(p.diff as int) + seq![','] + spec_render_i64(
        p.last_sent as int,
    ) + seq![']'] + rest;
    assert(s =~= spec_render_action(p.task) + a1);
    lemma_rt_action(p.task, a1);
    let a2 = spec_render_i64(p.diff as int) + seq![','] + spec_render_i64(p.last_sent as int)
        + seq![']'] + rest;
    assert(a1 =~= seq![','] + a2);
    lemma_rt_char(',', a2);
    let a3 = seq![','] + spec_render_i64(p.last_sent as int) + seq![']'] + rest;
    assert(a2 =~= spec_render_i64(p.diff as int) + a3);
    lemma_rt_i64(p.diff as int, a3);
    let a4 = spec_render_i64(p.last_sent as int) + seq![']'] + rest;
    assert(a3 =~= seq![','] + a4);
    lemma_rt_char(',', a4);
    let a5 = seq![']'] + rest;
    assert(a4 =~= spec_render_i64(p.last_sent as int) + a5);
    lemma_rt_i64(p.last_sent as int, a5);
    lemma_rt_char(']', rest);
    assert(a5 =~= seq![']'] + rest);
}

/// A calendar-conditional entry: its action and its condition.
pub open spec fn spec_render_dct(t: DateConditionalTaskV) -> Seq<char> {
    seq!['[', '"', 'C', '"', ','] + spec_render_action(t.task) + seq![','] + spec_render_condition(
        t.condition,
    ) + seq![']']
}

/// Parse the tail of a calendar-conditional entry, after its tag.
pub open spec fn spec_parse_dct_tail(s: Seq<char>) -> Option<(DateConditionalTaskV, Seq<char>)> {
    match spec_parse_action(s) {
        None => None,
        Some((task, s1)) => match spec_parse_char(s1, ',') {
            None => None,
            Some(s2) => match spec_parse_condition(s2) {
                None => None,
                Some((condition, s3)) => match spec_parse_char(s3, ']') {
                    None => None,
                    Some(s4) => Some((DateConditionalTaskV { task, condition }, s4)),
                },
            },
        },
    }
}

#[verifier::spinoff_prover]
#[verifier::rlimit(100)]
proof fn lemma_rt_dct_tail(t: DateConditionalTaskV, rest: Seq<char>)
    ensures
        spec_parse_dct_tail(
            spec_render_action(t.task) + seq![','] + spec_render_condition(t.condition)
                + seq![']'] + rest,
        ) == Some((t, rest)),
{
    let s = spec_render_action(t.task) + seq![','] + spec_render_condition(t.condition)
        + seq![']'] + rest;
    let a1 = seq![','] + spec_render_condition(t.condition) + seq![']'] + rest;
    assert(s =~= spec_render_action(t.task) + a1);
    lemma_rt_action(t.task, a1);
    let a2 = spec_render_condition(t.condition) + seq![']'] + rest;
    assert(a1 =~= seq![','] + a2);
    lemma_rt_char(',', a2);
    let a3 = seq![']'] + rest;
    assert(a2 =~= spec_render_condition(t.condition) + a3);
    lemma_rt_condition(t.condition, a3);
    lemma_rt_char(']', rest);
    assert(a3 =~= seq![']'] + rest);
}

/// One task of any kind, dispatched by its tag.
pub open spec fn spec_render_task(t: TaskTypeV) -> Seq<char> {
    match t {
        TaskTypeV::Gulag(g) => spec_render_gulag(g),
        TaskTypeV::PeriodicTask(p) => spec_render_periodic(p),
        TaskTypeV::DateConditionalTask(d) => spec_render_dct(d),
    }
}

/// Parse one task of any kind.
pub open spec fn spec_parse_task(s: Seq<char>) -> Option<(TaskTypeV, Seq<char>)> {
    match spec_parse_tag(s, 'G') {
        Some(s1) => match spec_parse_string(s1) {
            None => None,
            Some((name, s2)) => match spec_parse_char(s2, ',') {
                None => None,
                Some(s3) => match spec_parse_gulag_tail(s3) {
                    None => None,
                    Some(((id, roles, end), s4)) => Some(
                        (TaskTypeV::Gulag(GulagV { user: (name, id), roles, end }), s4),
                    ),
                },
            },
        },
        None => match spec_parse_tag(s, 'P') {
            Some(s1) => match spec_parse_periodic_tail(s1) {
                None => None,
                Some((p, s2)) => Some((TaskTypeV::PeriodicTask(p), s2)),
            },
            None => match spec_parse_tag(s, 'C') {
                Some(s1) => match spec_parse_dct_tail(s1) {
                    None => None,
                    Some((d, s2)) => Some((TaskTypeV::DateConditionalTask(d), s2)),
                },
                None => None,
            },
        },
    }
}

#[verifier::spinoff_prover]
#[verifier::rlimit(100)]
proof fn lemma_rt_task_gulag(g: GulagV, rest: Seq<char>)
    ensures
        spec_parse_task(spec_render_gulag(g) + rest) == Some((TaskTypeV::Gulag(g), rest)),
{
    let s = spec_render_gulag(g) + rest;
    let a1 = spec_render_string(g.user.0) + seq![','] + spec_render_gulag_tail(g) + rest;
    assert(s =~= seq!['[', '"', 'G', '"', ','] + a1);
    assert(s.take(5) =~= seq!['[', '"', 'G', '"', ',']);
    lemma_rt_tag('G', a1);
    let a2 = seq![','] + spec_render_gulag_tail(g) + rest;
    assert(a1 =~= spec_render_string(g.user.0) + a2);
    lemma_rt_string(g.user.0, a2);
    let a3 = spec_render_gulag_tail(g) + rest;
    assert(a2 =~= seq![','] + a3);
    lemma_rt_char(',', a3);
    lemma_rt_gulag_tail(g, rest);
    assert((g.user.0, g.user.1) == g.user);
}

#[verifier::spinoff_prover]
#[verifier::rlimit(100)]
proof fn lemma_rt_task_periodic(p: PeriodicTaskV, rest: Seq<char>)
    ensures
        spec_parse_task(spec_render_periodic(p) + rest) == Some((TaskTypeV::PeriodicTask(p), rest)),
{
    let s = spec_render_periodic(p) + rest;
    let a1 = spec_render_action(p.task) + seq![','] + spec_render_i64(p.diff as int) + seq![',']
        + spec_render_i64(p.last_sent as int) + seq![']'] + rest;
    assert(s =~= seq!['[', '"', 'P', '"', ','] + a1);
    assert(s.take(5) =~= seq!['[', '"', 'P', '"', ',']);
    lemma_tag_mismatch(s, 'P', 'G');
    lemma_rt_tag('P', a1);
    lemma_rt_periodic_tail(p, rest);
}

#[verifier::spinoff_prover]
#[verifier::rlimit(100)]
proof fn lemma_rt_task_dct(d: DateConditionalTaskV, rest: Seq<char>)
    ensures
        spec_parse_task(spec_render_dct(d) + rest) == Some(
            (TaskTypeV::DateConditionalTask(d), rest),
        ),
{
    let s = spec_render_dct(d) + rest;
    let a1 = spec_render_action(d.task) + seq![','] + spec_render_condition(d.condition)
        + seq![']'] + rest;
    assert(s =~= seq!['[', '"', 'C', '"', ','] + a1);
    assert(s.take(5) =~= seq!['[', '"', 'C', '"', ',']);
    lemma_tag_mismatch(s, 'C', 'G');
    lemma_tag_mismatch(s, 'C', 'P');
    lemma_rt_tag('C', a1);
    lemma_rt_dct_tail(d, rest);
}

/// A task reads back as itself.
pub proof fn lemma_rt_task(t: TaskTypeV, rest: Seq<char>)
    ensures
        spec_parse_task(spec_render_task(t) + rest) == Some((t, rest)),
{
    match t {
        TaskTypeV::Gulag(g) => lemma_rt_task_gulag(g, rest),
        TaskTypeV::PeriodicTask(p) => lemma_rt_task_periodic(p, rest),
        TaskTypeV::DateConditionalTask(d) => lemma_rt_task_dct(d, rest),
    }
}

/// Every rendered task opens with a bracket and a quote.
proof fn lemma_render_task_first(t: TaskTypeV)
    ensures
        spec_render_task(t).len() >= 1,
        spec_render_task(t)[0] == '[',
{
    match t {
        TaskTypeV::Gulag(_) => {},
        TaskTypeV::PeriodicTask(_) => {},
        TaskTypeV::DateConditionalTask(_) => {},
    }
}

/// One or more tasks separated by commas, then the closing bracket.
pub open spec fn spec_render_task_items(items: Seq<TaskTypeV>) -> Seq<char>
    decreases items.len(),
{
    if items.len() <= 1 {
        spec_render_task(items[0]) + seq![']']
    } else {
        spec_render_task(items[0]) + seq![','] + spec_render_task_items(items.drop_first())
    }
}

/// Parse tasks until the closing bracket.
pub open spec fn spec_parse_task_items(s: Seq<char>) -> Option<(Seq<TaskTypeV>, Seq<char>)>
    decreases s.len(),
{
    match spec_parse_task(s) {
        None => None,
        Some((t, rem)) => if rem.len() >= s.len() {
            None
        } else if rem.len() > 0 && rem[0] == ',' {
            match spec_parse_task_items(rem.drop_first()) {
                Some((ts, rem2)) => Some((seq![t] + ts, rem2)),
                None => None,
            }
        } else if rem.len() > 0 && rem[0] == ']' {
            Some((seq![t], rem.drop_first()))
        } else {
            None
        },
    }
}

proof fn lemma_rt_task_items(items: Seq<TaskTypeV>, rest: Seq<char>)
    requires
        items.len() >= 1,
    ensures
        spec_parse_task_items(spec_render_task_items(items) + rest) == Some((items, rest)),
    decreases items.len(),
{
    let s = spec_render_task_items(items) + rest;
    let t = items[0];
    lemma_render_task_first(t);
    if items.len() == 1 {
        let a1 = seq![']'] + rest;
        assert(s =~= spec_render_task(t) + a1);
        lemma_rt_task(t, a1);
        assert(a1[0] == ']');
        assert(a1.drop_first() =~= rest);
        assert(a1.len() < s.len());
        assert(seq![t] =~= items);
    } else {
        let tail = spec_render_task_items(items.drop_first()) + rest;
        let a1 = seq![','] + tail;
        assert(s =~= spec_render_task(t) + a1);
        lemma_rt_task(t, a1);
        assert(a1[0] == ',');
        assert(a1.len() < s.len());
        assert(a1.drop_first() =~= tail);
        lemma_rt_task_items(items.drop_first(), rest);
        assert(seq![t] + items.drop_first() =~= items);
    }
}

/// The whole durable file: a bracketed list of tasks, possibly empty.
pub open spec fn spec_render_tasks(items: Seq<TaskTypeV>) -> Seq<char> {
    if items.len() == 0 {
        seq!['[', ']']
    } else {
        seq!['['] + spec_render_task_items(items)
    }
}

/// Parse the whole durable file.
pub open spec fn spec_parse_tasks(s: Seq<char>) -> Option<(Seq<TaskTypeV>, Seq<char>)> {
    match spec_parse_char(s, '[') {
        None => None,
        Some(s1) => if s1.len() > 0 && s1[0] == ']' {
            Some((Seq::empty(), s1.drop_first()))
        } else {
            spec_parse_task_items(s1)
        },
    }
}

/// The persisted text of any task list parses back to exactly that list:
/// what the store writes out, a later start reads in unchanged.
pub proof fn lemma_tasks_round_trip(items: Seq<TaskTypeV>)
    ensures
        spec_parse_tasks(spec_render_tasks(items)) == Some((items, Seq::<char>::empty())),
{
    lemma_rt_tasks(items, Seq::empty());
    assert(spec_render_tasks(items) + Seq::<char>::empty() =~= spec_render_tasks(items));
}

/// The task list reads back as itself: rendering any list of tasks and
/// parsing the result restores the list exactly, with nothing left over.
pub proof fn lemma_rt_tasks(items: Seq<TaskTypeV>, rest: Seq<char>)
    ensures
        spec_parse_tasks(spec_render_tasks(items) + rest) == Some((items, rest)),
{
    let s = spec_render_tasks(items) + rest;
    if items.len() == 0 {
        let a1 = seq![']'] + rest;
        assert(s =~= seq!['['] + a1);
        lemma_rt_char('[', a1);
        assert(a1[0] == ']');
        assert(a1.drop_first() =~= rest);
        assert(Seq::<TaskTypeV>::empty() =~= items);
    } else {
        let a1 = spec_render_task_items(items) + rest;
        assert(s =~= seq!['['] + a1);
        lemma_rt_char('[', a1);
        lemma_render_task_first(items[0]);
        assert(a1[0] == '[');
        lemma_rt_task_items(items, rest);
    }
}

} // verus!
