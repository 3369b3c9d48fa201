//! Small self-contained pieces: the process arguments, the reminder-day
//! arithmetic, and the scanner that finds task-creation commands inside a
//! chat message.

use vstd::prelude::*;
use crate::persist::{str_to_chars, chars_to_string};

verus! {

/// The process arguments: where the configuration file lives.
#[derive(Debug)]
pub struct Args {
    pub config_file_path: String,
}

/// How many days the month has, with February read off the simple
/// four-year leap rule.
pub open spec fn spec_days_in_month(year: u64, month: u64) -> u64 {
    if month == 2 {
        if year % 4 == 0 {
            29
        } else {
            28
        }
    } else if month == 4 || month == 6 || month == 9 || month == 11 {
        30
    } else {
        31
    }
}

/// Whether the day of the month is a reminder day: its last digit is an
/// eight.
pub fn is_kirb_day(day: u64) -> (r: bool)
    ensures
        r == (day % 10 == 8),
{
    day % 10 == 8
}

/// Days from the given date to the eighth of the next month: the rest of
/// this month, then eight more.
pub fn days_to_next_kirb_day(year: u64, month: u64, day: u64) -> (r: u64)
    requires
        1 <= month <= 12,
        1 <= day <= spec_days_in_month(year, month),
    ensures
        r == spec_days_in_month(year, month) - day + 8,
{
    let days_in_month: u64 = if month == 2 {
        if year % 4 == 0 {
            29
        } else {
            28
        }
    } else if month == 4 || month == 6 || month == 9 || month == 11 {
        30
    } else {
        31
    };
    days_in_month - day + 8
}

/// The prefix that introduces a task-creation command.
pub open spec fn spec_ctt_prefix() -> Seq<char> {
    seq!['=', '>', 'c', 'r', 'e', 'a', 't', 'e', '_', 't', 'a', 's', 'k', ' ']
}

/// The position of the first line break, or the length when there is
/// none.
pub open spec fn spec_first_newline(s: Seq<char>) -> int
    decreases s.len(),
{
    if s.len() == 0 {
        0
    } else if s[0] == '\n' {
        0
    } else {
        1 + spec_first_newline(s.drop_first())
    }
}

proof fn lemma_first_newline_at(s: Seq<char>, n: int)
    requires
        0 <= n <= s.len(),
        forall|k: int| 0 <= k < n ==> s[k] != '\n',
        n < s.len() ==> s[n] == '\n',
    ensures
        spec_first_newline(s) == n,
    decreases n,
{
    if n == 0 {
    } else {
        assert(s[0] != '\n');
        assert forall|k: int| 0 <= k < n - 1 implies s.drop_first()[k] != '\n' by {
            assert(s.drop_first()[k] == s[k + 1]);
        }
        lemma_first_newline_at(s.drop_first(), n - 1);
    }
}

/// The command captures found in a message: at each occurrence of the
/// prefix, the rest of that line, when it is not empty; the scan resumes
/// after the capture, and otherwise moves on one character.
pub open spec fn spec_ctt_matches(s: Seq<char>) -> Seq<Seq<char>>
    decreases s.len(),
{
    if s.len() < 14 {
        Seq::empty()
    } else if s.take(14) == spec_ctt_prefix() {
        let cap_len = spec_first_newline(s.skip(14));
        if cap_len <= 0 || cap_len > s.len() - 14 {
            spec_ctt_matches(s.drop_first())
        } else {
            seq![s.skip(14).take(cap_len)] + spec_ctt_matches(s.skip(14 + cap_len))
        }
    } else {
        spec_ctt_matches(s.drop_first())
    }
}

/// Find every task-creation command in a message: each element holds the
/// captured argument text of one command.
#[verifier::spinoff_prover]
#[verifier::rlimit(100)]
pub fn get_ctt_matches(msg: &str) -> (r: Vec<Vec<String>>)
    ensures
        r@.len() == spec_ctt_matches(msg@).len(),
        forall|i: int| 0 <= i < r@.len() ==> (#[trigger] r@[i]).deep_view() == seq![
            spec_ctt_matches(msg@)[i],
        ],
{
    let s = str_to_chars(msg);
    let n = s.len();
    let mut out: Vec<Vec<String>> = Vec::new();
    let mut i: usize = 0;
    proof {
        assert(s@.skip(0) =~= msg@);
    }
    while i < n
        invariant
            n == s@.len(),
            s@ == msg@,
            i <= n,
            out@.len() + spec_ctt_matches(s@.skip(i as int)).len() == spec_ctt_matches(msg@).len(),
            forall|k: int| 0 <= k < out@.len() ==> (#[trigger] out@[k]).deep_view() == seq![
                spec_ctt_matches(msg@)[k],
            ],
            forall|k: int| 0 <= k < spec_ctt_matches(s@.skip(i as int)).len()
                ==> #[trigger] spec_ctt_matches(s@.skip(i as int))[k] == spec_ctt_matches(msg@)[
                out@.len() + k
            ],
        decreases n - i,
    {
        let ghost sk = s@.skip(i as int);
        let hit = n - i >= 14 && s[i] == '=' && s[i + 1] == '>' && s[i + 2] == 'c' && s[i + 3]
            == 'r' && s[i + 4] == 'e' && s[i + 5] == 'a' && s[i + 6] == 't' && s[i + 7] == 'e'
            && s[i + 8] == '_' && s[i + 9] == 't' && s[i + 10] == 'a' && s[i + 11] == 's' && s[i
            + 12] == 'k' && s[i + 13] == ' ';
        proof {
            if hit {
                assert(sk.take(14) =~= spec_ctt_prefix());
            } else {
                if sk.len() >= 14 && sk.take(14) == spec_ctt_prefix() {
                    assert(sk.take(14)[0] == '=' && sk.take(14)[1] == '>' && sk.take(14)[2] == 'c'
                        && sk.take(14)[3] == 'r' && sk.take(14)[4] == 'e' && sk.take(14)[5] == 'a'
                        && sk.take(14)[6] == 't' && sk.take(14)[7] == 'e' && sk.take(14)[8] == '_'
                        && sk.take(14)[9] == 't' && sk.take(14)[10] == 'a' && sk.take(14)[11]
                        == 's' && sk.take(14)[12] == 'k' && sk.take(14)[13] == ' ');
                    assert(false);
                }
            }
        }
        if hit {
            // find the end of the line after the prefix
            let cap_start = i + 14;
            let mut j = cap_start;
            while j < n && s[j] != '\n'
                invariant
                    cap_start <= j <= n,
                    n == s@.len(),
                    forall|k: int| cap_start <= k < j ==> s@[k] != '\n',
                decreases n - j,
            {
                j = j + 1;
            }
            proof {
                let tail = s@.skip(cap_start as int);
                assert forall|k: int| 0 <= k < j - cap_start implies tail[k] != '\n' by {
                    assert(tail[k] == s@[cap_start + k]);
                }
                if j < n {
                    assert(tail[j - cap_start as int] == s@[j as int]);
                }
                lemma_first_newline_at(tail, j - cap_start as int);
            }
            if j == cap_start {
                // the prefix is followed immediately by a line break or
                // the end: no capture here, move on one character
                proof {
                    assert(sk.drop_first() =~= s@.skip(i + 1 as int));
                }
                i = i + 1;
            } else {
                let mut cap_chars: Vec<char> = Vec::new();
                let mut k = cap_start;
                while k < j
                    invariant
                        cap_start <= k <= j <= n,
                        n == s@.len(),
                        cap_chars@ == s@.subrange(cap_start as int, k as int),
                    decreases j - k,
                {
                    cap_chars.push(s[k]);
                    proof {
                        assert(cap_chars@ =~= s@.subrange(cap_start as int, k + 1 as int));
                    }
                    k = k + 1;
                }
                let cap = chars_to_string(&cap_chars);
                let mut inner: Vec<String> = Vec::new();
                inner.push(cap);
                let ghost out0 = out@;
                out.push(inner);
                proof {
                    let cap_len: int = j - cap_start as int;
                    assert(sk.skip(14) =~= s@.skip(cap_start as int));
                    lemma_first_newline_at(s@.skip(cap_start as int), cap_len);
                    assert(spec_first_newline(sk.skip(14)) == cap_len);
                    assert(1 <= cap_len <= sk.len() - 14);
                    assert(cap@ =~= s@.skip(cap_start as int).take(cap_len));
                    assert(cap@ == sk.skip(14).take(cap_len));
                    assert(inner.deep_view() =~= seq![sk.skip(14).take(cap_len)]);
                    assert(sk.skip(14 + cap_len) =~= s@.skip(j as int));
                    let rest = spec_ctt_matches(s@.skip(j as int));
                    assert(spec_ctt_matches(sk) == seq![sk.skip(14).take(cap_len)] + rest);
                    assert(spec_ctt_matches(sk)[0] == sk.skip(14).take(cap_len));
                    assert(out@[out0.len() as int].deep_view() == seq![
                        spec_ctt_matches(msg@)[out0.len() as int],
                    ]);
                    assert forall|k: int| 0 <= k < rest.len() implies #[trigger] rest[k]
                        == spec_ctt_matches(msg@)[out@.len() + k] by {
                        assert(spec_ctt_matches(sk)[k + 1] == rest[k]);
                    }
                }
                i = j;
            }
        } else {
            proof {
                if sk.len() < 14 {
                    assert(spec_ctt_matches(sk) =~= Seq::<Seq<char>>::empty());
                    assert(spec_ctt_matches(s@.skip(i + 1 as int)).len() == 0) by {
                        lemma_ctt_matches_short(s@.skip(i + 1 as int));
                    }
                }
                assert(sk.drop_first() =~= s@.skip(i + 1 as int));
            }
            i = i + 1;
        }
    }
    proof {
        assert(s@.skip(n as int) =~= Seq::<char>::empty());
    }
    out
}

/// A text shorter than the prefix holds no command.
proof fn lemma_ctt_matches_short(s: Seq<char>)
    requires
        s.len() < 14,
    ensures
        spec_ctt_matches(s).len() == 0,
{
}

/// Whether `c` is one of the characters chat markup gives a meaning.
pub open spec fn spec_is_markup(c: char) -> bool {
    c == '*' || c == '|' || c == '_' || c == '~' || c == '`'
}

/// A text with every markup character disarmed: each one is replaced by
/// a backslash and an asterisk, and everything else stands unchanged.
pub open spec fn spec_escape_formatting(s: Seq<char>) -> Seq<char>
    decreases s.len(),
{
    if s.len() == 0 {
        Seq::empty()
    } else {
        (if spec_is_markup(s[0]) {
            seq!['\\', '*']
        } else {
            seq![s[0]]
        }) + spec_escape_formatting(s.drop_first())
    }
}

proof fn lemma_escape_formatting_snoc(s: Seq<char>, c: char)
    ensures
        spec_escape_formatting(s.push(c)) == spec_escape_formatting(s) + (if spec_is_markup(c) {
            seq!['\\', '*']
        } else {
            seq![c]
        }),
    decreases s.len(),
{
    let tail = if spec_is_markup(c) {
        seq!['\\', '*']
    } else {
        seq![c]
    };
    if s.len() == 0 {
        assert(s.push(c)[0] == c);
        assert(s.push(c).drop_first() =~= Seq::<char>::empty());
        assert(spec_escape_formatting(Seq::<char>::empty()) =~= Seq::<char>::empty());
        assert(spec_escape_formatting(s.push(c)) =~= tail);
        assert(spec_escape_formatting(s) + tail =~= tail);
    } else {
        assert(s.push(c)[0] == s[0]);
        assert(s.push(c).drop_first() =~= s.drop_first().push(c));
        lemma_escape_formatting_snoc(s.drop_first(), c);
        assert(spec_escape_formatting(s.push(c)) =~= spec_escape_formatting(s) + tail);
    }
}

/// Disarm chat markup in a text before echoing it back.
pub fn escape_formatting(s: &str) -> (r: String)
    ensures
        r@ == spec_escape_formatting(s@),
{
    let n = s.unicode_len();
    let mut out: Vec<char> = Vec::new();
    let mut i: usize = 0;
    proof {
        assert(s@.take(0) =~= Seq::<char>::empty());
    }
    while i < n
        invariant
            n == s@.len(),
            i <= n,
            out@ == spec_escape_formatting(s@.take(i as int)),
        decreases n - i,
    {
        let c = s.get_char(i);
        if c == '*' || c == '|' || c == '_' || c == '~' || c == '`' {
            out.push('\\');
            out.push('*');
        } else {
            out.push(c);
        }
        proof {
            lemma_escape_formatting_snoc(s@.take(i as int), c);
            assert(s@.take(i + 1 as int) =~= s@.take(i as int).push(s@[i as int]));
            assert(out@ =~= spec_escape_formatting(s@.take(i + 1 as int)));
        }
        i = i + 1;
    }
    proof {
        assert(s@.take(n as int) =~= s@);
    }
    chars_to_string(&out)
}

} // verus!
