//! The executable side of the durable format: rendering a task list to
//! its text and parsing it back, each tied to the specification in
//! [`crate::codec`], whose round-trip theorem then carries over to these
//! functions.

use vstd::prelude::*;
use crate::action::Task;
use crate::codec::{
    spec_digit_char, spec_hex_char, spec_render_u64, spec_render_i64, spec_render_bool,
    spec_esc, spec_esc_char, spec_render_string, spec_render_opt_string, spec_render_tod,
    spec_render_opt_tod, spec_render_opt_num, spec_render_condition, spec_render_field,
    spec_render_field_items, spec_render_opt_fields, spec_render_opt3, spec_render_colour,
    spec_render_embed, spec_render_embed_mid, spec_render_embed_tail, spec_render_message,
    spec_render_action, spec_render_role_items, spec_render_roles,
    spec_render_gulag, spec_render_gulag_tail,
    spec_render_task, spec_render_task_items, spec_render_tasks,
    spec_is_digit, spec_digit_val, spec_hex_val,
    spec_parse_char, spec_parse_u64, spec_parse_u64_digits, spec_parse_i64, spec_parse_bool,
    spec_parse_escape, spec_parse_str_body, spec_parse_string, spec_parse_opt_string,
    spec_parse_bounded, spec_parse_tod, spec_parse_opt_tod, spec_parse_opt_num,
    spec_parse_condition, spec_parse_field, spec_parse_field_items,
    spec_parse_opt_fields, spec_parse_embed,
    spec_parse_embed_mid, spec_parse_embed_tail, spec_parse_message, spec_parse_tag,
    spec_parse_action, spec_parse_role, spec_parse_role_items, spec_parse_roles,
    spec_parse_gulag_tail, spec_parse_periodic_tail, spec_parse_dct_tail, spec_parse_task,
    spec_parse_task_items, spec_parse_tasks,
};
use crate::condition::{DateCondition, TimeOfDay};
use crate::message::{EmbedMessage, MessageType};
use crate::tasks::{Gulag, PeriodicTask, DateConditionalTask, TaskError, TaskType};

verus! {

/// Relies on `str::chars`: the iterator yields exactly the characters of
/// the string, in order; collecting them changes nothing.
#[verifier::external_body]
pub(crate) fn str_to_chars(s: &str) -> (v: Vec<char>)
    ensures
        v@ == s@,
{
    s.chars().collect()
}

/// Relies on `FromIterator for String`: collecting characters builds the
/// string of exactly those characters, in order.
#[verifier::external_body]
pub(crate) fn chars_to_string(v: &Vec<char>) -> (s: String)
    ensures
        s@ == v@,
{
    v.iter().collect()
}

// ---------------------------------------------------------------------
// rendering
// ---------------------------------------------------------------------

/// The decimal digit character for `d`.
fn digit_char(d: u64) -> (c: char)
    requires
        d < 10,
    ensures
        c == spec_digit_char(d as int),
{
    if d == 0 { '0' }
    else if d == 1 { '1' }
    else if d == 2 { '2' }
    else if d == 3 { '3' }
    else if d == 4 { '4' }
    else if d == 5 { '5' }
    else if d == 6 { '6' }
    else if d == 7 { '7' }
    else if d == 8 { '8' }
    else { '9' }
}

/// The hexadecimal digit character for `d`.
fn hex_char(d: u32) -> (c: char)
    requires
        d < 16,
    ensures
        c == spec_hex_char(d as int),
{
    if d < 10 {
        digit_char(d as u64)
    } else if d == 10 { 'a' }
    else if d == 11 { 'b' }
    else if d == 12 { 'c' }
    else if d == 13 { 'd' }
    else if d == 14 { 'e' }
    else { 'f' }
}

/// Append the canonical decimal rendering of `n`.
fn render_u64(n: u64, out: &mut Vec<char>)
    ensures
        final(out)@ == old(out)@ + spec_render_u64(n as int),
    decreases n,
{
    if n < 10 {
        out.push(digit_char(n));
        proof {
            assert(out@ =~= old(out)@ + spec_render_u64(n as int));
        }
    } else {
        render_u64(n / 10, out);
        out.push(digit_char(n % 10));
        proof {
            assert(out@ =~= old(out)@ + spec_render_u64(n as int));
        }
    }
}

/// Append the decimal rendering of a signed count of seconds.
fn render_i64(n: i64, out: &mut Vec<char>)
    ensures
        final(out)@ == old(out)@ + spec_render_i64(n as int),
{
    if n < 0 {
        out.push('-');
        let m = (-(n as i128)) as u64;
        render_u64(m, out);
        proof {
            assert(out@ =~= old(out)@ + spec_render_i64(n as int));
        }
    } else {
        render_u64(n as u64, out);
    }
}

/// Append `true` or `false`.
fn render_bool(b: bool, out: &mut Vec<char>)
    ensures
        final(out)@ == old(out)@ + spec_render_bool(b),
{
    if b {
        out.push('t');
        out.push('r');
        out.push('u');
        out.push('e');
    } else {
        out.push('f');
        out.push('a');
        out.push('l');
        out.push('s');
        out.push('e');
    }
    proof {
        assert(out@ =~= old(out)@ + spec_render_bool(b));
    }
}

/// Escaping one character appended to an escaped prefix escapes the
/// extended string.
proof fn lemma_esc_snoc(t: Seq<char>, c: char)
    ensures
        spec_esc(t.push(c)) == spec_esc(t) + spec_esc_char(c),
    decreases t.len(),
{
    if t.len() == 0 {
        assert(t.push(c)[0] == c);
        assert(t.push(c).drop_first() =~= Seq::<char>::empty());
        assert(spec_esc(t.push(c)) == spec_esc_char(c) + spec_esc(Seq::<char>::empty()));
        assert(spec_esc(Seq::<char>::empty()) =~= Seq::<char>::empty());
        assert(spec_esc_char(c) + Seq::<char>::empty() =~= spec_esc_char(c));
        assert(spec_esc(t) + spec_esc_char(c) =~= spec_esc_char(c));
    } else {
        assert(t.push(c)[0] == t[0]);
        assert(t.push(c).drop_first() =~= t.drop_first().push(c));
        lemma_esc_snoc(t.drop_first(), c);
        assert(spec_esc(t.push(c)) =~= spec_esc(t) + spec_esc_char(c));
    }
}

/// Append a quoted, escaped string.
fn render_string(t: &str, out: &mut Vec<char>)
    ensures
        final(out)@ == old(out)@ + spec_render_string(t@),
{
    out.push('"');
    let n = t.unicode_len();
    let mut i: usize = 0;
    proof {
        assert(t@.take(0) =~= Seq::<char>::empty());
        assert(out@ =~= old(out)@ + seq!['"'] + spec_esc(t@.take(0)));
    }
    while i < n
        invariant
            n == t@.len(),
            i <= n,
            out@ == old(out)@ + seq!['"'] + spec_esc(t@.take(i as int)),
        decreases n - i,
    {
        let c = t.get_char(i);
        let cu = c as u32;
        if c == '"' {
            out.push('\\');
            out.push('"');
        } else if c == '\\' {
            out.push('\\');
            out.push('\\');
        } else if cu < 32 {
            out.push('\\');
            out.push('u');
            out.push('0');
            out.push('0');
            out.push(hex_char(cu / 16));
            out.push(hex_char(cu % 16));
        } else {
            out.push(c);
        }
        proof {
            lemma_esc_snoc(t@.take(i as int), c);
            assert(t@.take(i + 1 as int) =~= t@.take(i as int).push(t@[i as int]));
            assert(out@ =~= old(out)@ + seq!['"'] + spec_esc(t@.take(i + 1 as int)));
        }
        i = i + 1;
    }
    out.push('"');
    proof {
        assert(t@.take(n as int) =~= t@);
        assert(out@ =~= old(out)@ + spec_render_string(t@));
    }
}

/// Append `null` or a quoted string.
fn render_opt_string(o: &Option<String>, out: &mut Vec<char>)
    ensures
        final(out)@ == old(out)@ + spec_render_opt_string(o.deep_view()),
{
    match o {
        None => {
            out.push('n');
            out.push('u');
            out.push('l');
            out.push('l');
            proof {
                assert(out@ =~= old(out)@ + spec_render_opt_string(None));
            }
        },
        Some(t) => {
            render_string(t.as_str(), out);
        },
    }
}

/// Append a time-of-day triple.
fn render_tod(t: &TimeOfDay, out: &mut Vec<char>)
    ensures
        final(out)@ == old(out)@ + spec_render_tod(*t),
{
    out.push('[');
    render_u64(t.hour as u64, out);
    out.push(',');
    render_u64(t.minute as u64, out);
    out.push(',');
    render_u64(t.second as u64, out);
    out.push(']');
    proof {
        assert(out@ =~= old(out)@ + spec_render_tod(*t));
    }
}

/// Append `null` or a time of day.
fn render_opt_tod(o: &Option<TimeOfDay>, out: &mut Vec<char>)
    ensures
        final(out)@ == old(out)@ + spec_render_opt_tod(*o),
{
    match o {
        None => {
            out.push('n');
            out.push('u');
            out.push('l');
            out.push('l');
            proof {
                assert(out@ =~= old(out)@ + spec_render_opt_tod(None));
            }
        },
        Some(t) => {
            render_tod(t, out);
        },
    }
}

/// Append `null` or an unsigned number.
fn render_opt_u64(o: Option<u64>, out: &mut Vec<char>)
    ensures
        final(out)@ == old(out)@ + spec_render_opt_num(
            match o {
                Some(v) => Some(v as int),
                None => None,
            },
        ),
{
    match o {
        None => {
            out.push('n');
            out.push('u');
            out.push('l');
            out.push('l');
            proof {
                assert(out@ =~= old(out)@ + spec_render_opt_num(None));
            }
        },
        Some(v) => {
            render_u64(v, out);
        },
    }
}

/// Append a calendar condition.
#[verifier::spinoff_prover]
fn render_condition(c: &DateCondition, out: &mut Vec<char>)
    ensures
        final(out)@ == old(out)@ + spec_render_condition(*c),
{
    out.push('[');
    render_opt_tod(&c.time, out);
    out.push(',');
    let wd: Option<u64> = match c.weekday {
        Some(w) => Some(w as u64),
        None => None,
    };
    let dom: Option<u64> = match c.day_of_month {
        Some(d) => Some(d as u64),
        None => None,
    };
    let moy: Option<u64> = match c.month_of_year {
        Some(m) => Some(m as u64),
        None => None,
    };
    render_opt_u64(wd, out);
    out.push(',');
    render_opt_u64(dom, out);
    out.push(',');
    render_opt_u64(moy, out);
    out.push(']');
    proof {
        assert(out@ =~= old(out)@ + spec_render_condition(*c));
    }
}

/// Append one embed field.
#[verifier::spinoff_prover]
fn render_field(f: &(String, String, bool), out: &mut Vec<char>)
    ensures
        final(out)@ == old(out)@ + spec_render_field(f.deep_view()),
{
    out.push('[');
    render_string(f.0.as_str(), out);
    out.push(',');
    render_string(f.1.as_str(), out);
    out.push(',');
    render_bool(f.2, out);
    out.push(']');
    proof {
        assert(out@ =~= old(out)@ + spec_render_field(f.deep_view()));
    }
}

/// Append `null` or the bracketed list of embed fields.
#[verifier::spinoff_prover]
fn render_opt_fields(o: &Option<Vec<(String, String, bool)>>, out: &mut Vec<char>)
    ensures
        final(out)@ == old(out)@ + spec_render_opt_fields(o.deep_view()),
{
    match o {
        None => {
            out.push('n');
            out.push('u');
            out.push('l');
            out.push('l');
            proof {
                assert(out@ =~= old(out)@ + spec_render_opt_fields(None));
            }
        },
        Some(items) => {
            out.push('[');
            if items.len() == 0 {
                out.push(']');
                proof {
                    assert(items.deep_view() =~= Seq::<(Seq<char>, Seq<char>, bool)>::empty());
                    assert(out@ =~= old(out)@ + spec_render_opt_fields(o.deep_view()));
                }
            } else {
                let n = items.len();
                let mut k: usize = 0;
                proof {
                    assert(items.deep_view().skip(0) =~= items.deep_view());
                }
                while k < n
                    invariant
                        n == items@.len(),
                        n >= 1,
                        k <= n,
                        k < n ==> out@ + spec_render_field_items(items.deep_view().skip(k as int))
                            == old(out)@ + seq!['['] + spec_render_field_items(items.deep_view()),
                        k == n ==> out@ == old(out)@ + seq!['['] + spec_render_field_items(
                            items.deep_view(),
                        ),
                    decreases n - k,
                {
                    let ghost pre = items.deep_view().skip(k as int);
                    render_field(&items[k], out);
                    proof {
                        assert(pre[0] == items.deep_view()[k as int]);
                        assert(pre.drop_first() =~= items.deep_view().skip(k + 1 as int));
                    }
                    if k == n - 1 {
                        out.push(']');
                        proof {
                            assert(pre.len() == 1);
                        }
                    } else {
                        out.push(',');
                        proof {
                            assert(pre.len() > 1);
                        }
                    }
                    k = k + 1;
                }
                proof {
                    assert(out@ =~= old(out)@ + spec_render_opt_fields(o.deep_view()));
                }
            }
        },
    }
}

/// Append the tail of an embed: footer, images, timestamp flag and
/// titles.
#[verifier::spinoff_prover]
#[verifier::rlimit(100)]
fn render_embed_tail_part(e: &EmbedMessage, out: &mut Vec<char>)
    ensures
        final(out)@ == old(out)@ + spec_render_embed_tail(e.deep_view()),
{
    render_opt_string(&e.footer_text, out);
    out.push(',');
    render_opt_string(&e.image_url, out);
    out.push(',');
    render_opt_string(&e.thumbnail_url, out);
    out.push(',');
    render_bool(e.timestamp, out);
    out.push(',');
    render_opt_string(&e.title, out);
    out.push(',');
    render_opt_string(&e.title_url, out);
    out.push(',');
    out.push('n');
    out.push('u');
    out.push('l');
    out.push('l');
    out.push(']');
    proof {
        assert(spec_render_opt_string(None) =~= seq!['n', 'u', 'l', 'l']);
        assert(out@ =~= old(out)@ + spec_render_embed_tail(e.deep_view()));
    }
}

/// Append the middle and tail of an embed: description, fields, and what
/// follows them.
#[verifier::spinoff_prover]
#[verifier::rlimit(100)]
fn render_embed_mid_part(e: &EmbedMessage, out: &mut Vec<char>)
    ensures
        final(out)@ == old(out)@ + spec_render_embed_mid(e.deep_view()),
{
    render_opt_string(&e.description, out);
    out.push(',');
    render_opt_fields(&e.fields, out);
    out.push(',');
    render_embed_tail_part(e, out);
    proof {
        assert(out@ =~= old(out)@ + spec_render_embed_mid(e.deep_view()));
    }
}

/// Append an embed.
#[verifier::spinoff_prover]
#[verifier::rlimit(100)]
fn render_embed(e: &EmbedMessage, out: &mut Vec<char>)
    ensures
        final(out)@ == old(out)@ + spec_render_embed(e.deep_view()),
{
    out.push('[');
    render_opt_string(&e.author_icon_url, out);
    out.push(',');
    render_opt_string(&e.author_name, out);
    out.push(',');
    render_opt_string(&e.author_url, out);
    out.push(',');
    proof {
        assert(out@ =~= old(out)@ + seq!['['] + spec_render_opt3(
            e.deep_view().author_icon_url,
            e.deep_view().author_name,
            e.deep_view().author_url,
        ) + seq![',']);
    }
    let ghost mid0 = out@;
    render_u64(e.colour.0 as u64, out);
    out.push(',');
    render_u64(e.colour.1 as u64, out);
    out.push(',');
    render_u64(e.colour.2 as u64, out);
    out.push(',');
    proof {
        assert(out@ =~= mid0 + spec_render_colour(e.deep_view().colour) + seq![',']);
    }
    render_embed_mid_part(e, out);
    proof {
        assert(out@ =~= old(out)@ + spec_render_embed(e.deep_view()));
    }
}

/// Append a message.
#[verifier::spinoff_prover]
fn render_message(m: &MessageType, out: &mut Vec<char>)
    ensures
        final(out)@ == old(out)@ + spec_render_message(m.deep_view()),
{
    match m {
        MessageType::Plain { content } => {
            out.push('[');
            out.push('"');
            out.push('p');
            out.push('"');
            out.push(',');
            render_string(content.as_str(), out);
            out.push(']');
            proof {
                assert(out@ =~= old(out)@ + spec_render_message(m.deep_view()));
            }
        },
        MessageType::Embed(e) => {
            out.push('[');
            out.push('"');
            out.push('e');
            out.push('"');
            out.push(',');
            render_embed(e, out);
            out.push(']');
            proof {
                assert(out@ =~= old(out)@ + spec_render_message(m.deep_view()));
            }
        },
    }
}

/// Append an action.
#[verifier::spinoff_prover]
#[verifier::rlimit(100)]
fn render_action(a: &Task, out: &mut Vec<char>)
    ensures
        final(out)@ == old(out)@ + spec_render_action(a.deep_view()),
{
    match a {
        Task::SendMessage { send_to, message, upload_file } => {
            out.push('[');
            out.push('"');
            out.push('S');
            out.push('"');
            out.push(',');
            render_u64(*send_to, out);
            out.push(',');
            render_message(message, out);
            out.push(',');
            render_opt_string(upload_file, out);
            out.push(']');
            proof {
                assert(out@ =~= old(out)@ + spec_render_action(a.deep_view()));
            }
        },
        Task::UpdateAppearance { new_name, new_icon_filename } => {
            out.push('[');
            out.push('"');
            out.push('U');
            out.push('"');
            out.push(',');
            render_string(new_name.as_str(), out);
            out.push(',');
            render_string(new_icon_filename.as_str(), out);
            out.push(']');
            proof {
                assert(out@ =~= old(out)@ + spec_render_action(a.deep_view()));
            }
        },
    }
}

/// Append a suspension entry.
#[verifier::spinoff_prover]
#[verifier::rlimit(100)]
fn render_gulag(g: &Gulag, out: &mut Vec<char>)
    ensures
        final(out)@ == old(out)@ + spec_render_gulag(g.deep_view()),
{
    out.push('[');
    out.push('"');
    out.push('G');
    out.push('"');
    out.push(',');
    render_string(g.user.0.as_str(), out);
    out.push(',');
    let ghost mid = out@;
    render_u64(g.user.1, out);
    out.push(',');
    // the saved roles, as a bracketed list
    out.push('[');
    let n = g.roles.len();
    if n == 0 {
        out.push(']');
        proof {
            assert(g.roles.deep_view() =~= Seq::<(Seq<char>, u64)>::empty());
            assert(out@ =~= mid + spec_render_u64(g.user.1 as int) + seq![','] + spec_render_roles(
                g.roles.deep_view(),
            ));
        }
    } else {
        let mut k: usize = 0;
        proof {
            assert(g.roles.deep_view().skip(0) =~= g.roles.deep_view());
        }
        while k < n
            invariant
                n == g.roles@.len(),
                n >= 1,
                k <= n,
                k < n ==> out@ + spec_render_role_items(g.roles.deep_view().skip(k as int)) == mid
                    + spec_render_u64(g.user.1 as int) + seq![','] + seq!['[']
                    + spec_render_role_items(g.roles.deep_view()),
                k == n ==> out@ == mid + spec_render_u64(g.user.1 as int) + seq![','] + seq!['[']
                    + spec_render_role_items(g.roles.deep_view()),
            decreases n - k,
        {
            let ghost pre = g.roles.deep_view().skip(k as int);
            let (name, id) = &g.roles[k];
            out.push('[');
            render_string(name.as_str(), out);
            out.push(',');
            render_u64(*id, out);
            out.push(']');
            proof {
                assert(pre[0] == g.roles.deep_view()[k as int]);
                assert(pre.drop_first() =~= g.roles.deep_view().skip(k + 1 as int));
                assert((name@, *id) == g.roles.deep_view()[k as int]);
            }
            if k == n - 1 {
                out.push(']');
                proof {
                    assert(pre.len() == 1);
                }
            } else {
                out.push(',');
                proof {
                    assert(pre.len() > 1);
                }
            }
            k = k + 1;
        }
        proof {
            assert(out@ =~= mid + spec_render_u64(g.user.1 as int) + seq![','] + spec_render_roles(
                g.roles.deep_view(),
            ));
        }
    }
    out.push(',');
    render_i64(g.end, out);
    out.push(']');
    proof {
        assert(out@ =~= mid + spec_render_gulag_tail(g.deep_view()));
        assert(out@ =~= old(out)@ + spec_render_gulag(g.deep_view()));
    }
}

/// Append one task of any kind.
#[verifier::spinoff_prover]
fn render_task(t: &TaskType, out: &mut Vec<char>)
    ensures
        final(out)@ == old(out)@ + spec_render_task(t.deep_view()),
{
    match t {
        TaskType::Gulag(g) => {
            render_gulag(g, out);
        },
        TaskType::PeriodicTask(p) => {
            out.push('[');
            out.push('"');
            out.push('P');
            out.push('"');
            out.push(',');
            render_action(&p.task, out);
            out.push(',');
            render_i64(p.diff, out);
            out.push(',');
            render_i64(p.last_sent, out);
            out.push(']');
            proof {
                assert(out@ =~= old(out)@ + spec_render_task(t.deep_view()));
            }
        },
        TaskType::DateConditionalTask(d) => {
            out.push('[');
            out.push('"');
            out.push('C');
            out.push('"');
            out.push(',');
            render_action(&d.task, out);
            out.push(',');
            render_condition(&d.condition, out);
            out.push(']');
            proof {
                assert(out@ =~= old(out)@ + spec_render_task(t.deep_view()));
            }
        },
    }
}

/// Render the whole task list to its durable text.
#[verifier::spinoff_prover]
pub fn render_tasks(tasks: &Vec<TaskType>) -> (s: String)
    ensures
        s@ == spec_render_tasks(tasks.deep_view()),
{
    let mut out: Vec<char> = Vec::new();
    out.push('[');
    let n = tasks.len();
    if n == 0 {
        out.push(']');
        proof {
            assert(tasks.deep_view() =~= Seq::<crate::tasks::TaskTypeV>::empty());
            assert(out@ =~= spec_render_tasks(tasks.deep_view()));
        }
    } else {
        let mut k: usize = 0;
        proof {
            assert(tasks.deep_view().skip(0) =~= tasks.deep_view());
        }
        while k < n
            invariant
                n == tasks@.len(),
                n >= 1,
                k <= n,
                k < n ==> out@ + spec_render_task_items(tasks.deep_view().skip(k as int))
                    == seq!['['] + spec_render_task_items(tasks.deep_view()),
                k == n ==> out@ == seq!['['] + spec_render_task_items(tasks.deep_view()),
            decreases n - k,
        {
            let ghost pre = tasks.deep_view().skip(k as int);
            render_task(&tasks[k], &mut out);
            proof {
                assert(pre[0] == tasks.deep_view()[k as int]);
                assert(pre.drop_first() =~= tasks.deep_view().skip(k + 1 as int));
            }
            if k == n - 1 {
                out.push(']');
                proof {
                    assert(pre.len() == 1);
                }
            } else {
                out.push(',');
                proof {
                    assert(pre.len() > 1);
                }
            }
            k = k + 1;
        }
        proof {
            assert(out@ =~= spec_render_tasks(tasks.deep_view()));
        }
    }
    chars_to_string(&out)
}

/// The canonical decimal text of an unsigned number.
pub fn u64_string(n: u64) -> (s: String)
    ensures
        s@ == spec_render_u64(n as int),
{
    let mut out: Vec<char> = Vec::new();
    render_u64(n, &mut out);
    proof {
        assert(out@ =~= spec_render_u64(n as int));
    }
    chars_to_string(&out)
}

/// The canonical decimal text of a signed number.
pub fn i64_string(n: i64) -> (s: String)
    ensures
        s@ == spec_render_i64(n as int),
{
    let mut out: Vec<char> = Vec::new();
    render_i64(n, &mut out);
    proof {
        assert(out@ =~= spec_render_i64(n as int));
    }
    chars_to_string(&out)
}

// ---------------------------------------------------------------------
// parsing
// ---------------------------------------------------------------------
//
// Every parser takes the character vector and a position, and returns
// the parsed value with the position after it, exactly when the
// specification parser accepts the rest of the text.

/// Consume one expected character.
fn parse_char_at(s: &Vec<char>, i: usize, c: char) -> (r: Option<usize>)
    requires
        i <= s@.len(),
    ensures
        match r {
            Some(j) => i < j <= s@.len() && spec_parse_char(s@.skip(i as int), c) == Some(
                s@.skip(j as int),
            ),
            None => spec_parse_char(s@.skip(i as int), c) is None,
        },
{
    if i < s.len() && s[i] == c {
        proof {
            assert(s@.skip(i as int).drop_first() =~= s@.skip(i + 1 as int));
        }
        Some(i + 1)
    } else {
        None
    }
}

/// Consume the four characters `null` when they stand at `i`.
fn parse_null_at(s: &Vec<char>, i: usize) -> (r: Option<usize>)
    requires
        i <= s@.len(),
    ensures
        match r {
            Some(j) => j == i + 4 && j <= s@.len() && s@.skip(i as int).len() >= 4 && s@.skip(
                i as int,
            ).take(4) == seq!['n', 'u', 'l', 'l'] && s@.skip(i as int).skip(4) == s@.skip(j as int),
            None => !(s@.skip(i as int).len() >= 4 && s@.skip(i as int).take(4) == seq![
                'n',
                'u',
                'l',
                'l',
            ]),
        },
{
    let hit = s.len() - i >= 4 && s[i] == 'n' && s[i + 1] == 'u' && s[i + 2] == 'l' && s[i + 3]
        == 'l';
    proof {
        let sk = s@.skip(i as int);
        if hit {
            assert(sk.take(4) =~= seq!['n', 'u', 'l', 'l']);
            assert(sk.skip(4) =~= s@.skip(i + 4 as int));
        } else {
            if sk.len() >= 4 && sk.take(4) == seq!['n', 'u', 'l', 'l'] {
                assert(sk.take(4)[0] == 'n' && sk.take(4)[1] == 'u' && sk.take(4)[2] == 'l'
                    && sk.take(4)[3] == 'l');
                assert(s@[i as int] == 'n' && s@[i + 1 as int] == 'u' && s@[i + 2 as int] == 'l'
                    && s@[i + 3 as int] == 'l');
                assert(false);
            }
        }
    }
    if hit {
        Some(i + 4)
    } else {
        None
    }
}

/// Parse an unsigned decimal number.
fn parse_u64_at(s: &Vec<char>, i: usize) -> (r: Option<(u64, usize)>)
    requires
        i <= s@.len(),
    ensures
        match r {
            Some((v, j)) => i <= j <= s@.len() && spec_parse_u64(s@.skip(i as int)) == Some(
                (v as int, s@.skip(j as int)),
            ),
            None => spec_parse_u64(s@.skip(i as int)) is None,
        },
{
    if i >= s.len() {
        return None;
    }
    let c0 = s[i];
    if !((c0 as u32) >= 48 && (c0 as u32) <= 57) {
        proof {
            assert(s@.skip(i as int)[0] == c0);
        }
        return None;
    }
    let mut j = i;
    let mut acc: u64 = 0;
    while j < s.len() && (s[j] as u32) >= 48 && (s[j] as u32) <= 57
        invariant
            i <= j <= s@.len(),
            spec_parse_u64_digits(s@.skip(i as int), 0) == spec_parse_u64_digits(
                s@.skip(j as int),
                acc as int,
            ),
        decreases s@.len() - j,
    {
        let d = ((s[j] as u32) - 48) as u64;
        proof {
            assert(s@.skip(j as int)[0] == s@[j as int]);
            assert(spec_is_digit(s@[j as int]));
            assert(spec_digit_val(s@[j as int]) == d as int);
            assert(s@.skip(j as int).drop_first() =~= s@.skip(j + 1 as int));
        }
        let next = match acc.checked_mul(10) {
            Some(m) => m.checked_add(d),
            None => None,
        };
        match next {
            Some(acc2) => {
                acc = acc2;
                j = j + 1;
            },
            None => {
                proof {
                    assert(acc as int * 10 + d as int > u64::MAX as int);
                    assert(spec_parse_u64_digits(s@.skip(j as int), acc as int) is None);
                }
                return None;
            },
        }
    }
    proof {
        if j < s@.len() {
            assert(s@.skip(j as int)[0] == s@[j as int]);
            assert(!spec_is_digit(s@[j as int]));
        }
        assert(spec_parse_u64_digits(s@.skip(j as int), acc as int) == Some(
            (acc as int, s@.skip(j as int)),
        ));
        assert(s@.skip(i as int)[0] == c0 && spec_is_digit(c0));
    }
    Some((acc, j))
}

/// Parse a signed decimal count of seconds.
fn parse_i64_at(s: &Vec<char>, i: usize) -> (r: Option<(i64, usize)>)
    requires
        i <= s@.len(),
    ensures
        match r {
            Some((v, j)) => i <= j <= s@.len() && spec_parse_i64(s@.skip(i as int)) == Some(
                (v as int, s@.skip(j as int)),
            ),
            None => spec_parse_i64(s@.skip(i as int)) is None,
        },
{
    if i < s.len() && s[i] == '-' {
        proof {
            assert(s@.skip(i as int)[0] == '-');
            assert(s@.skip(i as int).drop_first() =~= s@.skip(i + 1 as int));
        }
        match parse_u64_at(s, i + 1) {
            Some((m, j)) => {
                if m <= 9223372036854775808u64 {
                    let v = (-(m as i128)) as i64;
                    Some((v, j))
                } else {
                    None
                }
            },
            None => None,
        }
    } else {
        proof {
            if s@.skip(i as int).len() > 0 {
                assert(s@.skip(i as int)[0] == s@[i as int]);
            }
        }
        match parse_u64_at(s, i) {
            Some((m, j)) => {
                if m <= i64::MAX as u64 {
                    Some((m as i64, j))
                } else {
                    None
                }
            },
            None => None,
        }
    }
}

/// Parse `true` or `false`.
fn parse_bool_at(s: &Vec<char>, i: usize) -> (r: Option<(bool, usize)>)
    requires
        i <= s@.len(),
    ensures
        match r {
            Some((v, j)) => i <= j <= s@.len() && spec_parse_bool(s@.skip(i as int)) == Some(
                (v, s@.skip(j as int)),
            ),
            None => spec_parse_bool(s@.skip(i as int)) is None,
        },
{
    let ghost sk = s@.skip(i as int);
    if s.len() - i >= 4 && s[i] == 't' && s[i + 1] == 'r' && s[i + 2] == 'u' && s[i + 3] == 'e' {
        proof {
            assert(sk.take(4) =~= seq!['t', 'r', 'u', 'e']);
            assert(sk.skip(4) =~= s@.skip(i + 4 as int));
        }
        Some((true, i + 4))
    } else if s.len() - i >= 5 && s[i] == 'f' && s[i + 1] == 'a' && s[i + 2] == 'l' && s[i + 3]
        == 's' && s[i + 4] == 'e' {
        proof {
            assert(sk.take(5) =~= seq!['f', 'a', 'l', 's', 'e']);
            if sk.len() >= 4 && sk.take(4) == seq!['t', 'r', 'u', 'e'] {
                assert(sk.take(4)[0] == 't');
                assert(false);
            }
            assert(sk.skip(5) =~= s@.skip(i + 5 as int));
        }
        Some((false, i + 5))
    } else {
        proof {
            if sk.len() >= 4 && sk.take(4) == seq!['t', 'r', 'u', 'e'] {
                assert(sk.take(4)[0] == 't' && sk.take(4)[1] == 'r' && sk.take(4)[2] == 'u'
                    && sk.take(4)[3] == 'e');
                assert(s@[i as int] == 't' && s@[i + 1 as int] == 'r' && s@[i + 2 as int] == 'u'
                    && s@[i + 3 as int] == 'e');
                assert(false);
            }
            if sk.len() >= 5 && sk.take(5) == seq!['f', 'a', 'l', 's', 'e'] {
                assert(sk.take(5)[0] == 'f' && sk.take(5)[1] == 'a' && sk.take(5)[2] == 'l'
                    && sk.take(5)[3] == 's' && sk.take(5)[4] == 'e');
                assert(s@[i as int] == 'f' && s@[i + 1 as int] == 'a' && s@[i + 2 as int] == 'l'
                    && s@[i + 3 as int] == 's' && s@[i + 4 as int] == 'e');
                assert(false);
            }
        }
        None
    }
}

/// The value of a hexadecimal digit character.
fn hex_val(c: char) -> (r: Option<u8>)
    ensures
        match r {
            Some(v) => spec_hex_val(c) == Some(v as int) && v < 16,
            None => spec_hex_val(c) is None,
        },
{
    let cu = c as u32;
    if cu >= 48 && cu <= 57 {
        Some((cu - 48) as u8)
    } else if c == 'a' { Some(10) }
    else if c == 'b' { Some(11) }
    else if c == 'c' { Some(12) }
    else if c == 'd' { Some(13) }
    else if c == 'e' { Some(14) }
    else if c == 'f' { Some(15) }
    else {
        None
    }
}

/// Parse a quoted string.
#[verifier::spinoff_prover]
#[verifier::rlimit(100)]
fn parse_string_at(s: &Vec<char>, i: usize) -> (r: Option<(String, usize)>)
    requires
        i <= s@.len(),
    ensures
        match r {
            Some((v, j)) => i <= j <= s@.len() && spec_parse_string(s@.skip(i as int)) == Some(
                (v@, s@.skip(j as int)),
            ),
            None => spec_parse_string(s@.skip(i as int)) is None,
        },
{
    if !(i < s.len() && s[i] == '"') {
        proof {
            if s@.skip(i as int).len() > 0 {
                assert(s@.skip(i as int)[0] == s@[i as int]);
            }
        }
        return None;
    }
    proof {
        assert(s@.skip(i as int)[0] == '"');
        assert(s@.skip(i as int).drop_first() =~= s@.skip(i + 1 as int));
    }
    let start = i + 1;
    let mut j = start;
    let mut buf: Vec<char> = Vec::new();
    loop
        invariant
            start <= j <= s@.len(),
            start == i + 1,
            i < s@.len(),
            spec_parse_string(s@.skip(i as int)) == spec_parse_str_body(s@.skip(start as int)),
            match spec_parse_str_body(s@.skip(j as int)) {
                Some((t, rem)) => spec_parse_str_body(s@.skip(start as int)) == Some(
                    (buf@ + t, rem),
                ),
                None => spec_parse_str_body(s@.skip(start as int)) is None,
            },
        decreases s@.len() - j,
    {
        if j >= s.len() {
            return None;
        }
        let c = s[j];
        proof {
            assert(s@.skip(j as int)[0] == c);
        }
        if c == '"' {
            proof {
                assert(s@.skip(j as int).drop_first() =~= s@.skip(j + 1 as int));
                assert(buf@ + Seq::<char>::empty() =~= buf@);
            }
            let v = chars_to_string(&buf);
            return Some((v, j + 1));
        } else if c == '\\' {
            if s.len() - j < 2 {
                return None;
            }
            let c1 = s[j + 1];
            proof {
                assert(s@.skip(j as int)[1] == c1);
            }
            if c1 == '"' || c1 == '\\' {
                let dec = if c1 == '"' { '"' } else { '\\' };
                proof {
                    assert(s@.skip(j as int).skip(2) =~= s@.skip(j + 2 as int));
                    assert(spec_parse_escape(s@.skip(j as int)) == Some(
                        (dec, s@.skip(j + 2 as int)),
                    ));
                }
                let ghost old_buf = buf@;
                buf.push(dec);
                proof {
                    if let Some((t2, rem2)) = spec_parse_str_body(s@.skip(j + 2 as int)) {
                        assert(old_buf + (seq![dec] + t2) =~= buf@ + t2);
                    }
                }
                j = j + 2;
            } else if c1 == 'u' {
                if s.len() - j < 6 {
                    return None;
                }
                proof {
                    assert(s@.skip(j as int)[2] == s@[j + 2 as int]);
                    assert(s@.skip(j as int)[3] == s@[j + 3 as int]);
                    assert(s@.skip(j as int)[4] == s@[j + 4 as int]);
                    assert(s@.skip(j as int)[5] == s@[j + 5 as int]);
                }
                let ha = hex_val(s[j + 2]);
                let hb = hex_val(s[j + 3]);
                let hc = hex_val(s[j + 4]);
                let hd = hex_val(s[j + 5]);
                match (ha, hb, hc, hd) {
                    (Some(a), Some(b), Some(cc), Some(d)) => {
                        let v: u32 = (a as u32) * 4096 + (b as u32) * 256 + (cc as u32) * 16 + (
                        d as u32);
                        if v < 32 {
                            let dec = (v as u8) as char;
                            proof {
                                assert(s@.skip(j as int).skip(6) =~= s@.skip(j + 6 as int));
                                assert(spec_parse_escape(s@.skip(j as int)) == Some(
                                    (dec, s@.skip(j + 6 as int)),
                                ));
                            }
                            let ghost old_buf = buf@;
                            buf.push(dec);
                            proof {
                                if let Some((t2, rem2)) = spec_parse_str_body(
                                    s@.skip(j + 6 as int),
                                ) {
                                    assert(old_buf + (seq![dec] + t2) =~= buf@ + t2);
                                }
                            }
                            j = j + 6;
                        } else {
                            return None;
                        }
                    },
                    _ => {
                        return None;
                    },
                }
            } else {
                return None;
            }
        } else {
            proof {
                assert(s@.skip(j as int).drop_first() =~= s@.skip(j + 1 as int));
            }
            let ghost old_buf = buf@;
            buf.push(c);
            proof {
                if let Some((t2, rem2)) = spec_parse_str_body(s@.skip(j + 1 as int)) {
                    assert(old_buf + (seq![c] + t2) =~= buf@ + t2);
                }
            }
            j = j + 1;
        }
    }
}

/// Parse `null` or a quoted string.
fn parse_opt_string_at(s: &Vec<char>, i: usize) -> (r: Option<(Option<String>, usize)>)
    requires
        i <= s@.len(),
    ensures
        match r {
            Some((v, j)) => i <= j <= s@.len() && spec_parse_opt_string(s@.skip(i as int)) == Some(
                (v.deep_view(), s@.skip(j as int)),
            ),
            None => spec_parse_opt_string(s@.skip(i as int)) is None,
        },
{
    if let Some(j) = parse_null_at(s, i) {
        return Some((None, j));
    }
    {
        match parse_string_at(s, i) {
            Some((v, j)) => Some((Some(v), j)),
            None => None,
        }
    }
}

/// Parse a time-of-day triple.
#[verifier::spinoff_prover]
#[verifier::rlimit(100)]
fn parse_tod_at(s: &Vec<char>, i: usize) -> (r: Option<(TimeOfDay, usize)>)
    requires
        i <= s@.len(),
    ensures
        match r {
            Some((v, j)) => i <= j <= s@.len() && spec_parse_tod(s@.skip(i as int)) == Some(
                (v, s@.skip(j as int)),
            ),
            None => spec_parse_tod(s@.skip(i as int)) is None,
        },
{
    let j0 = match parse_char_at(s, i, '[') {
        Some(j) => j,
        None => {
            return None;
        },
    };
    let (h, j1) = match parse_bounded_at(s, j0, 255) {
        Some(x) => x,
        None => {
            return None;
        },
    };
    let j2 = match parse_char_at(s, j1, ',') {
        Some(j) => j,
        None => {
            return None;
        },
    };
    let (m, j3) = match parse_bounded_at(s, j2, 255) {
        Some(x) => x,
        None => {
            return None;
        },
    };
    let j4 = match parse_char_at(s, j3, ',') {
        Some(j) => j,
        None => {
            return None;
        },
    };
    let (sec, j5) = match parse_bounded_at(s, j4, 255) {
        Some(x) => x,
        None => {
            return None;
        },
    };
    let j6 = match parse_char_at(s, j5, ']') {
        Some(j) => j,
        None => {
            return None;
        },
    };
    Some((TimeOfDay { hour: h as u8, minute: m as u8, second: sec as u8 }, j6))
}

/// Parse an unsigned number bounded by `bound`.
fn parse_bounded_at(s: &Vec<char>, i: usize, bound: u64) -> (r: Option<(u64, usize)>)
    requires
        i <= s@.len(),
    ensures
        match r {
            Some((v, j)) => i <= j <= s@.len() && v <= bound && spec_parse_bounded(
                s@.skip(i as int),
                bound as int,
            ) == Some((v as int, s@.skip(j as int))),
            None => spec_parse_bounded(s@.skip(i as int), bound as int) is None,
        },
{
    match parse_u64_at(s, i) {
        Some((v, j)) => if v <= bound {
            Some((v, j))
        } else {
            None
        },
        None => None,
    }
}

/// Parse `null` or a time of day.
fn parse_opt_tod_at(s: &Vec<char>, i: usize) -> (r: Option<(Option<TimeOfDay>, usize)>)
    requires
        i <= s@.len(),
    ensures
        match r {
            Some((v, j)) => i <= j <= s@.len() && spec_parse_opt_tod(s@.skip(i as int)) == Some(
                (v, s@.skip(j as int)),
            ),
            None => spec_parse_opt_tod(s@.skip(i as int)) is None,
        },
{
    if let Some(j) = parse_null_at(s, i) {
        return Some((None, j));
    }
    {
        match parse_tod_at(s, i) {
            Some((v, j)) => Some((Some(v), j)),
            None => None,
        }
    }
}

/// Parse `null` or an unsigned number bounded by `bound`.
fn parse_opt_num_at(s: &Vec<char>, i: usize, bound: u64) -> (r: Option<(Option<u64>, usize)>)
    requires
        i <= s@.len(),
    ensures
        match r {
            Some((v, j)) => match v {
                Some(x) => x <= bound,
                None => true,
            },
            None => true,
        },
        match r {
            Some((v, j)) => i <= j <= s@.len() && spec_parse_opt_num(
                s@.skip(i as int),
                bound as int,
            ) == Some(
                (
                    match v {
                        Some(x) => Some(x as int),
                        None => None,
                    },
                    s@.skip(j as int),
                ),
            ),
            None => spec_parse_opt_num(s@.skip(i as int), bound as int) is None,
        },
{
    if let Some(j) = parse_null_at(s, i) {
        return Some((None, j));
    }
    {
        match parse_bounded_at(s, i, bound) {
            Some((v, j)) => Some((Some(v), j)),
            None => None,
        }
    }
}

/// Parse a calendar condition.
#[verifier::spinoff_prover]
#[verifier::rlimit(100)]
fn parse_condition_at(s: &Vec<char>, i: usize) -> (r: Option<(DateCondition, usize)>)
    requires
        i <= s@.len(),
    ensures
        match r {
            Some((v, j)) => i <= j <= s@.len() && spec_parse_condition(s@.skip(i as int)) == Some(
                (v, s@.skip(j as int)),
            ),
            None => spec_parse_condition(s@.skip(i as int)) is None,
        },
{
    let j0 = match parse_char_at(s, i, '[') {
        Some(j) => j,
        None => {
            return None;
        },
    };
    let (time, j1) = match parse_opt_tod_at(s, j0) {
        Some(x) => x,
        None => {
            return None;
        },
    };
    let j2 = match parse_char_at(s, j1, ',') {
        Some(j) => j,
        None => {
            return None;
        },
    };
    let (wd, j3) = match parse_opt_num_at(s, j2, 255) {
        Some(x) => x,
        None => {
            return None;
        },
    };
    let j4 = match parse_char_at(s, j3, ',') {
        Some(j) => j,
        None => {
            return None;
        },
    };
    let (dom, j5) = match parse_opt_num_at(s, j4, u32::MAX as u64) {
        Some(x) => x,
        None => {
            return None;
        },
    };
    let j6 = match parse_char_at(s, j5, ',') {
        Some(j) => j,
        None => {
            return None;
        },
    };
    let (moy, j7) = match parse_opt_num_at(s, j6, u32::MAX as u64) {
        Some(x) => x,
        None => {
            return None;
        },
    };
    let j8 = match parse_char_at(s, j7, ']') {
        Some(j) => j,
        None => {
            return None;
        },
    };
    let c = DateCondition {
        time,
        weekday: match wd {
            Some(w) => Some(w as u8),
            None => None,
        },
        day_of_month: match dom {
            Some(d) => Some(d as u32),
            None => None,
        },
        month_of_year: match moy {
            Some(m) => Some(m as u32),
            None => None,
        },
    };
    Some((c, j8))
}

/// Parse one embed field.
#[verifier::spinoff_prover]
#[verifier::rlimit(100)]
fn parse_field_at(s: &Vec<char>, i: usize) -> (r: Option<((String, String, bool), usize)>)
    requires
        i <= s@.len(),
    ensures
        match r {
            Some((v, j)) => i < j <= s@.len() && spec_parse_field(s@.skip(i as int)) == Some(
                (v.deep_view(), s@.skip(j as int)),
            ),
            None => spec_parse_field(s@.skip(i as int)) is None,
        },
{
    let j0 = match parse_char_at(s, i, '[') {
        Some(j) => j,
        None => {
            return None;
        },
    };
    let (n, j1) = match parse_string_at(s, j0) {
        Some(x) => x,
        None => {
            return None;
        },
    };
    let j2 = match parse_char_at(s, j1, ',') {
        Some(j) => j,
        None => {
            return None;
        },
    };
    let (v, j3) = match parse_string_at(s, j2) {
        Some(x) => x,
        None => {
            return None;
        },
    };
    let j4 = match parse_char_at(s, j3, ',') {
        Some(j) => j,
        None => {
            return None;
        },
    };
    let (b, j5) = match parse_bool_at(s, j4) {
        Some(x) => x,
        None => {
            return None;
        },
    };
    let j6 = match parse_char_at(s, j5, ']') {
        Some(j) => j,
        None => {
            return None;
        },
    };
    Some(((n, v, b), j6))
}

/// Parse `null` or a bracketed list of embed fields.
#[verifier::spinoff_prover]
#[verifier::rlimit(100)]
fn parse_opt_fields_at(s: &Vec<char>, i: usize) -> (r: Option<
    (Option<Vec<(String, String, bool)>>, usize),
>)
    requires
        i <= s@.len(),
    ensures
        match r {
            Some((v, j)) => i <= j <= s@.len() && spec_parse_opt_fields(s@.skip(i as int)) == Some(
                (v.deep_view(), s@.skip(j as int)),
            ),
            None => spec_parse_opt_fields(s@.skip(i as int)) is None,
        },
{
    if let Some(j) = parse_null_at(s, i) {
        proof {
            assert(None::<Vec<(String, String, bool)>>.deep_view()
                == None::<Seq<(Seq<char>, Seq<char>, bool)>>);
        }
        return Some((None, j));
    }
    let j0 = match parse_char_at(s, i, '[') {
        Some(j) => j,
        None => {
            return None;
        },
    };
    if j0 < s.len() && s[j0] == ']' {
        proof {
            assert(s@.skip(j0 as int)[0] == ']');
            assert(s@.skip(j0 as int).drop_first() =~= s@.skip(j0 + 1 as int));
        }
        let empty: Vec<(String, String, bool)> = Vec::new();
        proof {
            assert(empty.deep_view() =~= Seq::<(Seq<char>, Seq<char>, bool)>::empty());
        }
        return Some((Some(empty), j0 + 1));
    }
    proof {
        if s@.skip(j0 as int).len() > 0 {
            assert(s@.skip(j0 as int)[0] == s@[j0 as int]);
        }
    }
    let mut out: Vec<(String, String, bool)> = Vec::new();
    let mut cur = j0;
    loop
        invariant
            j0 <= cur <= s@.len(),
            i <= j0 <= s@.len(),
            spec_parse_opt_fields(s@.skip(i as int)) == (match spec_parse_field_items(
                s@.skip(j0 as int),
            ) {
                Some((fs, rem)) => Some((Some(fs), rem)),
                None => None::<(Option<Seq<(Seq<char>, Seq<char>, bool)>>, Seq<char>)>,
            }),
            match spec_parse_field_items(s@.skip(cur as int)) {
                Some((fs, rem)) => spec_parse_field_items(s@.skip(j0 as int)) == Some(
                    (out.deep_view() + fs, rem),
                ),
                None => spec_parse_field_items(s@.skip(j0 as int)) is None,
            },
        decreases s@.len() - cur,
    {
        let (f, j) = match parse_field_at(s, cur) {
            Some(x) => x,
            None => {
                return None;
            },
        };
        let ghost old_out = out.deep_view();
        out.push(f);
        proof {
            assert(out.deep_view() =~= old_out.push(f.deep_view()));
        }
        if j < s.len() && s[j] == ',' {
            proof {
                assert(s@.skip(j as int)[0] == ',');
                assert(s@.skip(j as int).drop_first() =~= s@.skip(j + 1 as int));
                if let Some((fs2, rem2)) = spec_parse_field_items(s@.skip(j + 1 as int)) {
                    assert(old_out + (seq![f.deep_view()] + fs2) =~= out.deep_view() + fs2);
                }
            }
            cur = j + 1;
        } else if j < s.len() && s[j] == ']' {
            proof {
                assert(s@.skip(j as int)[0] == ']');
                assert(s@.skip(j as int).drop_first() =~= s@.skip(j + 1 as int));
                assert(old_out + seq![f.deep_view()] =~= out.deep_view());
                assert(out.deep_view() + Seq::<(Seq<char>, Seq<char>, bool)>::empty()
                    =~= out.deep_view());
            }
            return Some((Some(out), j + 1));
        } else {
            proof {
                if s@.skip(j as int).len() > 0 {
                    assert(s@.skip(j as int)[0] == s@[j as int]);
                }
            }
            return None;
        }
    }
}

/// Consume the five-character opening tag of a composite.
fn parse_tag_at(s: &Vec<char>, i: usize, t: char) -> (r: Option<usize>)
    requires
        i <= s@.len(),
    ensures
        match r {
            Some(j) => i < j <= s@.len() && spec_parse_tag(s@.skip(i as int), t) == Some(
                s@.skip(j as int),
            ),
            None => spec_parse_tag(s@.skip(i as int), t) is None,
        },
{
    let ghost sk = s@.skip(i as int);
    if s.len() - i >= 5 && s[i] == '[' && s[i + 1] == '"' && s[i + 2] == t && s[i + 3] == '"'
        && s[i + 4] == ',' {
        proof {
            assert(sk.take(5) =~= seq!['[', '"', t, '"', ',']);
            assert(sk.skip(5) =~= s@.skip(i + 5 as int));
        }
        Some(i + 5)
    } else {
        proof {
            if sk.len() >= 5 && sk.take(5) == seq!['[', '"', t, '"', ','] {
                assert(sk.take(5)[0] == '[' && sk.take(5)[1] == '"' && sk.take(5)[2] == t
                    && sk.take(5)[3] == '"' && sk.take(5)[4] == ',');
                assert(s@[i as int] == '[' && s@[i + 1 as int] == '"' && s@[i + 2 as int] == t
                    && s@[i + 3 as int] == '"' && s@[i + 4 as int] == ',');
                assert(false);
            }
        }
        None
    }
}

/// Parse the tail of an embed: footer, images, timestamp flag and titles.
#[verifier::spinoff_prover]
#[verifier::rlimit(100)]
fn parse_embed_tail_at(s: &Vec<char>, i: usize) -> (r: Option<
    ((Option<String>, Option<String>, Option<String>), bool, Option<String>, Option<
        String,
    >, usize),
>)
    requires
        i <= s@.len(),
    ensures
        match r {
            Some((f3, ts, title, title_url, j)) => i <= j <= s@.len() && spec_parse_embed_tail(
                s@.skip(i as int),
            ) == Some(
                (
                    (f3.0.deep_view(), f3.1.deep_view(), f3.2.deep_view()),
                    ts,
                    title.deep_view(),
                    title_url.deep_view(),
                    s@.skip(j as int),
                ),
            ),
            None => spec_parse_embed_tail(s@.skip(i as int)) is None,
        },
{
    let (footer, j0) = match parse_opt_string_at(s, i) {
        Some(x) => x,
        None => {
            return None;
        },
    };
    let j1 = match parse_char_at(s, j0, ',') {
        Some(j) => j,
        None => {
            return None;
        },
    };
    let (image, j2) = match parse_opt_string_at(s, j1) {
        Some(x) => x,
        None => {
            return None;
        },
    };
    let j3 = match parse_char_at(s, j2, ',') {
        Some(j) => j,
        None => {
            return None;
        },
    };
    let (thumb, j4) = match parse_opt_string_at(s, j3) {
        Some(x) => x,
        None => {
            return None;
        },
    };
    let j5 = match parse_char_at(s, j4, ',') {
        Some(j) => j,
        None => {
            return None;
        },
    };
    let (ts, j6) = match parse_bool_at(s, j5) {
        Some(x) => x,
        None => {
            return None;
        },
    };
    let j7 = match parse_char_at(s, j6, ',') {
        Some(j) => j,
        None => {
            return None;
        },
    };
    let (title, j8) = match parse_opt_string_at(s, j7) {
        Some(x) => x,
        None => {
            return None;
        },
    };
    let j9 = match parse_char_at(s, j8, ',') {
        Some(j) => j,
        None => {
            return None;
        },
    };
    let (title_url, j10) = match parse_opt_string_at(s, j9) {
        Some(x) => x,
        None => {
            return None;
        },
    };
    let j11 = match parse_char_at(s, j10, ',') {
        Some(j) => j,
        None => {
            return None;
        },
    };
    let (pad, j12) = match parse_opt_string_at(s, j11) {
        Some(x) => x,
        None => {
            return None;
        },
    };
    if let Some(_) = pad {
        return None;
    }
    let j13 = match parse_char_at(s, j12, ']') {
        Some(j) => j,
        None => {
            return None;
        },
    };
    Some(((footer, image, thumb), ts, title, title_url, j13))
}

/// Parse the middle of an embed and everything after it.
#[verifier::spinoff_prover]
#[verifier::rlimit(100)]
fn parse_embed_mid_at(s: &Vec<char>, i: usize) -> (r: Option<
    ((Option<String>, Option<Vec<(String, String, bool)>>), (Option<String>, Option<
        String,
    >, Option<String>), bool, Option<String>, Option<String>, usize),
>)
    requires
        i <= s@.len(),
    ensures
        match r {
            Some(((desc, fields), f3, ts, title, title_url, j)) => i <= j <= s@.len()
                && spec_parse_embed_mid(s@.skip(i as int)) == Some(
                (
                    (desc.deep_view(), fields.deep_view()),
                    (f3.0.deep_view(), f3.1.deep_view(), f3.2.deep_view()),
                    ts,
                    title.deep_view(),
                    title_url.deep_view(),
                    s@.skip(j as int),
                ),
            ),
            None => spec_parse_embed_mid(s@.skip(i as int)) is None,
        },
{
    let (desc, j0) = match parse_opt_string_at(s, i) {
        Some(x) => x,
        None => {
            return None;
        },
    };
    let j1 = match parse_char_at(s, j0, ',') {
        Some(j) => j,
        None => {
            return None;
        },
    };
    let (fields, j2) = match parse_opt_fields_at(s, j1) {
        Some(x) => x,
        None => {
            return None;
        },
    };
    let j3 = match parse_char_at(s, j2, ',') {
        Some(j) => j,
        None => {
            return None;
        },
    };
    let (f3, ts, title, title_url, j4) = match parse_embed_tail_at(s, j3) {
        Some(x) => x,
        None => {
            return None;
        },
    };
    Some(((desc, fields), f3, ts, title, title_url, j4))
}

/// Parse a whole embed.
#[verifier::spinoff_prover]
#[verifier::rlimit(100)]
fn parse_embed_at(s: &Vec<char>, i: usize) -> (r: Option<(Box<EmbedMessage>, usize)>)
    requires
        i <= s@.len(),
    ensures
        match r {
            Some((e, j)) => i <= j <= s@.len() && spec_parse_embed(s@.skip(i as int)) == Some(
                (e.deep_view(), s@.skip(j as int)),
            ),
            None => spec_parse_embed(s@.skip(i as int)) is None,
        },
{
    let j0 = match parse_char_at(s, i, '[') {
        Some(j) => j,
        None => {
            return None;
        },
    };
    let (icon, j1) = match parse_opt_string_at(s, j0) {
        Some(x) => x,
        None => {
            return None;
        },
    };
    let j2 = match parse_char_at(s, j1, ',') {
        Some(j) => j,
        None => {
            return None;
        },
    };
    let (name, j3) = match parse_opt_string_at(s, j2) {
        Some(x) => x,
        None => {
            return None;
        },
    };
    let j4 = match parse_char_at(s, j3, ',') {
        Some(j) => j,
        None => {
            return None;
        },
    };
    let (url, j5) = match parse_opt_string_at(s, j4) {
        Some(x) => x,
        None => {
            return None;
        },
    };
    let j6 = match parse_char_at(s, j5, ',') {
        Some(j) => j,
        None => {
            return None;
        },
    };
    let (cr, j7) = match parse_bounded_at(s, j6, 255) {
        Some(x) => x,
        None => {
            return None;
        },
    };
    let j8 = match parse_char_at(s, j7, ',') {
        Some(j) => j,
        None => {
            return None;
        },
    };
    let (cg, j9) = match parse_bounded_at(s, j8, 255) {
        Some(x) => x,
        None => {
            return None;
        },
    };
    let j10 = match parse_char_at(s, j9, ',') {
        Some(j) => j,
        None => {
            return None;
        },
    };
    let (cb, j11) = match parse_bounded_at(s, j10, 255) {
        Some(x) => x,
        None => {
            return None;
        },
    };
    let j12 = match parse_char_at(s, j11, ',') {
        Some(j) => j,
        None => {
            return None;
        },
    };
    let ((desc, fields), f3, ts, title, title_url, j13) = match parse_embed_mid_at(s, j12) {
        Some(x) => x,
        None => {
            return None;
        },
    };
    let e = EmbedMessage {
        author_icon_url: icon,
        author_name: name,
        author_url: url,
        colour: (cr as u8, cg as u8, cb as u8),
        description: desc,
        fields,
        footer_text: f3.0,
        image_url: f3.1,
        thumbnail_url: f3.2,
        timestamp: ts,
        title,
        title_url,
    };
    Some((Box::new(e), j13))
}

/// Parse a message.
#[verifier::spinoff_prover]
#[verifier::rlimit(100)]
fn parse_message_at(s: &Vec<char>, i: usize) -> (r: Option<(MessageType, usize)>)
    requires
        i <= s@.len(),
    ensures
        match r {
            Some((m, j)) => i <= j <= s@.len() && spec_parse_message(s@.skip(i as int)) == Some(
                (m.deep_view(), s@.skip(j as int)),
            ),
            None => spec_parse_message(s@.skip(i as int)) is None,
        },
{
    match parse_tag_at(s, i, 'p') {
        Some(j0) => {
            let (content, j1) = match parse_string_at(s, j0) {
                Some(x) => x,
                None => {
                    return None;
                },
            };
            let j2 = match parse_char_at(s, j1, ']') {
                Some(j) => j,
                None => {
                    return None;
                },
            };
            Some((MessageType::Plain { content }, j2))
        },
        None => {
            match parse_tag_at(s, i, 'e') {
                Some(j0) => {
                    let (e, j1) = match parse_embed_at(s, j0) {
                        Some(x) => x,
                        None => {
                            return None;
                        },
                    };
                    let j2 = match parse_char_at(s, j1, ']') {
                        Some(j) => j,
                        None => {
                            return None;
                        },
                    };
                    Some((MessageType::Embed(e), j2))
                },
                None => None,
            }
        },
    }
}

/// Parse an action.
#[verifier::spinoff_prover]
#[verifier::rlimit(100)]
fn parse_action_at(s: &Vec<char>, i: usize) -> (r: Option<(Task, usize)>)
    requires
        i <= s@.len(),
    ensures
        match r {
            Some((a, j)) => i <= j <= s@.len() && spec_parse_action(s@.skip(i as int)) == Some(
                (a.deep_view(), s@.skip(j as int)),
            ),
            None => spec_parse_action(s@.skip(i as int)) is None,
        },
{
    match parse_tag_at(s, i, 'S') {
        Some(j0) => {
            let (send_to, j1) = match parse_bounded_at(s, j0, u64::MAX) {
                Some(x) => x,
                None => {
                    return None;
                },
            };
            let j2 = match parse_char_at(s, j1, ',') {
                Some(j) => j,
                None => {
                    return None;
                },
            };
            let (message, j3) = match parse_message_at(s, j2) {
                Some(x) => x,
                None => {
                    return None;
                },
            };
            let j4 = match parse_char_at(s, j3, ',') {
                Some(j) => j,
                None => {
                    return None;
                },
            };
            let (upload_file, j5) = match parse_opt_string_at(s, j4) {
                Some(x) => x,
                None => {
                    return None;
                },
            };
            let j6 = match parse_char_at(s, j5, ']') {
                Some(j) => j,
                None => {
                    return None;
                },
            };
            Some((Task::SendMessage { send_to, message, upload_file }, j6))
        },
        None => {
            match parse_tag_at(s, i, 'U') {
                Some(j0) => {
                    let (new_name, j1) = match parse_string_at(s, j0) {
                        Some(x) => x,
                        None => {
                            return None;
                        },
                    };
                    let j2 = match parse_char_at(s, j1, ',') {
                        Some(j) => j,
                        None => {
                            return None;
                        },
                    };
                    let (new_icon_filename, j3) = match parse_string_at(s, j2) {
                        Some(x) => x,
                        None => {
                            return None;
                        },
                    };
                    let j4 = match parse_char_at(s, j3, ']') {
                        Some(j) => j,
                        None => {
                            return None;
                        },
                    };
                    Some((Task::UpdateAppearance { new_name, new_icon_filename }, j4))
                },
                None => None,
            }
        },
    }
}

/// Parse a bracketed list of saved roles.
#[verifier::spinoff_prover]
#[verifier::rlimit(100)]
fn parse_roles_at(s: &Vec<char>, i: usize) -> (r: Option<(Vec<(String, u64)>, usize)>)
    requires
        i <= s@.len(),
    ensures
        match r {
            Some((v, j)) => i <= j <= s@.len() && spec_parse_roles(s@.skip(i as int)) == Some(
                (v.deep_view(), s@.skip(j as int)),
            ),
            None => spec_parse_roles(s@.skip(i as int)) is None,
        },
{
    let j0 = match parse_char_at(s, i, '[') {
        Some(j) => j,
        None => {
            return None;
        },
    };
    if j0 < s.len() && s[j0] == ']' {
        proof {
            assert(s@.skip(j0 as int)[0] == ']');
            assert(s@.skip(j0 as int).drop_first() =~= s@.skip(j0 + 1 as int));
        }
        let empty: Vec<(String, u64)> = Vec::new();
        proof {
            assert(empty.deep_view() =~= Seq::<(Seq<char>, u64)>::empty());
        }
        return Some((empty, j0 + 1));
    }
    proof {
        if s@.skip(j0 as int).len() > 0 {
            assert(s@.skip(j0 as int)[0] == s@[j0 as int]);
        }
    }
    let mut out: Vec<(String, u64)> = Vec::new();
    let mut cur = j0;
    loop
        invariant
            j0 <= cur <= s@.len(),
            i <= j0 <= s@.len(),
            spec_parse_roles(s@.skip(i as int)) == spec_parse_role_items(s@.skip(j0 as int)),
            match spec_parse_role_items(s@.skip(cur as int)) {
                Some((rs, rem)) => spec_parse_role_items(s@.skip(j0 as int)) == Some(
                    (out.deep_view() + rs, rem),
                ),
                None => spec_parse_role_items(s@.skip(j0 as int)) is None,
            },
        decreases s@.len() - cur,
    {
        // one role: a bracketed name and ID pair
        let r0 = match parse_char_at(s, cur, '[') {
            Some(j) => j,
            None => {
                return None;
            },
        };
        let (name, r1) = match parse_string_at(s, r0) {
            Some(x) => x,
            None => {
                return None;
            },
        };
        let r2 = match parse_char_at(s, r1, ',') {
            Some(j) => j,
            None => {
                return None;
            },
        };
        let (id, r3) = match parse_bounded_at(s, r2, u64::MAX) {
            Some(x) => x,
            None => {
                return None;
            },
        };
        let j = match parse_char_at(s, r3, ']') {
            Some(j) => j,
            None => {
                return None;
            },
        };
        proof {
            assert(spec_parse_role(s@.skip(cur as int)) == Some(
                ((name@, id), s@.skip(j as int)),
            ));
        }
        let ghost old_out = out.deep_view();
        out.push((name, id));
        proof {
            assert(out.deep_view() =~= old_out.push((name@, id)));
        }
        if j < s.len() && s[j] == ',' {
            proof {
                assert(s@.skip(j as int)[0] == ',');
                assert(s@.skip(j as int).drop_first() =~= s@.skip(j + 1 as int));
                if let Some((rs2, rem2)) = spec_parse_role_items(s@.skip(j + 1 as int)) {
                    assert(old_out + (seq![(name@, id)] + rs2) =~= out.deep_view() + rs2);
                }
            }
            cur = j + 1;
        } else if j < s.len() && s[j] == ']' {
            proof {
                assert(s@.skip(j as int)[0] == ']');
                assert(s@.skip(j as int).drop_first() =~= s@.skip(j + 1 as int));
                assert(old_out + seq![(name@, id)] =~= out.deep_view());
                assert(out.deep_view() + Seq::<(Seq<char>, u64)>::empty() =~= out.deep_view());
            }
            return Some((out, j + 1));
        } else {
            proof {
                if s@.skip(j as int).len() > 0 {
                    assert(s@.skip(j as int)[0] == s@[j as int]);
                }
            }
            return None;
        }
    }
}

/// Parse one task of any kind.
#[verifier::spinoff_prover]
#[verifier::rlimit(100)]
fn parse_task_at(s: &Vec<char>, i: usize) -> (r: Option<(TaskType, usize)>)
    requires
        i <= s@.len(),
    ensures
        match r {
            Some((t, j)) => i < j <= s@.len() && spec_parse_task(s@.skip(i as int)) == Some(
                (t.deep_view(), s@.skip(j as int)),
            ),
            None => spec_parse_task(s@.skip(i as int)) is None,
        },
{
    match parse_tag_at(s, i, 'G') {
        Some(j0) => {
            let (name, j1) = match parse_string_at(s, j0) {
                Some(x) => x,
                None => {
                    return None;
                },
            };
            let j2 = match parse_char_at(s, j1, ',') {
                Some(j) => j,
                None => {
                    return None;
                },
            };
            let (id, j3) = match parse_bounded_at(s, j2, u64::MAX) {
                Some(x) => x,
                None => {
                    return None;
                },
            };
            let j4 = match parse_char_at(s, j3, ',') {
                Some(j) => j,
                None => {
                    return None;
                },
            };
            let (roles, j5) = match parse_roles_at(s, j4) {
                Some(x) => x,
                None => {
                    return None;
                },
            };
            let j6 = match parse_char_at(s, j5, ',') {
                Some(j) => j,
                None => {
                    return None;
                },
            };
            let (end, j7) = match parse_i64_at(s, j6) {
                Some(x) => x,
                None => {
                    return None;
                },
            };
            let j8 = match parse_char_at(s, j7, ']') {
                Some(j) => j,
                None => {
                    return None;
                },
            };
            proof {
                assert(spec_parse_gulag_tail(s@.skip(j2 as int)) == Some(
                    ((id, roles.deep_view(), end), s@.skip(j8 as int)),
                ));
            }
            Some((TaskType::Gulag(Gulag { user: (name, id), roles, end }), j8))
        },
        None => {
            match parse_tag_at(s, i, 'P') {
                Some(j0) => {
                    let (task, j1) = match parse_action_at(s, j0) {
                        Some(x) => x,
                        None => {
                            return None;
                        },
                    };
                    let j2 = match parse_char_at(s, j1, ',') {
                        Some(j) => j,
                        None => {
                            return None;
                        },
                    };
                    let (diff, j3) = match parse_i64_at(s, j2) {
                        Some(x) => x,
                        None => {
                            return None;
                        },
                    };
                    let j4 = match parse_char_at(s, j3, ',') {
                        Some(j) => j,
                        None => {
                            return None;
                        },
                    };
                    let (last_sent, j5) = match parse_i64_at(s, j4) {
                        Some(x) => x,
                        None => {
                            return None;
                        },
                    };
                    let j6 = match parse_char_at(s, j5, ']') {
                        Some(j) => j,
                        None => {
                            return None;
                        },
                    };
                    Some((TaskType::PeriodicTask(PeriodicTask { task, diff, last_sent }), j6))
                },
                None => {
                    match parse_tag_at(s, i, 'C') {
                        Some(j0) => {
                            let (task, j1) = match parse_action_at(s, j0) {
                                Some(x) => x,
                                None => {
                                    return None;
                                },
                            };
                            let j2 = match parse_char_at(s, j1, ',') {
                                Some(j) => j,
                                None => {
                                    return None;
                                },
                            };
                            let (condition, j3) = match parse_condition_at(s, j2) {
                                Some(x) => x,
                                None => {
                                    return None;
                                },
                            };
                            let j4 = match parse_char_at(s, j3, ']') {
                                Some(j) => j,
                                None => {
                                    return None;
                                },
                            };
                            Some(
                                (
                                    TaskType::DateConditionalTask(
                                        DateConditionalTask { task, condition },
                                    ),
                                    j4,
                                ),
                            )
                        },
                        None => None,
                    }
                },
            }
        },
    }
}

/// Parse the whole durable text into a task list. Accepts exactly what
/// [`render_tasks`] writes; anything malformed, and any text left over
/// after the list, is rejected.
#[verifier::spinoff_prover]
#[verifier::rlimit(100)]
pub fn parse_tasks(s: &str) -> (r: Result<Vec<TaskType>, TaskError>)
    ensures
        match r {
            Ok(ts) => (s@.len() == 0 && ts@.len() == 0) || spec_parse_tasks(s@) == Some(
                (ts.deep_view(), Seq::<char>::empty()),
            ),
            Err(e) => {
                &&& s@.len() > 0
                &&& e == TaskError::MalformedTaskList
                &&& match spec_parse_tasks(s@) {
                    Some((_, rem)) => rem.len() != 0,
                    None => true,
                }
            },
        },
{
    let chars = str_to_chars(s);
    let n = chars.len();
    if n == 0 {
        let empty: Vec<TaskType> = Vec::new();
        return Ok(empty);
    }
    proof {
        assert(chars@.skip(0) =~= s@);
    }
    let j0 = match parse_char_at(&chars, 0, '[') {
        Some(j) => j,
        None => {
            return Err(TaskError::MalformedTaskList);
        },
    };
    if j0 < n && chars[j0] == ']' {
        proof {
            assert(chars@.skip(j0 as int)[0] == ']');
            assert(chars@.skip(j0 as int).drop_first() =~= chars@.skip(j0 + 1 as int));
        }
        if j0 + 1 == n {
            let empty: Vec<TaskType> = Vec::new();
            proof {
                assert(chars@.skip(j0 + 1 as int) =~= Seq::<char>::empty());
                assert(empty.deep_view() =~= Seq::<crate::tasks::TaskTypeV>::empty());
            }
            return Ok(empty);
        } else {
            return Err(TaskError::MalformedTaskList);
        }
    }
    proof {
        if chars@.skip(j0 as int).len() > 0 {
            assert(chars@.skip(j0 as int)[0] == chars@[j0 as int]);
        }
    }
    let mut out: Vec<TaskType> = Vec::new();
    let mut cur = j0;
    loop
        invariant
            j0 <= cur <= chars@.len(),
            chars@ == s@,
            chars@.len() == n,
            n >= 1,
            spec_parse_tasks(s@) == spec_parse_task_items(chars@.skip(j0 as int)),
            match spec_parse_task_items(chars@.skip(cur as int)) {
                Some((ts, rem)) => spec_parse_task_items(chars@.skip(j0 as int)) == Some(
                    (out.deep_view() + ts, rem),
                ),
                None => spec_parse_task_items(chars@.skip(j0 as int)) is None,
            },
        decreases chars@.len() - cur,
    {
        let (t, j) = match parse_task_at(&chars, cur) {
            Some(x) => x,
            None => {
                return Err(TaskError::MalformedTaskList);
            },
        };
        let ghost old_out = out.deep_view();
        out.push(t);
        proof {
            assert(out.deep_view() =~= old_out.push(t.deep_view()));
        }
        if j < n && chars[j] == ',' {
            proof {
                assert(chars@.skip(j as int)[0] == ',');
                assert(chars@.skip(j as int).drop_first() =~= chars@.skip(j + 1 as int));
                if let Some((ts2, rem2)) = spec_parse_task_items(chars@.skip(j + 1 as int)) {
                    assert(old_out + (seq![t.deep_view()] + ts2) =~= out.deep_view() + ts2);
                }
            }
            cur = j + 1;
        } else if j < n && chars[j] == ']' {
            proof {
                assert(chars@.skip(j as int)[0] == ']');
                assert(chars@.skip(j as int).drop_first() =~= chars@.skip(j + 1 as int));
                assert(old_out + seq![t.deep_view()] =~= out.deep_view());
                assert(out.deep_view() + Seq::<crate::tasks::TaskTypeV>::empty()
                    =~= out.deep_view());
            }
            if j + 1 == n {
                proof {
                    assert(chars@.skip(j + 1 as int) =~= Seq::<char>::empty());
                }
                return Ok(out);
            } else {
                return Err(TaskError::MalformedTaskList);
            }
        } else {
            proof {
                if chars@.skip(j as int).len() > 0 {
                    assert(chars@.skip(j as int)[0] == chars@[j as int]);
                }
            }
            return Err(TaskError::MalformedTaskList);
        }
    }
}

} // verus!
