use vstd::prelude::*;
use crate::clock::ClockTime;
use crate::store::{all_wf, is_gulag_for, unique_gulag_subjects};
use crate::tasks::{PeriodicTask, TaskType};

verus! {

/// A recurring task re-armed after a successful firing: the period
/// boundary moved forward by whole intervals to the most recent boundary
/// not after `now`. Meaningful when the task was due and its interval is
/// positive.
pub open spec fn spec_catch_up(p: PeriodicTask, now: ClockTime) -> PeriodicTask {
    PeriodicTask {
        task: p.task,
        diff: p.diff,
        last_sent: (now.secs - ((now.secs - p.last_sent) % (p.diff as int))) as i64,
    }
}

/// What settling one task leaves behind, given whether its action was due
/// and succeeded this tick: a finished suspension disappears, a fired
/// periodic task is re-armed, and everything else stays exactly as it
/// was — in particular a task whose action failed, so the next tick simply
/// retries it.
pub open spec fn spec_settle_one(t: TaskType, now: ClockTime, ok: bool) -> Option<TaskType> {
    if t.spec_due(now) && ok {
        match t {
            TaskType::Gulag(_) => None,
            TaskType::PeriodicTask(p) => Some(TaskType::PeriodicTask(spec_catch_up(p, now))),
            TaskType::DateConditionalTask(_) => Some(t),
        }
    } else {
        Some(t)
    }
}

/// One whole scheduler pass over the working list: every task settled in
/// store order, with `oks[i]` telling whether task `i`'s action ran and
/// succeeded.
pub open spec fn spec_settle(tasks: Seq<TaskType>, now: ClockTime, oks: Seq<bool>) -> Seq<TaskType>
    decreases tasks.len(),
{
    if tasks.len() == 0 {
        Seq::empty()
    } else {
        spec_settle(tasks.drop_last(), now, oks.drop_last())
            + match spec_settle_one(tasks.last(), now, oks.last()) {
            Some(t) => seq![t],
            None => Seq::<TaskType>::empty(),
        }
    }
}

/// Every task the pass keeps is the settling of some task of the list.
pub proof fn lemma_settle_source(tasks: Seq<TaskType>, now: ClockTime, oks: Seq<bool>, j: int)
    requires
        tasks.len() == oks.len(),
        0 <= j < spec_settle(tasks, now, oks).len(),
    ensures
        exists|k: int|
            0 <= k < tasks.len() && spec_settle_one(#[trigger] tasks[k], now, oks[k])
                == Some(spec_settle(tasks, now, oks)[j]),
    decreases tasks.len(),
{
    let settled = spec_settle(tasks, now, oks);
    let dl = tasks.drop_last();
    let ol = oks.drop_last();
    let prefix = spec_settle(dl, now, ol);
    if j < prefix.len() {
        lemma_settle_source(dl, now, ol, j);
        let k = choose|k: int|
            0 <= k < dl.len() && spec_settle_one(#[trigger] dl[k], now, ol[k])
                == Some(spec_settle(dl, now, ol)[j]);
        assert(dl[k] == tasks[k] && ol[k] == oks[k]);
        assert(spec_settle_one(tasks[k], now, oks[k]) == Some(settled[j]));
    } else {
        let n = tasks.len() - 1;
        assert(spec_settle_one(tasks[n], now, oks[n]) == Some(settled[j]));
    }
}

/// Every task that settles to something appears in the pass's result.
pub proof fn lemma_settle_kept(
    tasks: Seq<TaskType>,
    now: ClockTime,
    oks: Seq<bool>,
    i: int,
    v: TaskType,
)
    requires
        tasks.len() == oks.len(),
        0 <= i < tasks.len(),
        spec_settle_one(tasks[i], now, oks[i]) == Some(v),
    ensures
        exists|j: int|
            0 <= j < spec_settle(tasks, now, oks).len()
                && #[trigger] spec_settle(tasks, now, oks)[j] == v,
    decreases tasks.len(),
{
    let settled = spec_settle(tasks, now, oks);
    let dl = tasks.drop_last();
    let ol = oks.drop_last();
    let prefix = spec_settle(dl, now, ol);
    if i == tasks.len() - 1 {
        assert(settled[prefix.len() as int] == v);
    } else {
        assert(dl[i] == tasks[i] && ol[i] == oks[i]);
        lemma_settle_kept(dl, now, ol, i, v);
        let j = choose|j: int|
            0 <= j < spec_settle(dl, now, ol).len() && #[trigger] spec_settle(dl, now, ol)[j] == v;
        assert(settled[j] == v);
    }
}

/// Every suspension the pass keeps is a suspension of the list whose
/// settling was not a success this tick, kept entirely unchanged.
pub proof fn lemma_settle_gulag_source(
    tasks: Seq<TaskType>,
    now: ClockTime,
    oks: Seq<bool>,
    user: u64,
    j: int,
)
    requires
        tasks.len() == oks.len(),
        0 <= j < spec_settle(tasks, now, oks).len(),
        is_gulag_for(spec_settle(tasks, now, oks)[j], user),
    ensures
        exists|k: int|
            0 <= k < tasks.len() && is_gulag_for(#[trigger] tasks[k], user)
                && !(tasks[k].spec_due(now) && oks[k])
                && spec_settle(tasks, now, oks)[j] == tasks[k],
{
    let settled = spec_settle(tasks, now, oks);
    lemma_settle_source(tasks, now, oks, j);
    let k = choose|k: int|
        0 <= k < tasks.len() && spec_settle_one(#[trigger] tasks[k], now, oks[k])
            == Some(spec_settle(tasks, now, oks)[j]);
    if tasks[k].spec_due(now) && oks[k] {
        match tasks[k] {
            TaskType::Gulag(_) => {
                assert(false);
            },
            TaskType::PeriodicTask(_) => {
                assert(!(settled[j] is Gulag));
            },
            TaskType::DateConditionalTask(_) => {
                assert(!(settled[j] is Gulag));
            },
        }
    }
    assert(settled[j] == tasks[k]);
}

/// The pass keeps the store's invariant: settled tasks are each well
/// formed, and no subject ends up with two suspension entries.
pub proof fn lemma_settle_wf(tasks: Seq<TaskType>, now: ClockTime, oks: Seq<bool>)
    requires
        tasks.len() == oks.len(),
        unique_gulag_subjects(tasks),
        all_wf(tasks),
    ensures
        all_wf(spec_settle(tasks, now, oks)),
        unique_gulag_subjects(spec_settle(tasks, now, oks)),
    decreases tasks.len(),
{
    let settled = spec_settle(tasks, now, oks);
    assert forall|j: int| 0 <= j < settled.len() implies (#[trigger] settled[j]).wf() by {
        lemma_settle_source(tasks, now, oks, j);
        let k = choose|k: int|
            0 <= k < tasks.len() && spec_settle_one(#[trigger] tasks[k], now, oks[k])
                == Some(spec_settle(tasks, now, oks)[j]);
        assert(tasks[k].wf());
    }
    if tasks.len() > 0 {
        let dl = tasks.drop_last();
        let ol = oks.drop_last();
        let prefix = spec_settle(dl, now, ol);
        assert(unique_gulag_subjects(dl));
        assert(all_wf(dl));
        lemma_settle_wf(dl, now, ol);
        assert forall|a: int, b: int|
            0 <= a < b < settled.len() && settled[a] is Gulag && settled[b] is Gulag implies settled[a]->Gulag_0.user.1
            != settled[b]->Gulag_0.user.1 by {
            if b < prefix.len() {
                assert(settled[a] == prefix[a] && settled[b] == prefix[b]);
            } else {
                // b names the settled last task, which must then be a kept
                // suspension; a suspension for the same subject in the prefix
                // would trace back to a second one in the list.
                let u = settled[b]->Gulag_0.user.1;
                let n = tasks.len() - 1;
                assert(settled[b] == tasks[n]);
                if is_gulag_for(settled[a], u) {
                    assert(prefix[a] == settled[a]);
                    lemma_settle_gulag_source(dl, now, ol, u, a);
                    let k = choose|k: int|
                        0 <= k < dl.len() && is_gulag_for(#[trigger] dl[k], u)
                            && !(dl[k].spec_due(now) && ol[k])
                            && spec_settle(dl, now, ol)[a] == dl[k];
                    assert(tasks[k] is Gulag && tasks[n] is Gulag);
                    assert(tasks[k]->Gulag_0.user.1 == tasks[n]->Gulag_0.user.1);
                    assert(false);
                }
            }
        }
    }
}

/// What one scheduler pass guarantees for every task that was due and
/// whose action succeeded: a suspension is gone from the settled list —
/// no entry for its subject remains; a periodic task remains, re-armed so
/// that it is no longer due at the same instant; a calendar-conditional
/// task remains unchanged — nothing is re-armed, and its condition may
/// still match within the same second, so only the following instants
/// stop it.
pub proof fn lemma_tick_resolves_due_task(
    tasks: Seq<TaskType>,
    now: ClockTime,
    oks: Seq<bool>,
    i: int,
)
    requires
        tasks.len() == oks.len(),
        unique_gulag_subjects(tasks),
        all_wf(tasks),
        0 <= i < tasks.len(),
        tasks[i].spec_due(now),
        oks[i],
    ensures
        ({
            let settled = spec_settle(tasks, now, oks);
            match tasks[i] {
                TaskType::Gulag(g) => forall|j: int|
                    0 <= j < settled.len() ==> !is_gulag_for(#[trigger] settled[j], g.user.1),
                TaskType::PeriodicTask(p) => exists|j: int|
                    0 <= j < settled.len()
                        && #[trigger] settled[j] == TaskType::PeriodicTask(spec_catch_up(p, now))
                        && !settled[j].spec_due(now),
                TaskType::DateConditionalTask(_) => exists|j: int|
                    0 <= j < settled.len() && #[trigger] settled[j] == tasks[i],
            }
        }),
{
    let settled = spec_settle(tasks, now, oks);
    match tasks[i] {
        TaskType::Gulag(g) => {
            assert forall|j: int| 0 <= j < settled.len() implies !is_gulag_for(
                #[trigger] settled[j],
                g.user.1,
            ) by {
                if is_gulag_for(settled[j], g.user.1) {
                    lemma_settle_gulag_source(tasks, now, oks, g.user.1, j);
                    let k = choose|k: int|
                        0 <= k < tasks.len() && is_gulag_for(#[trigger] tasks[k], g.user.1)
                            && !(tasks[k].spec_due(now) && oks[k])
                            && spec_settle(tasks, now, oks)[j] == tasks[k];
                    if k != i {
                        assert(tasks[k] is Gulag && tasks[i] is Gulag);
                        assert(false);
                    }
                }
            }
        },
        TaskType::PeriodicTask(p) => {
            let v = TaskType::PeriodicTask(spec_catch_up(p, now));
            lemma_settle_kept(tasks, now, oks, i, v);
            vstd::arithmetic::div_mod::lemma_mod_bound(now.secs - p.last_sent, p.diff as int);
        },
        TaskType::DateConditionalTask(_) => {
            lemma_settle_kept(tasks, now, oks, i, tasks[i]);
        },
    }
}

/// A task that was not due this tick, or whose action failed, survives
/// the pass exactly as it was: a failure is retried on a later tick by
/// the ordinary due-check, never by a special path.
pub proof fn lemma_tick_keeps_unresolved_task(
    tasks: Seq<TaskType>,
    now: ClockTime,
    oks: Seq<bool>,
    i: int,
)
    requires
        tasks.len() == oks.len(),
        0 <= i < tasks.len(),
        !(tasks[i].spec_due(now) && oks[i]),
    ensures
        exists|j: int|
            0 <= j < spec_settle(tasks, now, oks).len() && #[trigger] spec_settle(tasks, now, oks)[j]
                == tasks[i],
{
    lemma_settle_kept(tasks, now, oks, i, tasks[i]);
}

/// Which tasks of the working list are due at `now`, in store order. The
/// caller runs the due tasks' actions and reports each success or failure
/// back to [`settle_tick`].
pub fn due_flags(tasks: &Vec<TaskType>, now: &ClockTime) -> (r: Vec<bool>)
    ensures
        r@.len() == tasks@.len(),
        forall|i: int| 0 <= i < tasks@.len() ==> r@[i] == (#[trigger] tasks@[i]).spec_due(*now),
{
    let mut r: Vec<bool> = Vec::new();
    let mut i: usize = 0;
    while i < tasks.len()
        invariant
            i <= tasks@.len(),
            r@.len() == i,
            forall|j: int| 0 <= j < i ==> r@[j] == (#[trigger] tasks@[j]).spec_due(*now),
        decreases tasks@.len() - i,
    {
        r.push(tasks[i].time_to_act(now));
        i = i + 1;
    }
    r
}

/// What one scheduler pass hands back: the settled task list and whether
/// anything in it changed — a suspension completed or a periodic task
/// re-armed — so the caller knows the store must be swapped and persisted.
#[derive(Debug)]
pub struct TickOutcome {
    pub tasks: Vec<TaskType>,
    pub mutated: bool,
}

/// Settle the whole working list for this tick. `oks[i]` reports whether
/// task `i`'s action ran and succeeded; it is read only for tasks that are
/// due. Failures leave their task untouched, so the next tick retries it.
pub fn settle_tick(tasks: Vec<TaskType>, now: &ClockTime, oks: &Vec<bool>) -> (r: TickOutcome)
    requires
        tasks@.len() == oks@.len(),
        unique_gulag_subjects(tasks@),
        all_wf(tasks@),
    ensures
        r.tasks@ == spec_settle(tasks@, *now, oks@),
        unique_gulag_subjects(r.tasks@),
        all_wf(r.tasks@),
        r.mutated == exists|i: int|
            0 <= i < tasks@.len() && (#[trigger] tasks@[i]).spec_due(*now) && oks@[i]
                && !(tasks@[i] is DateConditionalTask),
{
    let ghost orig = tasks@;
    let n = oks.len();
    let mut rest = tasks;
    let mut out: Vec<TaskType> = Vec::new();
    let mut mutated = false;
    let mut i: usize = 0;
    proof {
        assert(orig.skip(0) =~= orig);
        assert(orig.take(0) =~= Seq::<TaskType>::empty());
        assert(oks@.take(0) =~= Seq::<bool>::empty());
    }
    while rest.len() > 0
        invariant
            orig.len() == oks@.len(),
            n == oks@.len(),
            i + rest@.len() == orig.len(),
            rest@ == orig.skip(i as int),
            all_wf(orig),
            out@ == spec_settle(orig.take(i as int), *now, oks@.take(i as int)),
            mutated == exists|k: int|
                0 <= k < i && (#[trigger] orig[k]).spec_due(*now) && oks@[k]
                    && !(orig[k] is DateConditionalTask),
        decreases rest@.len(),
    {
        let ghost rest0 = rest@;
        let t = rest.remove(0);
        proof {
            assert(rest@ =~= rest0.drop_first());
            assert(rest@ =~= orig.skip(i + 1 as int));
            assert(t == orig[i as int]);
            assert(orig.take(i + 1 as int).drop_last() =~= orig.take(i as int));
            assert(oks@.take(i + 1 as int).drop_last() =~= oks@.take(i as int));
            assert(orig.take(i + 1 as int).last() == orig[i as int]);
            assert(oks@.take(i + 1 as int).last() == oks@[i as int]);
        }
        let due = t.time_to_act(now);
        let ok = oks[i];
        if due && ok {
            match t {
                TaskType::Gulag(_) => {
                    mutated = true;
                },
                TaskType::PeriodicTask(mut p) => {
                    proof {
                        assert(orig[i as int].wf());
                    }
                    p.advance_past(now);
                    out.push(TaskType::PeriodicTask(p));
                    mutated = true;
                },
                TaskType::DateConditionalTask(d) => {
                    out.push(TaskType::DateConditionalTask(d));
                },
            }
        } else {
            out.push(t);
        }
        i = i + 1;
    }
    proof {
        assert(orig.take(orig.len() as int) =~= orig);
        assert(oks@.take(orig.len() as int) =~= oks@);
        lemma_settle_wf(orig, *now, oks@);
    }
    TickOutcome { tasks: out, mutated }
}

} // verus!
