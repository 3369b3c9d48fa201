use vstd::prelude::*;
use crate::tasks::{Gulag, TaskError, TaskType};

verus! {

/// Whether `t` is a suspension of the subject `user`.
pub open spec fn is_gulag_for(t: TaskType, user: u64) -> bool {
    t is Gulag && t->Gulag_0.user.1 == user
}

/// The position of the first suspension of `user` in the list, if any.
pub open spec fn spec_find_gulag(tasks: Seq<TaskType>, user: u64) -> Option<int>
    decreases tasks.len(),
{
    if tasks.len() == 0 {
        None
    } else if is_gulag_for(tasks[0], user) {
        Some(0int)
    } else {
        match spec_find_gulag(tasks.drop_first(), user) {
            Some(i) => Some(i + 1),
            None => None,
        }
    }
}

/// `t` with its expiry replaced; meaningful only when `t` is a suspension.
pub open spec fn gulag_with_end(t: TaskType, end: i64) -> TaskType {
    TaskType::Gulag(Gulag { user: t->Gulag_0.user, roles: t->Gulag_0.roles, end })
}

/// What submitting one task does to the list: a suspension whose subject
/// already has an entry updates that entry's expiry in place, so one
/// subject never holds two entries; every other task is appended.
pub open spec fn spec_merge(tasks: Seq<TaskType>, t: TaskType) -> Seq<TaskType> {
    match t {
        TaskType::Gulag(g) => match spec_find_gulag(tasks, g.user.1) {
            Some(i) => tasks.update(i, gulag_with_end(tasks[i], g.end)),
            None => tasks.push(t),
        },
        _ => tasks.push(t),
    }
}

/// At most one suspension per subject.
pub open spec fn unique_gulag_subjects(tasks: Seq<TaskType>) -> bool {
    forall|i: int, j: int|
        0 <= i < j < tasks.len() && tasks[i] is Gulag && tasks[j] is Gulag
            ==> tasks[i]->Gulag_0.user.1 != tasks[j]->Gulag_0.user.1
}

/// Every task's own invariant holds.
pub open spec fn all_wf(tasks: Seq<TaskType>) -> bool {
    forall|i: int| 0 <= i < tasks.len() ==> (#[trigger] tasks[i]).wf()
}

/// Where `spec_find_gulag` points: at the first matching entry, with no
/// match anywhere before it; and nowhere only when nothing matches.
pub proof fn lemma_find_gulag_props(tasks: Seq<TaskType>, user: u64)
    ensures
        match spec_find_gulag(tasks, user) {
            Some(i) => 0 <= i < tasks.len() && is_gulag_for(tasks[i], user)
                && forall|j: int| 0 <= j < i ==> !is_gulag_for(#[trigger] tasks[j], user),
            None => forall|j: int| 0 <= j < tasks.len() ==> !is_gulag_for(#[trigger] tasks[j], user),
        },
    decreases tasks.len(),
{
    if tasks.len() > 0 && !is_gulag_for(tasks[0], user) {
        lemma_find_gulag_props(tasks.drop_first(), user);
        assert forall|j: int| 1 <= j < tasks.len() implies tasks.drop_first()[j - 1] == tasks[j] by {}
    }
}

/// `spec_find_gulag` returns exactly the position of the first match.
pub proof fn lemma_find_gulag_at(tasks: Seq<TaskType>, user: u64, i: int)
    requires
        0 <= i < tasks.len(),
        is_gulag_for(tasks[i], user),
        forall|j: int| 0 <= j < i ==> !is_gulag_for(#[trigger] tasks[j], user),
    ensures
        spec_find_gulag(tasks, user) == Some(i),
{
    lemma_find_gulag_props(tasks, user);
    match spec_find_gulag(tasks, user) {
        Some(k) => {
            if k < i {
                assert(is_gulag_for(tasks[k], user));
            } else if k > i {
                assert(!is_gulag_for(tasks[i], user));
            }
        },
        None => {
            assert(!is_gulag_for(tasks[i], user));
        },
    }
}

/// The position of the first suspension of `user` in the list.
pub fn find_gulag_in(tasks: &Vec<TaskType>, user: u64) -> (r: Option<usize>)
    ensures
        match r {
            Some(i) => spec_find_gulag(tasks@, user) == Some(i as int),
            None => spec_find_gulag(tasks@, user) is None,
        },
{
    let n = tasks.len();
    let mut i: usize = 0;
    while i < n
        invariant
            n == tasks@.len(),
            i <= n,
            forall|j: int| 0 <= j < i ==> !is_gulag_for(#[trigger] tasks@[j], user),
        decreases n - i,
    {
        let hit = match &tasks[i] {
            TaskType::Gulag(g) => g.user.1 == user,
            _ => false,
        };
        if hit {
            proof {
                lemma_find_gulag_at(tasks@, user, i as int);
            }
            return Some(i);
        }
        i = i + 1;
    }
    proof {
        lemma_find_gulag_props(tasks@, user);
        if let Some(k) = spec_find_gulag(tasks@, user) {
            assert(!is_gulag_for(tasks@[k], user));
        }
    }
    None
}

/// Merge one submitted task into a working list, as [`spec_merge`] says:
/// a suspension whose subject already has an entry updates that entry's
/// expiry in place, anything else is appended. Keeps the list's invariant.
pub fn merge_into(tasks: &mut Vec<TaskType>, t: TaskType)
    requires
        unique_gulag_subjects(old(tasks)@),
        all_wf(old(tasks)@),
        t.wf(),
    ensures
        final(tasks)@ == spec_merge(old(tasks)@, t),
        unique_gulag_subjects(final(tasks)@),
        all_wf(final(tasks)@),
{
    let ghost tasks0 = tasks@;
    let target = match &t {
        TaskType::Gulag(g) => Some((g.user.1, g.end)),
        _ => None,
    };
    match target {
        Some((user, end)) => {
            match find_gulag_in(tasks, user) {
                Some(i) => {
                    proof {
                        lemma_find_gulag_props(tasks0, user);
                    }
                    let prev = tasks.remove(i);
                    let updated = match prev {
                        TaskType::Gulag(g) => TaskType::Gulag(Gulag {
                            user: g.user,
                            roles: g.roles,
                            end,
                        }),
                        other => other,
                    };
                    tasks.insert(i, updated);
                    proof {
                        assert(tasks@ =~= tasks0.update(i as int, gulag_with_end(tasks0[i as int], end)));
                    }
                },
                None => {
                    proof {
                        lemma_find_gulag_props(tasks0, user);
                    }
                    tasks.push(t);
                },
            }
        },
        None => {
            tasks.push(t);
        },
    }
}

/// What draining the whole intake queue does: each submitted task merged
/// in turn, in the order received.
pub open spec fn spec_merge_all(tasks: Seq<TaskType>, drained: Seq<TaskType>) -> Seq<TaskType>
    decreases drained.len(),
{
    if drained.len() == 0 {
        tasks
    } else {
        spec_merge_all(spec_merge(tasks, drained[0]), drained.drop_first())
    }
}

/// Merge every drained submission into the working list, in order.
pub fn merge_all(tasks: &mut Vec<TaskType>, drained: Vec<TaskType>)
    requires
        unique_gulag_subjects(old(tasks)@),
        all_wf(old(tasks)@),
        all_wf(drained@),
    ensures
        final(tasks)@ == spec_merge_all(old(tasks)@, drained@),
        unique_gulag_subjects(final(tasks)@),
        all_wf(final(tasks)@),
{
    let mut rest = drained;
    while rest.len() > 0
        invariant
            unique_gulag_subjects(tasks@),
            all_wf(tasks@),
            all_wf(rest@),
            spec_merge_all(tasks@, rest@) == spec_merge_all(old(tasks)@, drained@),
        decreases rest@.len(),
    {
        let ghost rest0 = rest@;
        let t = rest.remove(0);
        proof {
            assert(rest@ =~= rest0.drop_first());
            assert(forall|j: int| 0 <= j < rest@.len() ==> rest@[j] == rest0[j + 1]);
        }
        merge_into(tasks, t);
    }
}

/// The authoritative in-memory task list. Its invariant: no subject has
/// two suspension entries, and every task's own invariant holds.
#[derive(Debug)]
pub struct TaskStore {
    pub tasks: Vec<TaskType>,
}

/// Ways a targeted update can pick out a suspension entry.
#[derive(Clone, Copy, Debug, PartialEq, Eq, Structural)]
pub enum TaskQuery {
    /// The suspension whose subject has this ID.
    GulagByUser(u64),
    /// The n-th suspension in store order, counting from zero and skipping
    /// the other task kinds.
    GulagByIndex(usize),
}

/// How many of the tasks are suspensions.
pub open spec fn spec_count_gulags(tasks: Seq<TaskType>) -> int
    decreases tasks.len(),
{
    if tasks.len() == 0 {
        0
    } else {
        spec_count_gulags(tasks.drop_last()) + if tasks.last() is Gulag { 1int } else { 0int }
    }
}

impl TaskStore {
    /// The store's invariant.
    pub open spec fn wf(self) -> bool {
        unique_gulag_subjects(self.tasks@) && all_wf(self.tasks@)
    }

    /// An empty store.
    pub fn new() -> (s: TaskStore)
        ensures
            s.wf(),
            s.tasks@.len() == 0,
    {
        TaskStore { tasks: Vec::new() }
    }

    /// Adopt a freshly loaded task list, first checking the store's
    /// invariant over it: a list that holds two suspensions for one
    /// subject or a recurring task with a non-positive interval cannot be
    /// scheduled safely and is rejected.
    pub fn from_tasks(tasks: Vec<TaskType>) -> (r: Result<TaskStore, TaskError>)
        ensures
            unique_gulag_subjects(tasks@) && all_wf(tasks@) <==> r is Ok,
            r is Ok ==> r->Ok_0.tasks == tasks,
    {
        let n = tasks.len();
        let mut i: usize = 0;
        while i < n
            invariant
                n == tasks@.len(),
                i <= n,
                forall|k: int| 0 <= k < i ==> (#[trigger] tasks@[k]).wf(),
            decreases n - i,
        {
            let ok = match &tasks[i] {
                TaskType::PeriodicTask(p) => p.diff > 0,
                _ => true,
            };
            if !ok {
                return Err(TaskError::NonPositiveInterval);
            }
            i = i + 1;
        }
        let mut i: usize = 0;
        while i < n
            invariant
                n == tasks@.len(),
                i <= n,
                forall|a: int, b: int|
                    0 <= a < b < n && a < i && tasks@[a] is Gulag && tasks@[b] is Gulag
                        ==> tasks@[a]->Gulag_0.user.1 != tasks@[b]->Gulag_0.user.1,
            decreases n - i,
        {
            let user = match &tasks[i] {
                TaskType::Gulag(g) => Some(g.user.1),
                _ => None,
            };
            if let Some(u) = user {
                let mut j: usize = i + 1;
                while j < n
                    invariant
                        n == tasks@.len(),
                        i < j <= n,
                        tasks@[i as int] is Gulag,
                        tasks@[i as int]->Gulag_0.user.1 == u,
                        forall|b: int| i < b < j && #[trigger] tasks@[b] is Gulag
                            ==> tasks@[b]->Gulag_0.user.1 != u,
                    decreases n - j,
                {
                    let dup = match &tasks[j] {
                        TaskType::Gulag(g) => g.user.1 == u,
                        _ => false,
                    };
                    if dup {
                        return Err(TaskError::DuplicateSuspension);
                    }
                    j = j + 1;
                }
            }
            i = i + 1;
        }
        Ok(TaskStore { tasks })
    }

    /// The position of the first suspension of `user`.
    pub fn find_gulag_index(&self, user: u64) -> (r: Option<usize>)
        ensures
            match r {
                Some(i) => spec_find_gulag(self.tasks@, user) == Some(i as int),
                None => spec_find_gulag(self.tasks@, user) is None,
            },
    {
        find_gulag_in(&self.tasks, user)
    }

    /// Submit one task: a suspension whose subject already has an entry
    /// updates that entry's expiry in place, anything else is appended.
    /// The store's invariant is preserved.
    pub fn merge_task(&mut self, t: TaskType)
        requires
            old(self).wf(),
            t.wf(),
        ensures
            final(self).wf(),
            final(self).tasks@ == spec_merge(old(self).tasks@, t),
    {
        merge_into(&mut self.tasks, t);
    }

    /// Find the suspension the query names and move its expiry to
    /// `new_end`. Returns `Some(())` when an entry was found and updated;
    /// `None` leaves the store untouched, so the caller can report that no
    /// such task exists.
    pub fn find_and_update(&mut self, query: TaskQuery, new_end: i64) -> (r: Option<()>)
        requires
            old(self).wf(),
        ensures
            final(self).wf(),
            match query {
                TaskQuery::GulagByUser(user) => match spec_find_gulag(old(self).tasks@, user) {
                    Some(i) => r is Some && final(self).tasks@
                        == old(self).tasks@.update(i, gulag_with_end(old(self).tasks@[i], new_end)),
                    None => r is None && final(self).tasks@ == old(self).tasks@,
                },
                TaskQuery::GulagByIndex(n) => match r {
                    Some(_) => exists|i: int|
                        0 <= i < old(self).tasks@.len()
                            && #[trigger] old(self).tasks@[i] is Gulag
                            && spec_count_gulags(old(self).tasks@.take(i)) == n
                            && final(self).tasks@
                                == old(self).tasks@.update(i, gulag_with_end(old(self).tasks@[i], new_end)),
                    None => final(self).tasks@ == old(self).tasks@
                        && spec_count_gulags(old(self).tasks@) <= n,
                },
            },
    {
        let ghost tasks0 = self.tasks@;
        let found: Option<usize> = match query {
            TaskQuery::GulagByUser(user) => self.find_gulag_index(user),
            TaskQuery::GulagByIndex(n) => {
                let len = self.tasks.len();
                let mut i: usize = 0;
                let mut count: usize = 0;
                let mut found: Option<usize> = None;
                while i < len && found.is_none()
                    invariant
                        len == self.tasks@.len(),
                        i <= len,
                        match found {
                            Some(fi) => fi < len && self.tasks@[fi as int] is Gulag
                                && spec_count_gulags(self.tasks@.take(fi as int)) == n,
                            None => count == spec_count_gulags(self.tasks@.take(i as int))
                                && count <= n,
                        },
                    decreases (if found is None { 1int } else { 0int }), len - i,
                {
                    let is_g = matches!(&self.tasks[i], TaskType::Gulag(_));
                    proof {
                        assert(self.tasks@.take(i + 1 as int).drop_last() =~= self.tasks@.take(i as int));
                    }
                    if is_g && count == n {
                        found = Some(i);
                    } else {
                        if is_g {
                            count = count + 1;
                        }
                        i = i + 1;
                    }
                }
                proof {
                    if found is None {
                        assert(self.tasks@.take(len as int) =~= self.tasks@);
                    }
                }
                found
            },
        };
        match found {
            Some(i) => {
                proof {
                    if let TaskQuery::GulagByUser(user) = query {
                        lemma_find_gulag_props(tasks0, user);
                    }
                }
                let prev = self.tasks.remove(i);
                let new_end_local = new_end;
                let updated = match prev {
                    TaskType::Gulag(g) => TaskType::Gulag(Gulag {
                        user: g.user,
                        roles: g.roles,
                        end: new_end_local,
                    }),
                    other => other,
                };
                self.tasks.insert(i, updated);
                proof {
                    assert(self.tasks@ =~= tasks0.update(i as int, gulag_with_end(tasks0[i as int], new_end)));
                }
                Some(())
            },
            None => None,
        }
    }

    /// A copy of the current task list, equal to it value for value.
    pub fn snapshot(&self) -> (r: Vec<TaskType>)
        ensures
            r.deep_view() == self.tasks.deep_view(),
            r@.len() == self.tasks@.len(),
    {
        let mut out: Vec<TaskType> = Vec::new();
        let mut i: usize = 0;
        while i < self.tasks.len()
            invariant
                i <= self.tasks@.len(),
                out@.len() == i,
                forall|j: int| 0 <= j < i
                    ==> (#[trigger] out@[j]).deep_view() == self.tasks@[j].deep_view(),
            decreases self.tasks@.len() - i,
        {
            out.push(self.tasks[i].clone());
            i = i + 1;
        }
        proof {
            assert(out.deep_view() =~= self.tasks.deep_view());
        }
        out
    }

    /// Swap in the task list a scheduler pass produced. The pass is bound
    /// to hand back a list that still satisfies the store's invariant.
    pub fn replace(&mut self, tasks: Vec<TaskType>)
        requires
            unique_gulag_subjects(tasks@),
            all_wf(tasks@),
        ensures
            final(self).wf(),
            final(self).tasks == tasks,
    {
        self.tasks = tasks;
    }
}

/// Submitting two suspensions for one subject, in either order and however
/// the store looked before, leaves exactly one entry for that subject, and
/// its expiry is the one submitted last.
pub proof fn lemma_submit_idempotent_by_subject(tasks: Seq<TaskType>, g1: Gulag, g2: Gulag)
    requires
        unique_gulag_subjects(tasks),
        g1.user.1 == g2.user.1,
    ensures
        ({
            let merged = spec_merge(spec_merge(tasks, TaskType::Gulag(g1)), TaskType::Gulag(g2));
            exists|i: int|
                0 <= i < merged.len()
                    && is_gulag_for(#[trigger] merged[i], g2.user.1)
                    && merged[i]->Gulag_0.end == g2.end
                    && forall|j: int|
                        0 <= j < merged.len() && j != i
                            ==> !is_gulag_for(#[trigger] merged[j], g2.user.1)
        }),
{
    let u = g2.user.1;
    lemma_find_gulag_props(tasks, u);
    match spec_find_gulag(tasks, u) {
        Some(i) => {
            let m1 = tasks.update(i, gulag_with_end(tasks[i], g1.end));
            assert(spec_merge(tasks, TaskType::Gulag(g1)) == m1);
            lemma_find_gulag_at(m1, u, i);
            let m2 = m1.update(i, gulag_with_end(m1[i], g2.end));
            assert(spec_merge(m1, TaskType::Gulag(g2)) == m2);
            assert(is_gulag_for(m2[i], u) && m2[i]->Gulag_0.end == g2.end);
            assert forall|j: int| 0 <= j < m2.len() && j != i implies !is_gulag_for(
                #[trigger] m2[j],
                u,
            ) by {
                assert(m2[j] == tasks[j]);
                if is_gulag_for(tasks[j], u) {
                    assert(tasks[i] is Gulag && tasks[j] is Gulag);
                    if j < i {
                        assert(tasks[j]->Gulag_0.user.1 != tasks[i]->Gulag_0.user.1);
                    } else {
                        assert(tasks[i]->Gulag_0.user.1 != tasks[j]->Gulag_0.user.1);
                    }
                }
            }
        },
        None => {
            let m1 = tasks.push(TaskType::Gulag(g1));
            assert(spec_merge(tasks, TaskType::Gulag(g1)) == m1);
            let n = tasks.len() as int;
            assert(is_gulag_for(m1[n], u));
            assert forall|j: int| 0 <= j < n implies !is_gulag_for(#[trigger] m1[j], u) by {
                assert(m1[j] == tasks[j]);
            }
            lemma_find_gulag_at(m1, u, n);
            let m2 = m1.update(n, gulag_with_end(m1[n], g2.end));
            assert(spec_merge(m1, TaskType::Gulag(g2)) == m2);
            assert(is_gulag_for(m2[n], u) && m2[n]->Gulag_0.end == g2.end);
            assert forall|j: int| 0 <= j < m2.len() && j != n implies !is_gulag_for(
                #[trigger] m2[j],
                u,
            ) by {
                assert(m2[j] == tasks[j]);
            }
        },
    }
}

} // verus!
