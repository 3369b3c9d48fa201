use vstd::prelude::*;
use crate::action::{Task, TaskV};
use crate::clock::ClockTime;
use crate::condition::DateCondition;

verus! {

/// Errors the task logic itself can report.
#[derive(Clone, Copy, Debug, PartialEq, Eq, Structural)]
pub enum TaskError {
    /// A date or duration computation left the representable range.
    DateOverflow,
    /// A recurring task was given an interval of zero or fewer seconds.
    NonPositiveInterval,
    /// A loaded task list held two suspensions for one subject.
    DuplicateSuspension,
    /// The durable task-list text was malformed or had text left over.
    MalformedTaskList,
}

/// A temporary suspension: the subject's roles were removed when it began
/// and are restored automatically once `end` has passed. `roles` captures
/// exactly the roles removed at the start, with their display names.
#[derive(Debug)]
pub struct Gulag {
    /// Display name and ID of the suspended subject.
    pub user: (String, u64),
    /// Name and ID of every role to give back on release.
    pub roles: Vec<(String, u64)>,
    /// Epoch seconds at which the suspension expires.
    pub end: i64,
}

/// The mathematical value of a [`Gulag`].
pub ghost struct GulagV {
    pub user: (Seq<char>, u64),
    pub roles: Seq<(Seq<char>, u64)>,
    pub end: i64,
}

impl DeepView for Gulag {
    type V = GulagV;

    open spec fn deep_view(&self) -> GulagV {
        GulagV { user: (self.user.0.deep_view(), self.user.1), roles: self.roles.deep_view(), end: self.end }
    }
}

impl Gulag {
    /// Build a suspension entry.
    pub fn new(user: (String, u64), roles: Vec<(String, u64)>, end: i64) -> (g: Gulag)
        ensures
            g.deep_view().user == (user.deep_view().0, user.1),
            g.deep_view().roles == roles.deep_view(),
            g.end == end,
    {
        Gulag { user, roles, end }
    }

    /// Whether this suspension is due: its expiry is not in the future.
    pub open spec fn spec_due(self, now: ClockTime) -> bool {
        self.end <= now.secs
    }

    /// Decide whether the suspension has expired at `now`.
    pub fn time_to_act(&self, now: &ClockTime) -> (r: bool)
        ensures
            r == self.spec_due(*now),
    {
        self.end <= now.secs
    }
}

impl Clone for Gulag {
    /// Cloning keeps the mathematical value.
    fn clone(&self) -> (r: Self)
        ensures
            r.deep_view() == self.deep_view(),
    {
        let mut roles: Vec<(String, u64)> = Vec::new();
        let mut i: usize = 0;
        while i < self.roles.len()
            invariant
                i <= self.roles.len(),
                roles@.len() == i,
                forall|j: int| 0 <= j < i ==> roles@[j].deep_view() == self.roles@[j].deep_view(),
            decreases self.roles.len() - i,
        {
            let (name, id) = &self.roles[i];
            roles.push((name.clone(), *id));
            i = i + 1;
        }
        proof {
            assert(roles.deep_view() =~= self.roles.deep_view());
        }
        Gulag { user: (self.user.0.clone(), self.user.1), roles, end: self.end }
    }
}

/// A recurring action fired at a fixed interval of `diff` seconds:
/// due whenever at least `diff` seconds have passed since `last_sent`.
#[derive(Debug)]
pub struct PeriodicTask {
    pub task: Task,
    /// Seconds between firings; always positive.
    pub diff: i64,
    /// Epoch seconds of the most recent period boundary.
    pub last_sent: i64,
}

/// The mathematical value of a [`PeriodicTask`].
pub ghost struct PeriodicTaskV {
    pub task: TaskV,
    pub diff: i64,
    pub last_sent: i64,
}

impl DeepView for PeriodicTask {
    type V = PeriodicTaskV;

    open spec fn deep_view(&self) -> PeriodicTaskV {
        PeriodicTaskV { task: self.task.deep_view(), diff: self.diff, last_sent: self.last_sent }
    }
}

impl PeriodicTask {
    /// The interval is positive; without this the catch-up loop of a firing
    /// could not terminate.
    pub open spec fn wf(self) -> bool {
        self.diff > 0
    }

    /// Whether the recurring action is due: at least one full interval has passed
    /// since the last period boundary.
    pub open spec fn spec_due(self, now: ClockTime) -> bool {
        now.secs - self.last_sent >= self.diff
    }

    /// Decide whether the task is due at `now`.
    pub fn time_to_act(&self, now: &ClockTime) -> (r: bool)
        ensures
            r == self.spec_due(*now),
    {
        (now.secs as i128) - (self.last_sent as i128) >= (self.diff as i128)
    }

    /// Advance the last period boundary by one interval, as rescheduling
    /// after a firing does. Fails, leaving the task unchanged, only when
    /// the boundary would leave the representable range.
    pub fn elapse_period(&mut self) -> (r: Result<(), TaskError>)
        ensures
            i64::MIN <= old(self).last_sent + old(self).diff <= i64::MAX <==> r is Ok,
            final(self).task == old(self).task,
            final(self).diff == old(self).diff,
            r is Ok ==> final(self).last_sent == old(self).last_sent + old(self).diff,
            r is Err ==> final(self).last_sent == old(self).last_sent && r->Err_0 == TaskError::DateOverflow,
    {
        match self.last_sent.checked_add(self.diff) {
            Some(next) => {
                self.last_sent = next;
                Ok(())
            },
            None => Err(TaskError::DateOverflow),
        }
    }

    /// Re-arm after a successful firing: advance the period boundary by
    /// whole intervals until it is within one interval of `now`. A task
    /// overdue by several periods catches up to the most recent boundary
    /// in one pass rather than firing once per missed period.
    pub fn advance_past(&mut self, now: &ClockTime)
        requires
            old(self).wf(),
            old(self).spec_due(*now),
        ensures
            final(self).task == old(self).task,
            final(self).diff == old(self).diff,
            final(self).last_sent <= now.secs,
            now.secs - final(self).last_sent < final(self).diff,
            exists|k: int| k >= 1 && final(self).last_sent == old(self).last_sent + #[trigger] (k * old(self).diff),
            final(self).last_sent == now.secs - ((now.secs - old(self).last_sent) % (old(self).diff as int)),
            !final(self).spec_due(*now),
    {
        let ghost old_last: int = self.last_sent as int;
        let ghost d: int = self.diff as int;
        let ghost mut k: int = 1;
        let diff = self.diff;
        let mut last = self.last_sent + diff;
        while (now.secs as i128) - (last as i128) >= (diff as i128)
            invariant
                diff == d,
                d > 0,
                last <= now.secs,
                last == old_last + k * d,
                k >= 1,
            decreases now.secs - last,
        {
            proof {
                assert((k + 1) * d == k * d + d) by (nonlinear_arith);
                k = k + 1;
            }
            last = last + diff;
        }
        self.last_sent = last;
        proof {
            assert(k >= 1 && self.last_sent == old(self).last_sent + k * old(self).diff);
            vstd::arithmetic::div_mod::lemma_fundamental_div_mod_converse_mod(
                now.secs - old_last,
                d,
                k,
                now.secs - self.last_sent,
            );
        }
    }
}

impl Clone for PeriodicTask {
    /// Cloning keeps the mathematical value.
    fn clone(&self) -> (r: Self)
        ensures
            r.deep_view() == self.deep_view(),
    {
        PeriodicTask { task: self.task.clone(), diff: self.diff, last_sent: self.last_sent }
    }
}

/// A recurring action fired whenever a calendar condition matches the
/// current instant. Nothing is re-armed after a firing: the condition
/// simply stops matching once the instant's fields move on.
#[derive(Debug)]
pub struct DateConditionalTask {
    pub task: Task,
    pub condition: DateCondition,
}

/// The mathematical value of a [`DateConditionalTask`].
pub ghost struct DateConditionalTaskV {
    pub task: TaskV,
    pub condition: DateCondition,
}

impl DeepView for DateConditionalTask {
    type V = DateConditionalTaskV;

    open spec fn deep_view(&self) -> DateConditionalTaskV {
        DateConditionalTaskV { task: self.task.deep_view(), condition: self.condition }
    }
}

impl DateConditionalTask {
    /// Whether the conditional action is due: its condition matches `now`.
    pub open spec fn spec_due(self, now: ClockTime) -> bool {
        self.condition.spec_matches(now)
    }

    /// Decide whether the condition matches at `now`.
    pub fn time_to_act(&self, now: &ClockTime) -> (r: bool)
        ensures
            r == self.spec_due(*now),
    {
        self.condition.matches(now)
    }
}

impl Clone for DateConditionalTask {
    /// Cloning keeps the mathematical value.
    fn clone(&self) -> (r: Self)
        ensures
            r.deep_view() == self.deep_view(),
    {
        DateConditionalTask { task: self.task.clone(), condition: self.condition }
    }
}

/// The closed union of every kind of scheduled task.
#[derive(Debug)]
pub enum TaskType {
    DateConditionalTask(DateConditionalTask),
    Gulag(Gulag),
    PeriodicTask(PeriodicTask),
}

/// The mathematical value of a [`TaskType`].
pub ghost enum TaskTypeV {
    DateConditionalTask(DateConditionalTaskV),
    Gulag(GulagV),
    PeriodicTask(PeriodicTaskV),
}

impl DeepView for TaskType {
    type V = TaskTypeV;

    open spec fn deep_view(&self) -> TaskTypeV {
        match self {
            TaskType::DateConditionalTask(t) => TaskTypeV::DateConditionalTask(t.deep_view()),
            TaskType::Gulag(g) => TaskTypeV::Gulag(g.deep_view()),
            TaskType::PeriodicTask(p) => TaskTypeV::PeriodicTask(p.deep_view()),
        }
    }
}

impl TaskType {
    /// Every task kind's internal invariant.
    pub open spec fn wf(self) -> bool {
        match self {
            TaskType::PeriodicTask(p) => p.wf(),
            _ => true,
        }
    }

    /// Whether the task is due at `now`, by its own kind's rule.
    pub open spec fn spec_due(self, now: ClockTime) -> bool {
        match self {
            TaskType::DateConditionalTask(t) => t.spec_due(now),
            TaskType::Gulag(g) => g.spec_due(now),
            TaskType::PeriodicTask(p) => p.spec_due(now),
        }
    }

    /// Decide whether the task is due at `now`.
    pub fn time_to_act(&self, now: &ClockTime) -> (r: bool)
        ensures
            r == self.spec_due(*now),
    {
        match self {
            TaskType::DateConditionalTask(t) => t.time_to_act(now),
            TaskType::Gulag(g) => g.time_to_act(now),
            TaskType::PeriodicTask(p) => p.time_to_act(now),
        }
    }

    /// Whether the entry is a suspension.
    pub fn is_gulag(&self) -> (r: bool)
        ensures
            r == (*self is Gulag),
    {
        matches!(self, TaskType::Gulag(_))
    }

    /// The suspension inside the entry, if it is one.
    pub fn gulag_ref(&self) -> (r: Option<&Gulag>)
        ensures
            match r {
                Some(g) => *self is Gulag && *g == self->Gulag_0,
                None => !(*self is Gulag),
            },
    {
        match self {
            TaskType::Gulag(g) => Some(g),
            _ => None,
        }
    }
}

impl Clone for TaskType {
    /// Cloning keeps the mathematical value.
    fn clone(&self) -> (r: Self)
        ensures
            r.deep_view() == self.deep_view(),
    {
        match self {
            TaskType::DateConditionalTask(t) => TaskType::DateConditionalTask(t.clone()),
            TaskType::Gulag(g) => TaskType::Gulag(g.clone()),
            TaskType::PeriodicTask(p) => TaskType::PeriodicTask(p.clone()),
        }
    }
}

/// The arguments of a task-creation command that describe a time period:
/// either an explicit end instant, or a duration given in parts. Unset
/// parts count as zero.
#[derive(Clone, Copy, Debug, PartialEq, Eq, Structural)]
pub struct CreateTimePeriod {
    /// Epoch seconds of the explicit end instant, when one was given.
    pub end_date: Option<i64>,
    pub duration_secs: Option<i64>,
    pub duration_mins: Option<i64>,
    pub duration_hours: Option<i64>,
    pub duration_days: Option<i64>,
    pub duration_weeks: Option<i64>,
}

/// The value of an optional duration part, with unset parts counting as
/// zero.
pub open spec fn opt_or_zero(o: Option<i64>) -> int {
    match o {
        Some(v) => v as int,
        None => 0,
    }
}

impl CreateTimePeriod {
    /// The total duration in seconds that the parts describe, as a
    /// mathematical integer.
    pub open spec fn spec_parts_total(self) -> int {
        opt_or_zero(self.duration_secs)
            + opt_or_zero(self.duration_mins) * 60
            + opt_or_zero(self.duration_hours) * 3600
            + opt_or_zero(self.duration_days) * 86400
            + opt_or_zero(self.duration_weeks) * 604800
    }

    /// The duration in seconds this period stands for at the instant
    /// `now`: the distance to the explicit end when one was given, else
    /// the sum of the parts.
    pub open spec fn spec_duration(self, now: ClockTime) -> int {
        match self.end_date {
            Some(end) => end - now.secs,
            None => self.spec_parts_total(),
        }
    }

    /// Compute the duration in seconds at `now`. Fails exactly when the
    /// result leaves the representable range.
    pub fn to_duration_secs(&self, now: &ClockTime) -> (r: Result<i64, TaskError>)
        ensures
            i64::MIN <= self.spec_duration(*now) <= i64::MAX <==> r is Ok,
            r is Ok ==> r->Ok_0 == self.spec_duration(*now),
            r is Err ==> r->Err_0 == TaskError::DateOverflow,
    {
        let total: i128 = match self.end_date {
            Some(end) => (end as i128) - (now.secs as i128),
            None => {
                let secs = match self.duration_secs { Some(v) => v, None => 0 };
                let mins = match self.duration_mins { Some(v) => v, None => 0 };
                let hours = match self.duration_hours { Some(v) => v, None => 0 };
                let days = match self.duration_days { Some(v) => v, None => 0 };
                let weeks = match self.duration_weeks { Some(v) => v, None => 0 };
                (secs as i128)
                    + (mins as i128) * 60
                    + (hours as i128) * 3600
                    + (days as i128) * 86400
                    + (weeks as i128) * 604800
            },
        };
        if total >= (i64::MIN as i128) && total <= (i64::MAX as i128) {
            Ok(total as i64)
        } else {
            Err(TaskError::DateOverflow)
        }
    }

    /// Compute the end instant this period stands for at `now`: the
    /// explicit end when one was given, else `now` plus the parts. Fails
    /// exactly when the result leaves the representable range.
    pub fn to_end_secs(&self, now: &ClockTime) -> (r: Result<i64, TaskError>)
        ensures
            match self.end_date {
                Some(end) => r == Ok::<i64, TaskError>(end),
                None => {
                    &&& i64::MIN <= now.secs + self.spec_parts_total() <= i64::MAX <==> r is Ok
                    &&& r is Ok ==> r->Ok_0 == now.secs + self.spec_parts_total()
                    &&& r is Err ==> r->Err_0 == TaskError::DateOverflow
                },
            },
    {
        match self.end_date {
            Some(end) => Ok(end),
            None => {
                let secs = match self.duration_secs { Some(v) => v, None => 0 };
                let mins = match self.duration_mins { Some(v) => v, None => 0 };
                let hours = match self.duration_hours { Some(v) => v, None => 0 };
                let days = match self.duration_days { Some(v) => v, None => 0 };
                let weeks = match self.duration_weeks { Some(v) => v, None => 0 };
                let total: i128 = (now.secs as i128)
                    + (secs as i128)
                    + (mins as i128) * 60
                    + (hours as i128) * 3600
                    + (days as i128) * 86400
                    + (weeks as i128) * 604800;
                if total >= (i64::MIN as i128) && total <= (i64::MAX as i128) {
                    Ok(total as i64)
                } else {
                    Err(TaskError::DateOverflow)
                }
            },
        }
    }
}

/// The arguments of the command that creates a recurring fixed-interval
/// task.
#[derive(Debug)]
pub struct CreatePeriodicTask {
    pub task: Task,
    /// Epoch seconds the command gave as the nominal start.
    pub start: i64,
    pub duration: CreateTimePeriod,
}

impl CreatePeriodicTask {
    /// Build the periodic task: its interval is the described duration and
    /// its first period boundary is `now`. Fails when the duration leaves
    /// the representable range or is not positive, since a recurring task
    /// with a non-positive interval could never be re-armed.
    pub fn create(self, now: &ClockTime) -> (r: Result<PeriodicTask, TaskError>)
        ensures
            match r {
                Ok(p) => {
                    &&& 0 < self.duration.spec_duration(*now) <= i64::MAX
                    &&& p.wf()
                    &&& p.task.deep_view() == self.task.deep_view()
                    &&& p.diff == self.duration.spec_duration(*now)
                    &&& p.last_sent == now.secs
                },
                Err(e) => {
                    &&& !(0 < self.duration.spec_duration(*now) <= i64::MAX)
                    &&& e == TaskError::DateOverflow || e == TaskError::NonPositiveInterval
                },
            },
    {
        let diff = self.duration.to_duration_secs(now)?;
        if diff <= 0 {
            return Err(TaskError::NonPositiveInterval);
        }
        Ok(PeriodicTask { task: self.task, diff, last_sent: now.secs })
    }
}

/// The kinds of task the task-creation command can describe.
#[derive(Debug)]
pub enum CreateTaskType {
    DateConditionalTask(DateConditionalTask),
    PeriodicTask(CreatePeriodicTask),
}

impl CreateTaskType {
    /// Turn the command's description into a live task, stamping recurring
    /// tasks with `now` as their first period boundary.
    pub fn create(self, now: &ClockTime) -> (r: Result<TaskType, TaskError>)
        ensures
            match self {
                CreateTaskType::DateConditionalTask(t) => r is Ok
                    && r->Ok_0.deep_view() == TaskTypeV::DateConditionalTask(t.deep_view()),
                CreateTaskType::PeriodicTask(c) => match r {
                    Ok(t) => {
                        &&& t is PeriodicTask
                        &&& t.wf()
                        &&& t->PeriodicTask_0.task.deep_view() == c.task.deep_view()
                        &&& t->PeriodicTask_0.diff == c.duration.spec_duration(*now)
                        &&& t->PeriodicTask_0.last_sent == now.secs
                    },
                    Err(_) => !(0 < c.duration.spec_duration(*now) <= i64::MAX),
                },
            },
    {
        match self {
            CreateTaskType::DateConditionalTask(t) => Ok(TaskType::DateConditionalTask(t)),
            CreateTaskType::PeriodicTask(c) => Ok(TaskType::PeriodicTask(c.create(now)?)),
        }
    }
}

} // verus!
