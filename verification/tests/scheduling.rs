use velvet_tasks::action::Task;
use velvet_tasks::clock::ClockTime;
use velvet_tasks::condition::{DateCondition, TimeOfDay};
use velvet_tasks::message::MessageType;
use velvet_tasks::restore::{restore_completed, restore_next, restore_start, RestoreCall, RestoreState};
use velvet_tasks::tasks::{
    CreatePeriodicTask, CreateTaskType, CreateTimePeriod, DateConditionalTask, Gulag,
    PeriodicTask, TaskError, TaskType,
};
use velvet_tasks::tick::{due_flags, settle_tick};

fn at(secs: i64) -> ClockTime {
    ClockTime { secs, hour: 12, minute: 30, second: 15, weekday: 2, day: 8, month: 10 }
}

fn plain_send(channel: u64, text: &str) -> Task {
    Task::SendMessage {
        send_to: channel,
        message: MessageType::Plain { content: String::from(text) },
        upload_file: None,
    }
}

fn unset_condition() -> DateCondition {
    DateCondition { time: None, weekday: None, day_of_month: None, month_of_year: None }
}

#[test]
fn gulag_due_exactly_at_expiry() {
    let g = Gulag::new((String::from("bob"), 123), vec![], 1_000);
    assert!(!g.time_to_act(&at(999)));
    assert!(g.time_to_act(&at(1_000)));
    assert!(g.time_to_act(&at(1_001)));
}

#[test]
fn periodic_due_after_full_interval() {
    let p = PeriodicTask { task: plain_send(1, "hi"), diff: 60, last_sent: 1_000 };
    assert!(!p.time_to_act(&at(1_059)));
    assert!(p.time_to_act(&at(1_060)));
    assert!(p.time_to_act(&at(2_000)));
}

#[test]
fn missed_periods_caught_up_in_one_pass() {
    // overdue by 185 seconds with a 60 second interval: one re-arm lands
    // within [now - 60, now), not three separate firings
    let now = at(10_185);
    let mut p = PeriodicTask { task: plain_send(1, "hi"), diff: 60, last_sent: 10_000 };
    p.advance_past(&now);
    assert_eq!(p.last_sent, 10_180);
    assert!(p.last_sent >= now.secs - 60 && p.last_sent < now.secs);
    assert!(!p.time_to_act(&now));
}

#[test]
fn elapse_period_reports_overflow() {
    let mut p = PeriodicTask { task: plain_send(1, "hi"), diff: 10, last_sent: i64::MAX - 5 };
    assert_eq!(p.elapse_period(), Err(TaskError::DateOverflow));
    assert_eq!(p.last_sent, i64::MAX - 5);
    let mut q = PeriodicTask { task: plain_send(1, "hi"), diff: 10, last_sent: 100 };
    assert_eq!(q.elapse_period(), Ok(()));
    assert_eq!(q.last_sent, 110);
}

#[test]
fn unset_condition_always_matches() {
    let c = unset_condition();
    assert!(c.matches(&at(0)));
    assert!(c.matches(&at(123_456)));
    let odd = ClockTime { secs: -5, hour: 0, minute: 0, second: 0, weekday: 6, day: 31, month: 12 };
    assert!(c.matches(&odd));
}

#[test]
fn condition_fields_must_all_match() {
    let now = at(0); // hour 12, minute 30, second 15, weekday 2, day 8, month 10
    let mut c = unset_condition();
    c.time = Some(TimeOfDay { hour: 12, minute: 30, second: 15 });
    assert!(c.matches(&now));
    c.weekday = Some(2);
    c.day_of_month = Some(8);
    c.month_of_year = Some(10);
    assert!(c.matches(&now));
    c.weekday = Some(3);
    assert!(!c.matches(&now));
    c.weekday = Some(2);
    c.time = Some(TimeOfDay { hour: 12, minute: 30, second: 16 });
    assert!(!c.matches(&now));
}

#[test]
fn tick_removes_finished_suspension() {
    // a suspension expired in the past: after one settled tick with a
    // successful action, it is gone from the list
    let now = at(5_000);
    let tasks = vec![
        TaskType::Gulag(Gulag::new(
            (String::from("u123"), 123),
            vec![(String::from("R1"), 1), (String::from("R2"), 2)],
            4_000,
        )),
        TaskType::PeriodicTask(PeriodicTask { task: plain_send(1, "hi"), diff: 60, last_sent: 4_990 }),
    ];
    let due = due_flags(&tasks, &now);
    assert_eq!(due, vec![true, false]);
    let oks = vec![true, false];
    let outcome = settle_tick(tasks, &now, &oks);
    assert!(outcome.mutated);
    assert_eq!(outcome.tasks.len(), 1);
    assert!(!outcome.tasks[0].is_gulag());
}

#[test]
fn tick_rearms_due_periodic_and_keeps_conditional() {
    let now = at(5_000);
    let tasks = vec![
        TaskType::PeriodicTask(PeriodicTask { task: plain_send(1, "hi"), diff: 60, last_sent: 4_815 }),
        TaskType::DateConditionalTask(DateConditionalTask {
            task: plain_send(2, "ho"),
            condition: unset_condition(),
        }),
    ];
    let due = due_flags(&tasks, &now);
    assert_eq!(due, vec![true, true]);
    let oks = vec![true, true];
    let outcome = settle_tick(tasks, &now, &oks);
    assert!(outcome.mutated);
    assert_eq!(outcome.tasks.len(), 2);
    match &outcome.tasks[0] {
        TaskType::PeriodicTask(p) => {
            assert_eq!(p.last_sent, 4_995);
            assert!(!p.time_to_act(&now));
        },
        _ => panic!("expected the periodic task to stay"),
    }
    match &outcome.tasks[1] {
        TaskType::DateConditionalTask(d) => {
            assert!(d.condition.time.is_none());
        },
        _ => panic!("expected the conditional task to stay"),
    }
}

#[test]
fn failed_action_leaves_task_for_retry() {
    // the suspension's restoration failed: the entry stays, unchanged,
    // and the next tick sees it due again
    let now = at(5_000);
    let tasks = vec![TaskType::Gulag(Gulag::new((String::from("bob"), 9), vec![], 4_000))];
    let oks = vec![false];
    let outcome = settle_tick(tasks, &now, &oks);
    assert!(!outcome.mutated);
    assert_eq!(outcome.tasks.len(), 1);
    match &outcome.tasks[0] {
        TaskType::Gulag(g) => {
            assert_eq!(g.user.1, 9);
            assert_eq!(g.end, 4_000);
            assert!(g.time_to_act(&now));
        },
        _ => panic!("expected the suspension to stay"),
    }
}

#[test]
fn restore_completes_only_when_both_steps_succeed() {
    let (s0, first) = restore_start();
    assert_eq!(first, RestoreCall::RemoveIndicator);
    // full success
    let (s1, c1) = restore_next(s0, true);
    assert_eq!(c1, Some(RestoreCall::AddSavedRoles));
    let (s2, c2) = restore_next(s1, true);
    assert_eq!(c2, None);
    assert!(restore_completed(&s2));
    // the role-add step fails after removal succeeded: the fallback
    // re-adds the indicator and the attempt ends failed
    let (t1, _) = restore_next(s0, true);
    let (t2, c) = restore_next(t1, false);
    assert_eq!(c, Some(RestoreCall::ReAddIndicator));
    assert_eq!(t2, RestoreState::ReAddingIndicator);
    let (t3, c3) = restore_next(t2, true);
    assert_eq!(c3, None);
    assert_eq!(t3, RestoreState::Failed);
    assert!(!restore_completed(&t3));
    // the removal itself fails: nothing else is attempted
    let (u1, cu) = restore_next(s0, false);
    assert_eq!(cu, None);
    assert_eq!(u1, RestoreState::Failed);
}

#[test]
fn create_time_period_from_parts() {
    let ctp = CreateTimePeriod {
        end_date: None,
        duration_secs: Some(100),
        duration_mins: None,
        duration_hours: None,
        duration_days: None,
        duration_weeks: None,
    };
    assert_eq!(ctp.to_duration_secs(&at(0)), Ok(100));
    let mixed = CreateTimePeriod {
        end_date: None,
        duration_secs: Some(30),
        duration_mins: Some(1),
        duration_hours: Some(2),
        duration_days: Some(1),
        duration_weeks: Some(1),
    };
    assert_eq!(mixed.to_duration_secs(&at(0)), Ok(30 + 60 + 7_200 + 86_400 + 604_800));
    let by_end = CreateTimePeriod {
        end_date: Some(10_000),
        duration_secs: None,
        duration_mins: None,
        duration_hours: None,
        duration_days: None,
        duration_weeks: None,
    };
    assert_eq!(by_end.to_duration_secs(&at(4_000)), Ok(6_000));
    assert_eq!(by_end.to_end_secs(&at(4_000)), Ok(10_000));
}

#[test]
fn create_time_period_overflow_is_an_error() {
    let huge = CreateTimePeriod {
        end_date: None,
        duration_secs: Some(i64::MAX),
        duration_mins: None,
        duration_hours: None,
        duration_days: None,
        duration_weeks: Some(i64::MAX),
    };
    assert_eq!(huge.to_duration_secs(&at(0)), Err(TaskError::DateOverflow));
    assert_eq!(huge.to_end_secs(&at(0)), Err(TaskError::DateOverflow));
}

#[test]
fn create_periodic_task_rejects_non_positive_interval() {
    let make = |secs: i64| CreatePeriodicTask {
        task: plain_send(1, "hi"),
        start: 0,
        duration: CreateTimePeriod {
            end_date: None,
            duration_secs: Some(secs),
            duration_mins: None,
            duration_hours: None,
            duration_days: None,
            duration_weeks: None,
        },
    };
    match make(0).create(&at(100)) {
        Err(TaskError::NonPositiveInterval) => {},
        other => panic!("expected a non-positive interval error, got {:?}", other),
    }
    let p = make(60).create(&at(100)).expect("a positive interval must be accepted");
    assert_eq!(p.diff, 60);
    assert_eq!(p.last_sent, 100);
}

#[test]
fn create_task_type_builds_both_kinds() {
    let dct = CreateTaskType::DateConditionalTask(DateConditionalTask {
        task: plain_send(1, "hi"),
        condition: unset_condition(),
    });
    match dct.create(&at(100)) {
        Ok(TaskType::DateConditionalTask(_)) => {},
        other => panic!("expected a conditional task, got {:?}", other),
    }
    let pt = CreateTaskType::PeriodicTask(CreatePeriodicTask {
        task: plain_send(1, "hi"),
        start: 0,
        duration: CreateTimePeriod {
            end_date: Some(160),
            duration_secs: None,
            duration_mins: None,
            duration_hours: None,
            duration_days: None,
            duration_weeks: None,
        },
    });
    match pt.create(&at(100)) {
        Ok(TaskType::PeriodicTask(p)) => {
            assert_eq!(p.diff, 60);
            assert_eq!(p.last_sent, 100);
        },
        other => panic!("expected a periodic task, got {:?}", other),
    }
}

#[test]
fn now_clock_fields_are_in_range() {
    let t = velvet_tasks::clock::now_clock();
    assert!(t.hour < 24);
    assert!(t.minute < 60);
    assert!(t.second < 60);
    assert!(t.weekday < 7);
    assert!((1..=31).contains(&t.day));
    assert!((1..=12).contains(&t.month));
    // the clock reads as a present-day instant, not the epoch
    assert!(t.secs > 1_500_000_000);
}

#[test]
fn listing_lines_match_the_expected_format() {
    let g = Gulag::new((String::from("bob"), 5), vec![], -3);
    assert_eq!(g.list_fmt(), "  G | User \"bob\" (5) until -3");
    let p = PeriodicTask { task: plain_send(1, "hi"), diff: 60, last_sent: 99 };
    assert_eq!(p.list_fmt(), " PT |    SEND | Last: 99");
    let c = DateCondition {
        time: Some(TimeOfDay { hour: 9, minute: 0, second: 5 }),
        weekday: Some(0),
        day_of_month: None,
        month_of_year: Some(12),
    };
    // a set time carries its own trailing space before the separator, as
    // the listing always has
    assert_eq!(c.list_fmt(), "T 09:00:05  WD Mon MOY 12");
    let bare = DateCondition { time: None, weekday: None, day_of_month: Some(8), month_of_year: None };
    assert_eq!(bare.list_fmt(), "DOM 8");
    let d = DateConditionalTask {
        task: Task::UpdateAppearance {
            new_name: String::from("a"),
            new_icon_filename: String::from("b"),
        },
        condition: bare,
    };
    assert_eq!(d.list_fmt(), "DCT | UPDATE | DOM 8");
    let t = TaskType::Gulag(Gulag::new((String::from("x"), 1), vec![], 0));
    assert_eq!(t.list_fmt(), "  G | User \"x\" (1) until 0");
}

#[test]
fn expired_suspension_is_restored_and_removed_within_one_tick() {
    // the suspension of subject 123 with saved roles R1 and R2 expired
    // before the first tick after its creation: that one tick removes the
    // indicator role, re-adds R1 and R2, and drops the entry from the store
    let mut store = velvet_tasks::store::TaskStore::new();
    store.merge_task(TaskType::Gulag(Gulag::new(
        (String::from("u123"), 123),
        vec![(String::from("R1"), 1), (String::from("R2"), 2)],
        4_000,
    )));
    let now = at(4_001);
    let work = store.snapshot();
    let due = due_flags(&work, &now);
    assert_eq!(due, vec![true]);

    // the external side performs exactly the calls the machine asks for
    let mut performed: Vec<RestoreCall> = Vec::new();
    let (mut state, first) = restore_start();
    let mut pending = Some(first);
    while let Some(call) = pending {
        performed.push(call);
        let all_calls_succeed = true;
        let (next_state, next_call) = restore_next(state, all_calls_succeed);
        state = next_state;
        pending = next_call;
    }
    assert_eq!(performed, vec![RestoreCall::RemoveIndicator, RestoreCall::AddSavedRoles]);
    let ok = restore_completed(&state);
    assert!(ok);

    let outcome = settle_tick(work, &now, &vec![ok]);
    assert!(outcome.mutated);
    assert_eq!(outcome.tasks.len(), 0);
    store.replace(outcome.tasks);
    assert_eq!(store.tasks.len(), 0);
}
