use velvet_tasks::action::{ActionPlan, Task};
use velvet_tasks::clock::ClockTime;
use velvet_tasks::extras::{days_to_next_kirb_day, escape_formatting, get_ctt_matches, is_kirb_day, Args};
use crossbeam_channel::unbounded;
use velvet_tasks::intake::{drain_tasks, submit_task};
use velvet_tasks::message::MessageType;
use velvet_tasks::persist::render_tasks;
use velvet_tasks::store::{merge_all, merge_into, TaskQuery, TaskStore};
use velvet_tasks::tasks::{Gulag, PeriodicTask, TaskError, TaskType};
use velvet_tasks::tick::{due_flags, settle_tick};

fn at(secs: i64) -> ClockTime {
    ClockTime { secs, hour: 0, minute: 0, second: 0, weekday: 0, day: 1, month: 1 }
}

fn gulag(user: u64, end: i64) -> TaskType {
    TaskType::Gulag(Gulag::new((format!("user{user}"), user), vec![], end))
}

fn periodic(tag: &str, diff: i64, last_sent: i64) -> TaskType {
    TaskType::PeriodicTask(PeriodicTask {
        task: Task::SendMessage {
            send_to: 1,
            message: MessageType::Plain { content: String::from(tag) },
            upload_file: None,
        },
        diff,
        last_sent,
    })
}

fn count_gulags_for(tasks: &[TaskType], user: u64) -> usize {
    tasks
        .iter()
        .filter(|t| match t {
            TaskType::Gulag(g) => g.user.1 == user,
            _ => false,
        })
        .count()
}

#[test]
fn two_suspensions_for_one_subject_leave_one_entry() {
    // both submissions arrive before the first is processed: the store
    // ends with exactly one entry, carrying the later expiry
    let mut store = TaskStore::new();
    store.merge_task(gulag(123, 5_000));
    store.merge_task(gulag(7, 9_000));
    store.merge_task(gulag(123, 6_500));
    assert_eq!(store.tasks.len(), 2);
    assert_eq!(count_gulags_for(&store.tasks, 123), 1);
    match &store.tasks[0] {
        TaskType::Gulag(g) => {
            assert_eq!(g.user.1, 123);
            assert_eq!(g.end, 6_500);
        },
        other => panic!("expected the first entry to stay a suspension, got {:?}", other),
    }
}

#[test]
fn merge_keeps_first_capture_of_saved_roles() {
    let mut tasks: Vec<TaskType> = vec![TaskType::Gulag(Gulag::new(
        (String::from("bob"), 1),
        vec![(String::from("r1"), 11)],
        100,
    ))];
    merge_into(&mut tasks, TaskType::Gulag(Gulag::new((String::from("bob"), 1), vec![], 900)));
    match &tasks[0] {
        TaskType::Gulag(g) => {
            // only the expiry moves; the roles captured at the original
            // suspension stay
            assert_eq!(g.end, 900);
            assert_eq!(g.roles.len(), 1);
            assert_eq!(g.roles[0].1, 11);
        },
        other => panic!("expected a suspension, got {:?}", other),
    }
}

#[test]
fn find_and_update_by_user_and_index() {
    let mut store = TaskStore::new();
    store.merge_task(periodic("a", 60, 0));
    store.merge_task(gulag(1, 100));
    store.merge_task(gulag(2, 200));
    assert_eq!(store.find_and_update(TaskQuery::GulagByUser(2), 999), Some(()));
    match &store.tasks[2] {
        TaskType::Gulag(g) => assert_eq!(g.end, 999),
        other => panic!("expected a suspension, got {:?}", other),
    }
    // index 0 counts suspensions only, skipping the periodic task
    assert_eq!(store.find_and_update(TaskQuery::GulagByIndex(0), 555), Some(()));
    match &store.tasks[1] {
        TaskType::Gulag(g) => {
            assert_eq!(g.user.1, 1);
            assert_eq!(g.end, 555);
        },
        other => panic!("expected a suspension, got {:?}", other),
    }
    assert_eq!(store.find_and_update(TaskQuery::GulagByUser(42), 1), None);
    assert_eq!(store.find_and_update(TaskQuery::GulagByIndex(2), 1), None);
}

#[test]
fn from_tasks_rejects_what_cannot_be_scheduled() {
    match TaskStore::from_tasks(vec![gulag(1, 10), gulag(1, 20)]) {
        Err(TaskError::DuplicateSuspension) => {},
        other => panic!("duplicate subjects must be rejected, got {:?}", other),
    }
    match TaskStore::from_tasks(vec![periodic("a", 0, 0)]) {
        Err(TaskError::NonPositiveInterval) => {},
        other => panic!("a zero interval must be rejected, got {:?}", other),
    }
    let store = TaskStore::from_tasks(vec![gulag(1, 10), gulag(2, 20), periodic("a", 60, 0)])
        .expect("a clean list is accepted");
    assert_eq!(store.tasks.len(), 3);
}

#[test]
fn snapshot_is_a_faithful_copy() {
    let mut store = TaskStore::new();
    store.merge_task(gulag(1, 10));
    store.merge_task(periodic("a", 60, 5));
    let copy = store.snapshot();
    assert_eq!(render_tasks(&copy), render_tasks(&store.tasks));
}

#[test]
fn two_submissions_both_reach_the_store_and_the_file() {
    // two distinct periodic tasks submitted between ticks: after the next
    // tick both stand in the store, and the durable text holds both
    let (sender, receiver) = unbounded::<TaskType>();
    submit_task(&sender, periodic("first", 60, 0)).expect("the queue is open");
    submit_task(&sender, periodic("second", 90, 0)).expect("the queue is open");
    let drained = drain_tasks(&receiver, 1024);
    assert!(!drained.closed);
    assert_eq!(drained.rejected, 0);
    assert_eq!(drained.tasks.len(), 2);

    let mut store = TaskStore::new();
    let mut work = store.snapshot();
    merge_all(&mut work, drained.tasks);
    let now = at(10);
    let due = due_flags(&work, &now);
    assert_eq!(due, vec![false, false]);
    let outcome = settle_tick(work, &now, &due);
    assert!(!outcome.mutated);
    let text = render_tasks(&outcome.tasks);
    assert!(text.contains("first"));
    assert!(text.contains("second"));
    store.replace(outcome.tasks);
    assert_eq!(store.tasks.len(), 2);
}

#[test]
fn drain_reports_a_closed_queue_and_rejects_invalid_tasks() {
    let (sender, receiver) = unbounded::<TaskType>();
    submit_task(&sender, periodic("ok", 60, 0)).expect("the queue is open");
    // an interval of zero would make re-arming impossible; the drain
    // refuses to hand it to the scheduler
    submit_task(&sender, periodic("broken", 0, 0)).expect("the queue is open");
    drop(sender);
    let drained = drain_tasks(&receiver, 1024);
    assert!(drained.closed);
    assert_eq!(drained.rejected, 1);
    assert_eq!(drained.tasks.len(), 1);

    let (sender2, receiver2) = unbounded::<TaskType>();
    drop(receiver2);
    match submit_task(&sender2, periodic("lost", 60, 0)) {
        Err(back) => match back {
            TaskType::PeriodicTask(p) => assert_eq!(p.diff, 60),
            other => panic!("the submission must come back unchanged, got {:?}", other),
        },
        Ok(()) => panic!("a closed queue must refuse the submission"),
    }
}

#[test]
fn action_plans_resolve_paths_and_content() {
    let send = Task::SendMessage {
        send_to: 77,
        message: MessageType::Plain { content: String::from("hello") },
        upload_file: Some(String::from("cat.png")),
    };
    match send.plan("files") {
        ActionPlan::Send(p) => {
            assert_eq!(p.channel, 77);
            assert!(!p.needs_footer_icon);
            assert_eq!(p.attachment.as_deref(), Some("files/cat.png"));
        },
        other => panic!("expected a send plan, got {:?}", other),
    }
    let send2 = Task::SendMessage {
        send_to: 77,
        message: MessageType::Plain { content: String::from("hello") },
        upload_file: Some(String::from("cat.png")),
    };
    match send2.plan("files/") {
        ActionPlan::Send(p) => assert_eq!(p.attachment.as_deref(), Some("files/cat.png")),
        other => panic!("expected a send plan, got {:?}", other),
    }
    let upd = Task::UpdateAppearance {
        new_name: String::from("Velvet"),
        new_icon_filename: String::from("icon.png"),
    };
    match upd.plan("files///") {
        ActionPlan::UpdateAppearance { new_name, avatar_path } => {
            assert_eq!(new_name, "Velvet");
            assert_eq!(avatar_path, "files/icon.png");
        },
        other => panic!("expected an appearance plan, got {:?}", other),
    }
    assert_eq!(Task::default().list_fmt(), "   SEND");
    let upd2 = Task::UpdateAppearance {
        new_name: String::new(),
        new_icon_filename: String::new(),
    };
    assert_eq!(upd2.list_fmt(), "UPDATE");
}

#[test]
fn kirb_day_arithmetic() {
    assert!(is_kirb_day(8));
    assert!(is_kirb_day(18));
    assert!(is_kirb_day(28));
    assert!(!is_kirb_day(9));
    // October 12th: 19 days left in October, then 8 more
    assert_eq!(days_to_next_kirb_day(2026, 10, 12), 27);
    // February in a leap year
    assert_eq!(days_to_next_kirb_day(2024, 2, 28), 9);
    // February outside one
    assert_eq!(days_to_next_kirb_day(2023, 2, 28), 8);
}

#[test]
fn command_scanner_finds_each_command_line() {
    assert_eq!(get_ctt_matches("no command here").len(), 0);
    let one = get_ctt_matches("=>create_task periodic_task --start now");
    assert_eq!(one.len(), 1);
    assert_eq!(one[0], vec![String::from("periodic_task --start now")]);
    let two = get_ctt_matches(
        "=>create_task first args\nchatter\n=>create_task second args",
    );
    assert_eq!(two.len(), 2);
    assert_eq!(two[0], vec![String::from("first args")]);
    assert_eq!(two[1], vec![String::from("second args")]);
    // a bare command with nothing after the space on its line captures
    // nothing
    assert_eq!(get_ctt_matches("=>create_task \nrest").len(), 0);
}

#[test]
fn args_carry_the_config_path() {
    let args = Args { config_file_path: String::from("config.json") };
    assert_eq!(args.config_file_path, "config.json");
}

#[test]
fn message_kind_is_visible() {
    let plain = MessageType::Plain { content: String::from("x") };
    assert!(!plain.is_embed());
}

#[test]
fn markup_characters_are_disarmed() {
    assert_eq!(escape_formatting("plain text"), "plain text");
    assert_eq!(escape_formatting("a*b|c_d~e`f"), "a\\*b\\*c\\*d\\*e\\*f");
    assert_eq!(escape_formatting(""), "");
}
