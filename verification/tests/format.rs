use velvet_tasks::action::Task;
use velvet_tasks::condition::{DateCondition, TimeOfDay};
use velvet_tasks::message::{EmbedMessage, MessageType};
use velvet_tasks::persist::{parse_tasks, render_tasks};
use velvet_tasks::tasks::{DateConditionalTask, Gulag, PeriodicTask, TaskError, TaskType};

fn sample_embed() -> EmbedMessage {
    EmbedMessage {
        author_icon_url: None,
        author_name: Some(String::from("Officer")),
        author_url: None,
        colour: (243, 44, 115),
        description: Some(String::from("Activity report")),
        fields: Some(vec![
            (String::from("count"), String::from("17"), true),
            (String::from("note"), String::from("line one\nline two"), false),
        ]),
        footer_text: Some(String::from("the tundra")),
        image_url: None,
        thumbnail_url: None,
        timestamp: true,
        title: Some(String::from("Report")),
        title_url: None,
    }
}

fn sample_tasks() -> Vec<TaskType> {
    vec![
        TaskType::Gulag(Gulag::new(
            (String::from("weird \"name\" with \\ and \n newline"), 42),
            vec![(String::from("role one"), 7), (String::from("r\u{00e9}\u{014d}le"), 8)],
            -123,
        )),
        TaskType::PeriodicTask(PeriodicTask {
            task: Task::SendMessage {
                send_to: 999,
                message: MessageType::Embed(Box::new(sample_embed())),
                upload_file: Some(String::from("velvet.png")),
            },
            diff: 604_800,
            last_sent: 1_700_000_000,
        }),
        TaskType::DateConditionalTask(DateConditionalTask {
            task: Task::UpdateAppearance {
                new_name: String::from("Officer Velvet"),
                new_icon_filename: String::from("winter.png"),
            },
            condition: DateCondition {
                time: Some(TimeOfDay { hour: 9, minute: 0, second: 0 }),
                weekday: Some(1),
                day_of_month: None,
                month_of_year: Some(12),
            },
        }),
    ]
}

#[test]
fn round_trip_of_a_full_task_list() {
    let tasks = sample_tasks();
    let text = render_tasks(&tasks);
    let back = parse_tasks(text.as_str()).expect("the rendered list must parse");
    assert_eq!(back.len(), 3);
    // the text of a re-render is identical: nothing was lost or changed
    assert_eq!(render_tasks(&back), text);
    match &back[0] {
        TaskType::Gulag(g) => {
            assert_eq!(g.user.0, "weird \"name\" with \\ and \n newline");
            assert_eq!(g.user.1, 42);
            assert_eq!(g.roles.len(), 2);
            assert_eq!(g.roles[1].0, "r\u{00e9}\u{014d}le");
            assert_eq!(g.roles[1].1, 8);
            assert_eq!(g.end, -123);
        },
        other => panic!("expected the suspension first, got {:?}", other),
    }
    match &back[1] {
        TaskType::PeriodicTask(p) => {
            assert_eq!(p.diff, 604_800);
            assert_eq!(p.last_sent, 1_700_000_000);
            match &p.task {
                Task::SendMessage { send_to, message, upload_file } => {
                    assert_eq!(*send_to, 999);
                    assert_eq!(upload_file.as_deref(), Some("velvet.png"));
                    match message {
                        MessageType::Embed(e) => {
                            assert_eq!(e.colour, (243, 44, 115));
                            assert_eq!(e.description.as_deref(), Some("Activity report"));
                            let fields = e.fields.as_ref().expect("fields survive");
                            assert_eq!(fields.len(), 2);
                            assert_eq!(fields[1].1, "line one\nline two");
                            assert!(e.timestamp);
                        },
                        other => panic!("expected an embed, got {:?}", other),
                    }
                },
                other => panic!("expected a send action, got {:?}", other),
            }
        },
        other => panic!("expected the periodic task second, got {:?}", other),
    }
    match &back[2] {
        TaskType::DateConditionalTask(d) => {
            assert_eq!(d.condition.time, Some(TimeOfDay { hour: 9, minute: 0, second: 0 }));
            assert_eq!(d.condition.weekday, Some(1));
            assert_eq!(d.condition.day_of_month, None);
            assert_eq!(d.condition.month_of_year, Some(12));
        },
        other => panic!("expected the conditional task third, got {:?}", other),
    }
}

#[test]
fn rendered_text_is_exactly_as_specified() {
    let tasks = vec![TaskType::Gulag(Gulag::new(
        (String::from("bob"), 5),
        vec![(String::from("r"), 7)],
        42,
    ))];
    let text = render_tasks(&tasks);
    assert_eq!(text, "[[\"G\",\"bob\",5,[[\"r\",7]],42]]");
    let negative = vec![TaskType::PeriodicTask(PeriodicTask {
        task: Task::UpdateAppearance {
            new_name: String::from("a"),
            new_icon_filename: String::from("b"),
        },
        diff: 60,
        last_sent: -5,
    })];
    assert_eq!(render_tasks(&negative), "[[\"P\",[\"U\",\"a\",\"b\"],60,-5]]");
}

#[test]
fn escapes_render_as_expected() {
    let tasks = vec![TaskType::Gulag(Gulag::new(
        (String::from("a\"b\\c\nd"), 1),
        vec![],
        0,
    ))];
    let text = render_tasks(&tasks);
    assert_eq!(text, "[[\"G\",\"a\\\"b\\\\c\\u000ad\",1,[],0]]");
    let back = parse_tasks(text.as_str()).expect("escaped text parses");
    match &back[0] {
        TaskType::Gulag(g) => assert_eq!(g.user.0, "a\"b\\c\nd"),
        other => panic!("expected the suspension, got {:?}", other),
    }
}

#[test]
fn empty_list_and_empty_file() {
    let empty: Vec<TaskType> = vec![];
    let text = render_tasks(&empty);
    assert_eq!(text, "[]");
    assert_eq!(parse_tasks("[]").expect("the empty list parses").len(), 0);
    // a missing or never-written file is read as no tasks at all
    assert_eq!(parse_tasks("").expect("empty text is the empty list").len(), 0);
}

#[test]
fn malformed_text_is_rejected() {
    for bad in [
        "[",
        "]",
        "[[\"G\",\"bob\",5,[[\"r\",7]],42]",
        "[[\"G\",\"bob\",5,[[\"r\",7]],42]]trailing",
        "[[\"X\",\"bob\",5,[],42]]",
        "[[\"G\",\"bob\",99999999999999999999999,[],42]]",
        "[[\"G\",\"bob\",5,[],42],]",
        "nonsense",
    ] {
        match parse_tasks(bad) {
            Err(TaskError::MalformedTaskList) => {},
            other => panic!("input {:?} must be rejected, got {:?}", bad, other),
        }
    }
}

#[test]
fn parse_checks_bounds_not_just_shape() {
    // a colour byte above 255 is rejected even though the shape is right
    let good = "[[\"P\",[\"S\",1,[\"e\",[null,null,null,1,2,3,null,null,null,null,null,false,null,null,null]],null],60,0]]";
    assert!(parse_tasks(good).is_ok());
    let bad = "[[\"P\",[\"S\",1,[\"e\",[null,null,null,1,2,300,null,null,null,null,null,false,null,null,null]],null],60,0]]";
    match parse_tasks(bad) {
        Err(TaskError::MalformedTaskList) => {},
        other => panic!("an out-of-range colour must be rejected, got {:?}", other),
    }
}
