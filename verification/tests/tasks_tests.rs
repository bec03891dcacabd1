use swarm::dates::{day_number, format_date, next_day, parse_date};
use swarm::model::{Date, TaskEntry};
use swarm::tasks::{
    extract_title, format_due, load_tasks, parse_due, parse_due_input, parse_status,
    parse_summary, sort_tasks, task_file_content, task_preview, TaskFile,
};

fn date(y: i32, m: u8, d: u8) -> Date {
    Date { year: y, month: m, day: d }
}

#[test]
fn frontmatter_fields() {
    let content = "---\nstatus: \"Todo\"\ndue: 2026-03-05\nsummary: Ship it\n---\n\n# Title here\nbody";
    assert_eq!(parse_status(content), Some("todo".to_string()));
    assert_eq!(parse_summary(content), Some("Ship it".to_string()));
    assert_eq!(parse_due(content), Some(date(2026, 3, 5)));
    assert_eq!(extract_title(content), Some("Title here".to_string()));
}

#[test]
fn frontmatter_requires_opening_delimiter() {
    let content = "status: todo\n---\n";
    assert_eq!(parse_status(content), None);
    assert_eq!(parse_due("# just a title"), None);
}

#[test]
fn frontmatter_stops_at_closing_delimiter() {
    let content = "---\ntags: [x]\n---\nstatus: done\n";
    assert_eq!(parse_status(content), None);
}

#[test]
fn dates_parse_and_format() {
    assert_eq!(parse_date("2024-02-29"), Some(date(2024, 2, 29)));
    assert_eq!(parse_date("2023-02-29"), None);
    assert_eq!(parse_date("2023-13-01"), None);
    assert_eq!(parse_date("2023-1-5"), Some(date(2023, 1, 5)));
    assert_eq!(parse_date("nonsense"), None);
    assert_eq!(format_date(&date(2026, 3, 5)), "2026-03-05");
    assert_eq!(next_day(&date(2023, 12, 31)), date(2024, 1, 1));
    assert_eq!(next_day(&date(2024, 2, 28)), date(2024, 2, 29));
    // Day numbers grow by one across a month boundary.
    let a = day_number(&date(2026, 2, 28));
    let b = day_number(&date(2026, 3, 1));
    assert_eq!(b - a, 1);
    assert_eq!(day_number(&date(1970, 1, 1)), 0);
}

fn task_file(name: &str, content: &str) -> TaskFile {
    TaskFile {
        name: name.to_string(),
        path: format!("/tasks/{}", name),
        content: content.to_string(),
    }
}

#[test]
fn load_tasks_filters_and_orders() {
    let files = vec![
        task_file("b.md", "---\nsummary: Beta\ndue: 2026-05-02\n---\n"),
        task_file("README.md", "# readme"),
        task_file("done.md", "---\nstatus: done\nsummary: Finished\n---\n"),
        task_file("a.md", "---\nsummary: Alpha\ndue: 2026-05-01\n---\n"),
        task_file("z.md", "# Zulu undated"),
        task_file("notes.txt", "not a task"),
        task_file("m.md", "# apple undated"),
    ];
    let tasks = load_tasks(files);
    let titles: Vec<&str> = tasks.iter().map(|t| t.title.as_str()).collect();
    // Dated tasks first by date, then undated by lowercased title.
    assert_eq!(titles, vec!["Alpha", "Beta", "apple undated", "Zulu undated"]);
    assert_eq!(tasks[0].path, "/tasks/a.md");
    assert_eq!(tasks[0].status, None);
}

#[test]
fn completed_statuses_are_hidden() {
    let files = vec![
        task_file("x.md", "---\nstatus: Completed\nsummary: X\n---\n"),
        task_file("y.md", "---\nstatus: todo\nsummary: Y\n---\n"),
    ];
    let tasks = load_tasks(files);
    assert_eq!(tasks.len(), 1);
    assert_eq!(tasks[0].title, "Y");
    assert_eq!(tasks[0].status, Some("todo".to_string()));
}

#[test]
fn sorting_is_stable_for_equal_dates() {
    let t1 = TaskEntry {
        title: "first".to_string(),
        path: "/1".to_string(),
        due: Some(date(2026, 1, 1)),
        status: None,
    };
    let t2 = TaskEntry {
        title: "second".to_string(),
        path: "/2".to_string(),
        due: Some(date(2026, 1, 1)),
        status: None,
    };
    let sorted = sort_tasks(vec![t1, t2]);
    assert_eq!(sorted[0].path, "/1");
    assert_eq!(sorted[1].path, "/2");
}

#[test]
fn due_input_year_bumps_when_passed() {
    let today = date(2026, 6, 15);
    // A month-day later this year stays in this year.
    assert_eq!(parse_due_input(Some(&"09-01".to_string()), &today), date(2026, 9, 1));
    // One that has passed moves to next year.
    assert_eq!(parse_due_input(Some(&"03-01".to_string()), &today), date(2027, 3, 1));
    // Anything unusable falls back to tomorrow.
    assert_eq!(parse_due_input(Some(&"wat".to_string()), &today), date(2026, 6, 16));
    assert_eq!(parse_due_input(None, &today), date(2026, 6, 16));
    assert_eq!(parse_due_input(Some(&"13-01".to_string()), &today), date(2026, 6, 16));
}

#[test]
fn new_task_file_content() {
    let content = task_file_content("Fix login", Some(&"Sam".to_string()), &date(2026, 3, 5));
    assert!(content.starts_with("---\nstatus: todo\ndue: 2026-03-05\n"));
    assert!(content.contains("summary: Fix login\n"));
    assert!(content.contains("# Fix login\n"));
    assert!(content.contains("## When done\n- Sam\n"));
    assert!(content.contains("## Process Log\n"));
    let nobody = task_file_content("X", None, &date(2026, 3, 5));
    assert!(nobody.contains("- (fill in who to notify)"));
}

#[test]
fn preview_takes_first_lines() {
    let content = "one\ntwo\nthree\nfour";
    assert_eq!(task_preview(content, 2), "one\ntwo");
    assert_eq!(task_preview(content, 10), "one\ntwo\nthree\nfour");
}

#[test]
fn due_labels() {
    let today = date(2026, 6, 15);
    assert_eq!(format_due(&date(2026, 6, 15), &today), "due today");
    assert_eq!(format_due(&date(2026, 6, 16), &today), "due tomorrow");
    assert_eq!(format_due(&date(2026, 6, 18), &today), "due in 3d");
    assert_eq!(format_due(&date(2026, 6, 14), &today), "due yesterday");
    assert_eq!(format_due(&date(2026, 6, 10), &today), "due 5d ago");
    assert_eq!(format_due(&date(2026, 9, 3), &today), "due Sep 3");
    assert_eq!(format_due(&date(2026, 1, 1), &today), "due Jan 1");
}
