use chrono::{Datelike, NaiveDate};
use notes::note::{daily_header, date_string, plan, resolve, today_request, Date, NoteAction, NoteRequest};
use notes::projects::{project_name_of, project_names};

fn date(year: i32, month: u32, day: u32) -> Date {
    Date { year, month, day }
}

fn chrono_text(d: Date, fmt: &str) -> String {
    NaiveDate::from_ymd_opt(d.year, d.month, d.day).unwrap().format(fmt).to_string()
}

#[test]
fn date_strings() {
    assert_eq!(date_string(&date(2024, 3, 5)), "2024-03-05");
    assert_eq!(date_string(&date(1999, 12, 31)), "1999-12-31");
    assert_eq!(date_string(&date(12, 1, 9)), "0012-01-09");
}

#[test]
fn date_strings_agree_with_chrono() {
    for d in [date(2024, 3, 5), date(7, 10, 11), date(0, 1, 1), date(9999, 12, 31), date(10000, 1, 1), date(-5, 6, 7), date(-12345, 2, 3)] {
        assert_eq!(date_string(&d), chrono_text(d, "%Y-%m-%d"));
    }
}

#[test]
fn daily_header_text() {
    assert_eq!(daily_header(&date(2024, 3, 5), 1), "# Tue 2024-03-05\n\n");
    assert_eq!(daily_header(&date(2023, 1, 1), 6), "# Sun 2023-01-01\n\n");
}

#[test]
fn daily_header_agrees_with_chrono() {
    for d in [date(2024, 3, 5), date(2000, 2, 29), date(1970, 1, 1)] {
        let nd = NaiveDate::from_ymd_opt(d.year, d.month, d.day).unwrap();
        let w = nd.weekday().num_days_from_monday();
        let expected = format!("# {} {}\n\n", chrono_text(d, "%a"), chrono_text(d, "%Y-%m-%d"));
        assert_eq!(daily_header(&d, w), expected);
    }
}

#[test]
fn resolve_daily_note() {
    let t = resolve(&NoteRequest::Daily { date: date(2024, 3, 5), weekday: 1 });
    assert_eq!(t.dir, "daily");
    assert_eq!(t.file_name, "2024-03-05.md");
    assert_eq!(t.header.as_deref(), Some("# Tue 2024-03-05\n\n"));
}

#[test]
fn resolve_project_note_verbatim() {
    let t = resolve(&NoteRequest::Project { name: "my-project".to_string() });
    assert_eq!(t.dir, "projects");
    assert_eq!(t.file_name, "my-project.md");
    assert!(t.header.is_none());
    let t = resolve(&NoteRequest::Project { name: "a/b c".to_string() });
    assert_eq!(t.file_name, "a/b c.md");
}

#[test]
fn plan_create_or_open() {
    let daily = resolve(&NoteRequest::Daily { date: date(2024, 3, 5), weekday: 1 });
    assert!(matches!(plan(&daily, true), NoteAction::Open));
    match plan(&daily, false) {
        NoteAction::Create { contents } => assert_eq!(contents, "# Tue 2024-03-05\n\n"),
        NoteAction::Open => panic!("a missing note is created"),
    }
    let project = resolve(&NoteRequest::Project { name: "p".to_string() });
    match plan(&project, false) {
        NoteAction::Create { contents } => assert_eq!(contents, ""),
        NoteAction::Open => panic!("a missing note is created"),
    }
}

#[test]
fn daily_note_twice_same_place_no_write() {
    let first = resolve(&NoteRequest::Daily { date: date(2024, 3, 5), weekday: 1 });
    assert!(matches!(plan(&first, false), NoteAction::Create { .. }));
    let second = resolve(&NoteRequest::Daily { date: date(2024, 3, 5), weekday: 1 });
    assert_eq!(first.dir, second.dir);
    assert_eq!(first.file_name, second.file_name);
    assert!(matches!(plan(&second, true), NoteAction::Open));
}

#[test]
fn today_is_a_valid_date() {
    match today_request() {
        NoteRequest::Daily { date, weekday } => {
            assert!((1..=12).contains(&date.month));
            assert!((1..=31).contains(&date.day));
            assert!(weekday < 7);
            assert!(NaiveDate::from_ymd_opt(date.year, date.month, date.day).is_some());
        }
        NoteRequest::Project { .. } => panic!("today's request is a daily one"),
    }
}

#[test]
fn project_name_of_file() {
    assert_eq!(project_name_of("alpha.md").as_deref(), Some("alpha"));
    assert_eq!(project_name_of(".md").as_deref(), Some(""));
    assert_eq!(project_name_of("alpha.txt"), None);
    assert_eq!(project_name_of("alpha.MD"), None);
}

#[test]
fn project_names_sorted_unique() {
    let files: Vec<String> = ["b.md", "a.md", "notes.txt", "a.md", "c.MD", "B.md", "é.md"]
        .iter()
        .map(|s| s.to_string())
        .collect();
    assert_eq!(project_names(&files), vec!["B", "a", "b", "é"]);
    assert!(project_names(&Vec::new()).is_empty());
}
