use notes::report::{decimal_string, render_reports, summary_line};
use notes::scan::scan_text;
use notes::task::{classify_line, is_open_task_line, is_space_char, LineKind};
use notes::tree::{has_markdown_extension, scan_entry, scan_file, Entry, FileReport};

fn file(name: &str, contents: &str) -> Entry {
    Entry::File { name: name.to_string(), contents: Some(contents.to_string()) }
}

fn dir(entries: Vec<Entry>) -> Entry {
    Entry::Dir { entries }
}

fn names(reports: &[FileReport]) -> Vec<String> {
    reports.iter().map(|r| r.name.clone()).collect()
}

#[test]
fn classify_open_completed_plain() {
    assert_eq!(classify_line("- [ ] buy milk"), LineKind::Open);
    assert_eq!(classify_line("- [x] buy milk"), LineKind::Completed);
    assert_eq!(classify_line("just text"), LineKind::Plain);
    assert_eq!(classify_line(""), LineKind::Plain);
}

#[test]
fn classify_both_markers_is_completed() {
    assert_eq!(classify_line("- [ ] a - [x] b"), LineKind::Completed);
    assert!(!is_open_task_line("- [ ] a - [x] b"));
}

#[test]
fn classify_uppercase_x_is_neither() {
    assert_eq!(classify_line("- [X] shout"), LineKind::Plain);
}

#[test]
fn open_marker_spacing() {
    assert!(is_open_task_line("-[] tight"));
    assert!(is_open_task_line("-   [    ] wide"));
    assert!(is_open_task_line("-\t[\t] tabs"));
    assert!(is_open_task_line("prefix text - [ ] later"));
    assert!(!is_open_task_line("- [ x] not a box"));
    assert!(!is_open_task_line("[ ] no dash"));
    assert!(!is_open_task_line("- ["));
}

#[test]
fn completed_marker_spacing() {
    assert_eq!(classify_line("-[x]"), LineKind::Completed);
    assert_eq!(classify_line("-   [x] done"), LineKind::Completed);
    assert_eq!(classify_line("- [ x] odd"), LineKind::Plain);
}

#[test]
fn completed_line_never_reported_with_prefix() {
    for line in ["- [x] buy milk", "   - [x] buy milk", "note: - [x] buy milk", "* - [x] buy milk"] {
        assert!(!is_open_task_line(line));
        assert!(scan_text(line).is_empty());
    }
}

#[test]
fn open_line_reported_trimmed() {
    assert_eq!(scan_text("   - [ ] buy milk  \t"), vec!["- [ ] buy milk".to_string()]);
    assert_eq!(scan_text("- [ ] buy milk"), vec!["- [ ] buy milk".to_string()]);
    assert_eq!(scan_text("\u{3000}- [ ] buy milk\u{a0}"), vec!["- [ ] buy milk".to_string()]);
}

#[test]
fn scan_file_contents_keeps_order() {
    let text = "- [ ] task one\nsome text - [x] task two\n- [ ] task three\n";
    assert_eq!(
        scan_text(text),
        vec!["- [ ] task one".to_string(), "- [ ] task three".to_string()]
    );
}

#[test]
fn scan_text_line_endings() {
    assert_eq!(scan_text("- [ ] a\r\n- [ ] b"), vec!["- [ ] a".to_string(), "- [ ] b".to_string()]);
    assert!(scan_text("").is_empty());
    assert!(scan_text("\n\n\n").is_empty());
}

#[test]
fn scan_text_markers_do_not_cross_lines() {
    assert!(scan_text("text -\n[ ] b").is_empty());
    assert!(scan_text("- [\n] b").is_empty());
}

#[test]
fn count_matches_open_lines() {
    let text = "a\n- [ ] one\n- [x] two\n  - [] three\n- [ ] four - [x]\nplain - [  ] five";
    let expected = text.lines().filter(|l| is_open_task_line(l)).count();
    assert_eq!(expected, 3);
    assert_eq!(scan_text(text).len(), expected);
}

#[test]
fn matcher_agrees_with_pattern_per_line() {
    let open = regex::Regex::new(r"^(.*)-\s*\[\s*\](.*)$").unwrap();
    let done = regex::Regex::new(r"-\s*\[x\]").unwrap();
    let lines = [
        "- [ ] a",
        "-[]",
        "x -  [  ] y",
        "- [x] a",
        "- [ ] a - [x] b",
        "- [X] a",
        "[ ]",
        "- [ y]",
        "--[ ]",
        "- - [x]",
        "\u{2003}-\u{2003}[\u{2003}]",
        "",
        "- [ ]] [",
    ];
    for l in lines {
        let expected = open.is_match(l) && !done.is_match(l);
        assert_eq!(is_open_task_line(l), expected, "line {:?}", l);
    }
}

#[test]
fn whitespace_set() {
    for c in [' ', '\t', '\n', '\r', '\u{b}', '\u{c}', '\u{85}', '\u{a0}', '\u{2000}', '\u{3000}'] {
        assert!(is_space_char(c));
        assert!(c.is_whitespace());
    }
    for c in ['a', '-', '[', ']', '\u{200b}', '0'] {
        assert!(!is_space_char(c));
    }
}

#[test]
fn markdown_extension() {
    assert!(has_markdown_extension("a.md"));
    assert!(has_markdown_extension("x.tar.md"));
    assert!(has_markdown_extension("..md"));
    assert!(!has_markdown_extension(".md"));
    assert!(!has_markdown_extension("md"));
    assert!(!has_markdown_extension("a.MD"));
    assert!(!has_markdown_extension("a.md.bak"));
    assert!(!has_markdown_extension("a.markdown"));
}

#[test]
fn scan_single_file_scenario() {
    let root = dir(vec![file("a.md", "- [ ] task one\nsome text - [x] task two\n- [ ] task three\n")]);
    let r = scan_entry(&root);
    assert_eq!(r.total, 2);
    assert_eq!(r.reports.len(), 1);
    assert_eq!(r.reports[0].name, "a.md");
    assert_eq!(r.reports[0].tasks, vec!["- [ ] task one".to_string(), "- [ ] task three".to_string()]);
}

#[test]
fn scan_nested_scenario() {
    let root = dir(vec![
        file("x.md", "- [ ] one\n"),
        dir(vec![file("y.md", "- [ ] two\n- [ ] three\n")]),
    ]);
    let r = scan_entry(&root);
    assert_eq!(r.total, 3);
    assert_eq!(names(&r.reports), vec!["y.md".to_string(), "x.md".to_string()]);
}

#[test]
fn scan_subdirectories_before_own_files() {
    let root = dir(vec![
        file("a.md", "- [ ] a"),
        dir(vec![file("b.md", "- [ ] b"), dir(vec![file("c.md", "- [ ] c")])]),
        file("d.md", "- [ ] d"),
        dir(vec![file("e.md", "- [ ] e")]),
    ]);
    let r = scan_entry(&root);
    assert_eq!(r.total, 5);
    assert_eq!(
        names(&r.reports),
        vec!["c.md", "b.md", "e.md", "a.md", "d.md"].into_iter().map(String::from).collect::<Vec<_>>()
    );
}

#[test]
fn scan_total_is_sum_of_reports() {
    let root = dir(vec![
        file("a.md", "- [ ] a\n- [ ] b"),
        file("empty.md", "nothing here\n- [x] done"),
        dir(vec![file("c.md", "- [ ] c"), file("d.md", "")]),
    ]);
    let r = scan_entry(&root);
    let sum: usize = r.reports.iter().map(|f| f.tasks.len()).sum();
    assert_eq!(r.total as usize, sum);
    assert_eq!(r.total, 3);
    assert_eq!(names(&r.reports), vec!["c.md".to_string(), "a.md".to_string()]);
    assert!(r.reports.iter().all(|f| !f.tasks.is_empty()));
}

#[test]
fn scan_without_markdown_files() {
    let root = dir(vec![
        file("a.txt", "- [ ] hidden"),
        file(".md", "- [ ] hidden"),
        file("b.md.bak", "- [ ] hidden"),
        Entry::Other,
        dir(vec![file("c.markdown", "- [ ] hidden"), dir(vec![])]),
    ]);
    let r = scan_entry(&root);
    assert!(r.reports.is_empty());
    assert_eq!(r.total, 0);
}

#[test]
fn scan_missing_path() {
    let r = scan_entry(&Entry::Other);
    assert!(r.reports.is_empty());
    assert_eq!(r.total, 0);
    let r = scan_entry(&file("a.md", "- [ ] not a directory"));
    assert!(r.reports.is_empty());
    assert_eq!(r.total, 0);
}

#[test]
fn scan_unreadable_file_skipped() {
    let root = dir(vec![
        Entry::File { name: "bin.md".to_string(), contents: None },
        file("ok.md", "- [ ] fine"),
    ]);
    let r = scan_entry(&root);
    assert_eq!(r.total, 1);
    assert_eq!(names(&r.reports), vec!["ok.md".to_string()]);
}

#[test]
fn scan_file_single() {
    let (rep, n) = scan_file(&"n.md".to_string(), &Some("- [ ] x\n- [ ] y".to_string()));
    assert_eq!(n, 2);
    assert_eq!(rep.unwrap().tasks.len(), 2);
    let (rep, n) = scan_file(&"n.txt".to_string(), &Some("- [ ] x".to_string()));
    assert_eq!(n, 0);
    assert!(rep.is_none());
}

#[test]
fn render_report_text() {
    let root = dir(vec![file("a.md", "  - [ ] one\n- [ ] two"), dir(vec![file("b.md", "x - [] three")])]);
    let r = scan_entry(&root);
    assert_eq!(render_reports(&r.reports), "b.md\nx - [] three\na.md\n- [ ] one\n- [ ] two\n");
    assert_eq!(render_reports(&Vec::new()), "");
}

#[test]
fn summary_lines() {
    assert_eq!(summary_line(0), "You have no to-do's");
    assert_eq!(summary_line(1), "You have 1 to-do");
    assert_eq!(summary_line(2), "You have 2 to-dos");
    assert_eq!(summary_line(105), "You have 105 to-dos");
}

#[test]
fn decimal_strings() {
    assert_eq!(decimal_string(0), "0");
    assert_eq!(decimal_string(7), "7");
    assert_eq!(decimal_string(10), "10");
    assert_eq!(decimal_string(1234567), "1234567");
    assert_eq!(decimal_string(u64::MAX), u64::MAX.to_string());
}
