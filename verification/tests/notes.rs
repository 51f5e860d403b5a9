use desktop_cockpit::domain::Task;
use desktop_cockpit::notes::{
    parse_markdown_tasks, top_pending_tasks, MarkdownTasksProvider, NotesError,
};

fn task(title: &str, completed: bool) -> Task {
    Task {
        title: title.to_string(),
        completed,
    }
}

#[test]
fn parses_pending_tasks() {
    let tasks = parse_markdown_tasks("- [ ] Preparar aula Rathna");

    assert_eq!(
        tasks,
        vec![Task {
            title: "Preparar aula Rathna".to_string(),
            completed: false
        }]
    );
}

#[test]
fn parses_completed_tasks() {
    let tasks = parse_markdown_tasks("- [x] Revisar README Marc");

    assert_eq!(
        tasks,
        vec![Task {
            title: "Revisar README Marc".to_string(),
            completed: true
        }]
    );
}

#[test]
fn ignores_common_lines() {
    let tasks = parse_markdown_tasks("# Today\nplain text\n- item");

    assert!(tasks.is_empty());
}

#[test]
fn limits_pending_tasks() {
    let tasks = parse_markdown_tasks("- [ ] One\n- [ ] Two\n- [x] Done\n- [ ] Three\n- [ ] Four");

    let top = top_pending_tasks(&tasks, 3);

    assert_eq!(top.len(), 3);
    assert_eq!(top[2].title, "Three");
}

#[test]
fn reads_indented_capital_and_crlf_lines() {
    let tasks = parse_markdown_tasks("  - [X]   Deploy  \r\n\t- [ ] Write docs\r\n- [ ]\n- [y] Not a task\n");

    assert_eq!(tasks, vec![task("Deploy", true), task("Write docs", false)]);
}

#[test]
fn needs_the_space_after_the_marker() {
    assert!(parse_markdown_tasks("- [ ]Title").is_empty());
    assert!(parse_markdown_tasks("-  [ ] Title").is_empty());
    assert_eq!(parse_markdown_tasks("- [ ] "), vec![task("", false)]);
    assert_eq!(parse_markdown_tasks("- [x] \u{00a0}Ünïcödé\u{3000}"), vec![task("Ünïcödé", true)]);
}

#[test]
fn splitting_after_a_line_feed_splits_the_tasks() {
    let first = "- [ ] A\nnote\n";
    let second = "- [x] B\n- [ ] C";
    let whole = format!("{first}{second}");

    let mut expected = parse_markdown_tasks(first);
    expected.extend(parse_markdown_tasks(second));

    assert_eq!(parse_markdown_tasks(&whole), expected);
}

#[test]
fn top_pending_keeps_only_open_tasks() {
    let tasks = vec![task("a", true), task("b", false), task("c", true), task("d", false)];

    let top = top_pending_tasks(&tasks, 5);

    assert_eq!(top, vec![task("b", false), task("d", false)]);
    assert!(top_pending_tasks(&tasks, 0).is_empty());
    assert_eq!(top_pending_tasks(&tasks, 1), vec![task("b", false)]);
}

#[test]
fn pending_top3_from_text() {
    let top = MarkdownTasksProvider::pending_top3("- [ ] 1\n- [ ] 2\n- [x] 3\n- [ ] 4\n- [ ] 5\n");

    assert_eq!(top, vec![task("1", false), task("2", false), task("4", false)]);
}

#[test]
fn pending_top3_reports_read_errors() {
    let path = std::path::PathBuf::from("/missing/today.md");
    let error = std::io::Error::new(std::io::ErrorKind::NotFound, "no such file");

    let result = MarkdownTasksProvider::load_pending_top3(path.clone(), Err(error));

    match result {
        Err(NotesError::Read { path: p, source }) => {
            assert_eq!(p, path);
            assert_eq!(source.kind(), std::io::ErrorKind::NotFound);
        }
        Ok(_) => panic!("expected an error"),
    }

    let ok = MarkdownTasksProvider::load_pending_top3(path, Ok("- [ ] Only".to_string()));
    assert_eq!(ok.unwrap(), vec![task("Only", false)]);
}

#[test]
fn checklists_joined_by_a_line_feed_join_their_tasks() {
    for (a, b) in [
        ("- [ ] One\r", "- [x] Two"),
        ("- [ ] One\n", "- [ ] Two\n- [x] Three"),
        ("", "- [ ] Two"),
        ("- [ ] One", ""),
        ("- [ ]\r", "- [ ] Two"),
    ] {
        let joined = format!("{a}\n{b}");
        let mut expected = parse_markdown_tasks(a);
        expected.extend(parse_markdown_tasks(b));
        assert_eq!(parse_markdown_tasks(&joined), expected, "{a:?} + {b:?}");
    }
    assert_eq!(
        parse_markdown_tasks("- [ ] One\r"),
        vec![task("One", false)]
    );
}

#[test]
fn top_pending_tasks_is_stable_and_grows_by_prefix() {
    let tasks = vec![
        task("a", false),
        task("b", true),
        task("c", false),
        task("d", false),
        task("e", true),
        task("f", false),
    ];
    for limit in 0..6 {
        let top = top_pending_tasks(&tasks, limit);
        assert_eq!(top_pending_tasks(&top, limit), top);
        let bigger = top_pending_tasks(&tasks, limit + 1);
        assert!(bigger.starts_with(&top));
    }
    assert_eq!(
        top_pending_tasks(&tasks, 2),
        vec![task("a", false), task("c", false)]
    );
}
