use todolist::cli::model::{list_line, list_lines, run_command, AddArgs, Commands, CompleteArgs, ListArgs};
use todolist::model::{make_todo, Priority, Timestamp, Todo, Todos};

fn add(todos: &mut Todos, title: &str, priority: Priority, tags: &[&str]) {
    let args = AddArgs {
        title: title.to_string(),
        priority,
        tags: Some(tags.iter().map(|t| t.to_string()).collect()),
    };
    assert_eq!(run_command(todos, Commands::Add(args)), Ok(true));
}

#[test]
fn description_of_a_default_task() {
    let todo = Todo::default();
    assert_eq!(
        todo.to_string(),
        " priority: Medium, completed: false, created_at: 1970-01-01 00:00:00 UTC, updated_at: 1970-01-01 00:00:00 UTC, tags: "
    );
}

#[test]
fn description_joins_the_tags_in_order() {
    let todo = make_todo(Some("Buy milk"), Some(Priority::High), Some(&["Shop", "dairy", "food"]))
        .unwrap()
        .into_owned();
    let text = todo.to_string();
    assert!(text.starts_with("Buy milk priority: High, completed: false, created_at: 1970-01-01 00:00:00 UTC, updated_at: "));
    assert!(text.ends_with(" UTC, tags: dairy, food, shop"));
}

#[test]
fn description_shows_the_times() {
    let mut todo = Todo::default();
    todo.title = "x".to_string();
    todo.completed = true;
    todo.priority = Priority::Low;
    todo.created_at = Timestamp { secs: 1_700_000_000, nanos: 0 };
    todo.updated_at = Timestamp { secs: 1_700_000_000, nanos: 5 };
    assert_eq!(
        todo.to_string(),
        "x priority: Low, completed: true, created_at: 2023-11-14 22:13:20 UTC, updated_at: 2023-11-14 22:13:20.000000005 UTC, tags: "
    );
}

#[test]
fn description_of_the_collection() {
    let mut todos = Todos::new();
    assert_eq!(todos.to_string(), "\n");
    add(&mut todos, "a", Priority::Low, &[]);
    add(&mut todos, "b", Priority::High, &["T"]);
    let text = todos.to_string();
    let lines: Vec<&str> = text.split('\n').collect();
    assert_eq!(lines.len(), 4);
    assert!(lines[0].starts_with("a priority: Low, completed: false, "));
    assert!(lines[1].starts_with("b priority: High, completed: false, "));
    assert!(lines[1].ends_with(", tags: t"));
    assert_eq!(lines[2], "");
    assert_eq!(lines[3], "");
}

#[test]
fn lines_of_a_listing() {
    let mut todo = Todo::default();
    todo.id = 12;
    todo.title = "Write report".to_string();
    assert_eq!(list_line(&todo, false), "☐ 12: Write report medium");
    todo.completed = true;
    todo.priority = Priority::High;
    assert_eq!(list_line(&todo, false), "✓ 12: Write report high");
    let verbose = list_line(&todo, true);
    assert_eq!(verbose, format!("✓ 12: {}", todo.to_string()));
}

#[test]
fn listing_hides_completed_tasks_unless_verbose() {
    let mut todos = Todos::new();
    add(&mut todos, "first", Priority::Low, &["home"]);
    add(&mut todos, "second", Priority::High, &["work"]);
    add(&mut todos, "third", Priority::Medium, &["Home"]);
    assert_eq!(run_command(&mut todos, Commands::Complete(CompleteArgs { id: 1 })), Ok(true));

    let plain = ListArgs { verbose: None, tags: None };
    assert_eq!(list_lines(&todos, &plain), vec!["☐ 2: second high".to_string(), "☐ 3: third medium".to_string()]);

    let by_tag = ListArgs { verbose: Some(false), tags: Some(vec!["HOME".to_string()]) };
    assert_eq!(list_lines(&todos, &by_tag), vec!["☐ 3: third medium".to_string()]);

    let all = ListArgs { verbose: Some(true), tags: Some(vec!["home".to_string()]) };
    let lines = list_lines(&todos, &all);
    assert_eq!(lines.len(), 2);
    assert!(lines[0].starts_with("✓ 1: first priority: Low, completed: true, "));
    assert!(lines[1].starts_with("☐ 3: third priority: Medium, completed: false, "));
}

#[test]
fn description_with_given_times() {
    let todo = make_todo(Some("Call"), None, Some(&["B", "a"])).unwrap().into_owned();
    assert_eq!(
        todo.text_with_times("then", "now"),
        "Call priority: Medium, completed: false, created_at: then, updated_at: now, tags: a, b"
    );
}

#[test]
fn ids_are_written_in_decimal() {
    use_ids(&[(0, "☐ 0: t medium"), (9, "☐ 9: t medium"), (10, "☐ 10: t medium"), (1_234_567_890, "☐ 1234567890: t medium")]);
}

fn use_ids(cases: &[(usize, &str)]) {
    for (id, line) in cases {
        let mut todo = Todo::default();
        todo.id = *id;
        todo.title = "t".to_string();
        assert_eq!(list_line(&todo, false), *line);
    }
    let mut todo = Todo::default();
    todo.id = usize::MAX;
    assert_eq!(list_line(&todo, false), format!("☐ {}:  medium", usize::MAX));
}
