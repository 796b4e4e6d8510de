use todolist::cli::model::{run_command, AddArgs, Commands, CompleteArgs, EditArgs, ListArgs};
use todolist::error::TodoError;
use todolist::model::{Priority, Todos};

fn add_command(title: &str, priority: Priority, tags: &[&str]) -> Commands {
    Commands::Add(AddArgs {
        title: title.to_string(),
        priority,
        tags: Some(tags.iter().map(|t| t.to_string()).collect()),
    })
}

#[test]
fn commands_change_the_tasks() {
    let mut todos = Todos::new();
    assert_eq!(run_command(&mut todos, add_command("Buy groceries", Priority::High, &["food", "Urgent"])), Ok(true));
    assert_eq!(run_command(&mut todos, add_command("Write report", Priority::Medium, &[])), Ok(true));
    assert_eq!(todos.len(), 2);
    let first = todos.get(&1).unwrap();
    assert_eq!(first.id, 1);
    assert_eq!(first.title, "Buy groceries");
    assert_eq!(first.tags.as_slice(), &["food".to_string(), "urgent".to_string()]);
    assert_eq!(first.created_at.secs, 0);

    let edit = EditArgs { id: 1, priority: Some(Priority::Low), tags: Some(vec!["Work".to_string()]) };
    assert_eq!(run_command(&mut todos, Commands::Edit(edit)), Ok(true));
    let first = todos.get(&1).unwrap();
    assert_eq!(first.priority, Priority::Low);
    assert_eq!(first.tags.as_slice(), &["work".to_string()]);
    assert_eq!(first.title, "Buy groceries");

    // An edit that gives nothing keeps priority and tags.
    let edit = EditArgs { id: 1, priority: None, tags: None };
    assert_eq!(run_command(&mut todos, Commands::Edit(edit)), Ok(true));
    assert_eq!(todos.get(&1).unwrap().priority, Priority::Low);
    assert_eq!(todos.get(&1).unwrap().tags.len(), 1);

    assert_eq!(run_command(&mut todos, Commands::Complete(CompleteArgs { id: 2 })), Ok(true));
    assert!(todos.get(&2).unwrap().completed);
    assert_eq!(run_command(&mut todos, Commands::UnComplete(CompleteArgs { id: 2 })), Ok(true));
    assert!(!todos.get(&2).unwrap().completed);

    let before = todos.clone();
    assert_eq!(run_command(&mut todos, Commands::List(ListArgs { verbose: None, tags: None })), Ok(false));
    assert_eq!(todos, before);
}

#[test]
fn commands_on_a_missing_id() {
    let mut todos = Todos::new();
    run_command(&mut todos, add_command("a", Priority::Low, &[])).unwrap();
    let before = todos.clone();
    let err = run_command(&mut todos, Commands::Complete(CompleteArgs { id: 5 })).unwrap_err();
    assert_eq!(err, TodoError::TodoNotFound(5));
    assert_eq!(err.message(), "Todo with id 5 not found");
    let err = run_command(&mut todos, Commands::Edit(EditArgs { id: 0, priority: None, tags: None })).unwrap_err();
    assert_eq!(err, TodoError::TodoNotFound(0));
    assert_eq!(todos, before);
}

#[test]
fn every_task_is_kept_under_its_own_id() {
    let mut todos = Todos::new();
    for title in ["a", "b", "c"] {
        run_command(&mut todos, add_command(title, Priority::Low, &[])).unwrap();
    }
    todos.remove(&2).unwrap();
    run_command(&mut todos, add_command("d", Priority::Low, &[])).unwrap();
    run_command(&mut todos, Commands::Complete(CompleteArgs { id: 4 })).unwrap();
    for todo in todos.filter().unwrap() {
        assert_eq!(todos.get(&todo.id).unwrap(), todo);
    }
    let ids: Vec<usize> = todos.filter().unwrap().iter().map(|t| t.id).collect();
    assert_eq!(ids, vec![1, 3, 4]);
}

#[test]
fn add_args_into_a_task() {
    let args = AddArgs { title: "t".to_string(), priority: Priority::Low, tags: None };
    let todo = args.try_into().unwrap();
    assert_eq!(todo.title, "t");
    assert_eq!(todo.priority, Priority::Low);
    assert!(todo.tags.is_empty());
    assert!(!todo.completed);
}
