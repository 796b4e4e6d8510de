use std::borrow::Cow;
use todolist::error::TodoError;
use todolist::model::{make_todo, Priority, Todo, Todos};

fn made(title: &str, priority: Priority, tags: &[&str]) -> Todo {
    make_todo(Some(title), Some(priority), Some(tags)).unwrap().into_owned()
}

#[test]
fn test_matches_tags_with_no_tags() -> Result<(), TodoError> {
    let todo = make_todo(Some("test"), Some(Priority::High), Some(&["tag2", "TAG1"]))?.into_owned();

    assert_eq!("test", todo.title);
    assert_eq!(Priority::High, todo.priority);
    assert!(!todo.completed);

    assert!(todo.has_any(&[]));
    assert!(todo.has_any(&["tag1"]));
    assert!(todo.has_any(&["Tag1"]));
    assert!(todo.has_any(&["tag2"]));
    assert!(todo.has_any(&["taG2"]));
    assert!(!todo.has_any(&["tag3"]));

    assert!(todo.has_any(&["tag2", "tag3"]));
    assert!(todo.has_any(&["tag3", "tag1"]));

    assert_eq!(vec!["tag1", "tag2"], todo.tags.as_slice().iter().collect::<Vec<_>>());

    Ok(())
}

#[test]
fn model_test_add() -> Result<(), TodoError> {
    let mut todos = Todos::new();
    assert_eq!(todos.len(), 0);
    assert!(todos.is_empty());

    let todo = make_todo(Some("test title"), Some(Priority::Medium), Some(&["tag1", "tag2"]))?;
    todos.add(todo.into_owned())?;

    assert_eq!(todos.len(), 1);
    assert!(!todos.is_empty());
    assert_eq!(todos.get(&1usize).unwrap().title, "test title");
    assert_eq!(todos.get(&1usize).unwrap().priority, Priority::Medium);
    assert_eq!(todos.get(&1usize).unwrap().completed, false);
    assert_eq!(todos.get(&1usize).unwrap().tags.len(), 2);
    assert!(todos.get(&1usize).unwrap().tags.contains("tag1"));
    assert!(todos.get(&1usize).unwrap().tags.contains("tag2"));

    let todo2 = make_todo(Some("test title2"), Some(Priority::High), Some(&["tag2", "tag3"]))?;
    todos.add(todo2.into_owned())?;
    assert_eq!(todos.len(), 2);
    assert!(!todos.is_empty());
    assert_eq!(todos.get(&2usize).unwrap().title, "test title2");
    assert_eq!(todos.get(&2usize).unwrap().priority, Priority::High);
    assert_eq!(todos.get(&2usize).unwrap().completed, false);
    assert_eq!(todos.get(&2usize).unwrap().tags.len(), 2);
    assert!(todos.get(&2usize).unwrap().tags.contains("tag2"));
    assert!(todos.get(&2usize).unwrap().tags.contains("tag3"));

    assert_eq!(None, todos.get(&3usize));
    assert_eq!(None, todos.get_mut(&3usize));

    Ok(())
}

#[test]
fn model_test_update() -> Result<(), TodoError> {
    let mut todos = Todos::new();
    let todo = make_todo(Some("test title"), Some(Priority::Medium), Some(&["tag1", "tag2"]))?;
    todos.add(todo.into_owned())?;

    assert_eq!(todos.get(&1usize).unwrap().title, "test title");
    assert_eq!(todos.get(&1usize).unwrap().priority, Priority::Medium);
    assert_eq!(todos.get(&1usize).unwrap().completed, false);
    assert_eq!(todos.get(&1usize).unwrap().tags.len(), 2);
    assert!(todos.get(&1usize).unwrap().tags.contains("tag1"));
    assert!(todos.get(&1usize).unwrap().tags.contains("tag2"));

    // if the finish() is not called, the changes should not be applied
    {
        let mut edit_todo = todos.get_mut(&1usize).unwrap();
        edit_todo.title = Some("updated title".to_string());
        edit_todo.priority = Some(Priority::High);
        edit_todo.tags = Some(vec!["tag3".to_string(), "tag4".to_string(), "tag5".to_string()]);
        edit_todo.completed = Some(true);
    }

    assert_eq!(todos.get(&1usize).unwrap().title, "test title");
    assert_eq!(todos.get(&1usize).unwrap().priority, Priority::Medium);
    assert_eq!(todos.get(&1usize).unwrap().completed, false);
    assert_eq!(todos.get(&1usize).unwrap().tags.len(), 2);
    assert!(todos.get(&1usize).unwrap().tags.contains("tag1"));
    assert!(todos.get(&1usize).unwrap().tags.contains("tag2"));

    {
        let mut edit_todo = todos.get_mut(&1usize).unwrap();
        edit_todo.title = Some("updated title".to_string());
        edit_todo.priority = Some(Priority::High);
        edit_todo.tags = Some(vec!["tag3".to_string(), "tag4".to_string(), "tag5".to_string()]);
        edit_todo.completed = Some(true);

        let updated_tag = edit_todo.finish()?;

        assert_eq!(updated_tag.title, "updated title");
        assert_eq!(updated_tag.priority, Priority::High);
        assert_eq!(updated_tag.completed, true);
        assert_eq!(updated_tag.tags.len(), 3);
        assert!(updated_tag.tags.contains("tag3"));
        assert!(updated_tag.tags.contains("tag4"));
        assert!(updated_tag.tags.contains("tag5"));
    }

    assert_eq!(todos.get(&1usize).unwrap().title, "updated title");
    assert_eq!(todos.get(&1usize).unwrap().priority, Priority::High);
    assert_eq!(todos.get(&1usize).unwrap().completed, true);
    assert_eq!(todos.get(&1usize).unwrap().tags.len(), 3);
    assert!(todos.get(&1usize).unwrap().tags.contains("tag3"));
    assert!(todos.get(&1usize).unwrap().tags.contains("tag4"));
    assert!(todos.get(&1usize).unwrap().tags.contains("tag5"));

    Ok(())
}

#[test]
fn test_complete() -> Result<(), TodoError> {
    let mut todos = Todos::new();
    let todo = make_todo(Some("test title"), Some(Priority::Medium), Some(&["tag1", "tag2"]))?;
    todos.add(todo.into_owned())?;

    assert_eq!(todos.get(&1usize).unwrap().title, "test title");
    assert_eq!(todos.get(&1usize).unwrap().priority, Priority::Medium);
    assert_eq!(todos.get(&1usize).unwrap().completed, false);
    assert_eq!(todos.get(&1usize).unwrap().tags.len(), 2);
    assert!(todos.get(&1usize).unwrap().tags.contains("tag1"));
    assert!(todos.get(&1usize).unwrap().tags.contains("tag2"));

    // if the finish() is not called, the changes should not be applied
    {
        let mut edit_todo = todos.get_mut(&1usize).unwrap();
        edit_todo.completed = Some(true);
    }

    assert_eq!(todos.get(&1usize).unwrap().title, "test title");
    assert_eq!(todos.get(&1usize).unwrap().priority, Priority::Medium);
    assert_eq!(todos.get(&1usize).unwrap().completed, false);
    assert_eq!(todos.get(&1usize).unwrap().tags.len(), 2);
    assert!(todos.get(&1usize).unwrap().tags.contains("tag1"));
    assert!(todos.get(&1usize).unwrap().tags.contains("tag2"));

    {
        let mut edit_todo = todos.get_mut(&1usize).unwrap();
        edit_todo.completed = Some(true);
        let updated_tag = edit_todo.finish()?;

        assert_eq!(updated_tag.title, "test title");
        assert_eq!(updated_tag.priority, Priority::Medium);
        assert_eq!(updated_tag.completed, true);
        assert_eq!(updated_tag.tags.len(), 2);
        assert!(updated_tag.tags.contains("tag1"));
        assert!(updated_tag.tags.contains("tag2"));
    }

    assert_eq!(todos.get(&1usize).unwrap().title, "test title");
    assert_eq!(todos.get(&1usize).unwrap().priority, Priority::Medium);
    assert_eq!(todos.get(&1usize).unwrap().completed, true);
    assert_eq!(todos.get(&1usize).unwrap().tags.len(), 2);
    assert!(todos.get(&1usize).unwrap().tags.contains("tag1"));
    assert!(todos.get(&1usize).unwrap().tags.contains("tag2"));

    Ok(())
}

#[test]
fn test_remove() -> Result<(), TodoError> {
    let mut todos = Todos::new();
    assert_eq!(todos.len(), 0);
    assert!(todos.is_empty());

    let todo = make_todo(Some("test title"), Some(Priority::Medium), Some(&["tag1", "tag2"]))?;
    todos.add(todo.clone().into_owned())?;

    assert_eq!(todos.len(), 1);
    assert!(!todos.is_empty());

    assert_eq!(None, todos.remove(&2usize));
    assert_eq!(todos.len(), 1);
    assert!(!todos.is_empty());

    let owned: Todo = todos.remove(&1usize).unwrap();
    assert_eq!(todo.title, owned.title);
    assert_eq!(todo.priority, owned.priority);
    assert_eq!(todo.completed, owned.completed);
    assert_eq!(todo.tags.len(), owned.tags.len());
    assert!(todo.tags.as_slice().iter().all(|t| owned.tags.contains(t)));

    assert_eq!(todos.len(), 0);
    assert!(todos.is_empty());
    Ok(())
}

#[test]
fn new_todo_has_defaults() {
    let todo = make_todo(None, None, None).unwrap().into_owned();
    assert_eq!(todo.title, "");
    assert_eq!(todo.priority, Priority::Medium);
    assert!(!todo.completed);
    assert!(todo.tags.is_empty());
    assert_eq!(todo.created_at.secs, 0);
    assert_eq!(todo.id, 0);
}

#[test]
fn ids_continue_after_the_largest() {
    let mut todos = Todos::new();
    assert_eq!(todos.next_id(), Some(1));
    assert_eq!(todos.add(made("a", Priority::Low, &[])), Ok(1));
    assert_eq!(todos.add(made("b", Priority::Low, &[])), Ok(2));
    assert_eq!(todos.add(made("c", Priority::Low, &[])), Ok(3));
    // Removing a task in the middle does not free its id for reuse by order:
    // the next id follows the largest one in use.
    assert!(todos.remove(&2).is_some());
    assert_eq!(todos.next_id(), Some(4));
    assert_eq!(todos.add(made("d", Priority::Low, &[])), Ok(4));
    assert_eq!(todos.get(&4).unwrap().id, 4);
    // Removing the largest makes its id the next one again.
    assert!(todos.remove(&4).is_some());
    assert_eq!(todos.next_id(), Some(4));
}

#[test]
fn remove_after_add_restores() {
    let mut todos = Todos::new();
    todos.add(made("a", Priority::Low, &["x"])).unwrap();
    let before = todos.clone();
    let id = todos.add(made("b", Priority::High, &[])).unwrap();
    assert_eq!(todos.get(&id).unwrap().title, "b");
    todos.remove(&id).unwrap();
    assert_eq!(todos, before);
}

#[test]
fn filter_lists_in_id_order() {
    let mut todos = Todos::new();
    todos.add(made("first", Priority::Low, &[])).unwrap();
    todos.add(made("second", Priority::Low, &[])).unwrap();
    todos.add(made("third", Priority::Low, &[])).unwrap();
    todos.remove(&2).unwrap();
    let titles: Vec<&str> = todos.filter().unwrap().iter().map(|t| t.title.as_str()).collect();
    assert_eq!(titles, vec!["first", "third"]);
}

#[test]
fn from_todos_numbers_in_order() {
    let mut a = made("a", Priority::Low, &[]);
    a.id = 7;
    let b = made("b", Priority::High, &["t"]);
    let todos = Todos::from_todos(vec![a, b]);
    assert_eq!(todos.len(), 2);
    assert_eq!(todos.get(&1).unwrap().title, "a");
    assert_eq!(todos.get(&1).unwrap().id, 1);
    assert_eq!(todos.get(&2).unwrap().title, "b");
    assert_eq!(todos.get(&2).unwrap().id, 2);
    let listed: Vec<&str> = todos.filter().unwrap().iter().map(|t| t.title.as_str()).collect();
    assert_eq!(listed, vec!["a", "b"]);
}

#[test]
fn listing_hides_completed_unless_verbose() {
    let mut todos = Todos::new();
    todos.add(made("open", Priority::Low, &["work"])).unwrap();
    let mut done = made("done", Priority::Low, &["work"]);
    done.completed = true;
    todos.add(done).unwrap();
    todos.add(made("home", Priority::Low, &["home"])).unwrap();

    let titles = |v: Vec<&Todo>| v.iter().map(|t| t.title.clone()).collect::<Vec<_>>();
    assert_eq!(titles(todos.listed(&[], false)), vec!["open", "home"]);
    assert_eq!(titles(todos.listed(&[], true)), vec!["open", "done", "home"]);
    assert_eq!(titles(todos.listed(&["WORK"], true)), vec!["open", "done"]);
    assert_eq!(titles(todos.listed(&["work"], false)), vec!["open"]);
    assert!(todos.listed(&["none"], true).is_empty());
}

#[test]
fn edit_of_owned_task() {
    let todo = made("title", Priority::Low, &["a"]);
    let mut edit = todo.edit();
    edit.tags = Some(vec!["Zed".to_string(), "ALPHA".to_string(), "zed".to_string()]);
    edit.title = Some("other".to_string());
    let done = edit.finish().unwrap().into_owned();
    assert_eq!(done.title, "other");
    assert_eq!(done.priority, Priority::Low);
    assert_eq!(done.tags.as_slice(), &["alpha".to_string(), "zed".to_string()]);
}

#[test]
fn finish_at_sets_the_update_time() {
    let todo = made("title", Priority::Low, &[]);
    let created = todo.created_at;
    let mut edit = todo.edit();
    edit.completed = Some(true);
    let stamp = todolist::model::Timestamp { secs: 1_700_000_000, nanos: 5 };
    let done = edit.finish_at(stamp).unwrap().into_owned();
    assert_eq!(done.updated_at, stamp);
    assert_eq!(done.created_at, created);
    assert!(done.completed);
}

#[test]
fn edits_by_borrow_and_by_ownership_agree() {
    let stamp = todolist::model::Timestamp { secs: 42, nanos: 0 };
    let mut todos = Todos::new();
    todos.add(made("t", Priority::Low, &["x"])).unwrap();
    let owned = todos.get(&1).unwrap().clone();

    let mut e1 = todos.get_mut(&1).unwrap();
    e1.tags = Some(vec!["B".to_string(), "a".to_string()]);
    e1.priority = Some(Priority::High);
    e1.finish_at(stamp).unwrap();

    let mut e2 = owned.edit();
    e2.tags = Some(vec!["B".to_string(), "a".to_string()]);
    e2.priority = Some(Priority::High);
    let by_owner = e2.finish_at(stamp).unwrap().into_owned();

    assert_eq!(todos.get(&1).unwrap(), &by_owner);
}

#[test]
fn priority_names_round_trip() {
    for p in [Priority::Low, Priority::Medium, Priority::High] {
        assert_eq!(Priority::parse_text(p.as_str()), Ok(p));
    }
    assert_eq!(Priority::parse_text("HIGH"), Ok(Priority::High));
    assert_eq!(Priority::parse_text(""), Ok(Priority::Medium));
    assert_eq!("low".parse::<Priority>(), Ok(Priority::Low));
    assert_eq!(Priority::default(), Priority::Medium);
    let err = Priority::parse_text("urgent").unwrap_err();
    assert_eq!(err, TodoError::InvalidPriority("urgent".to_string()));
    assert_eq!(err.message(), "Invalid priority: urgent");
}

#[test]
fn tag_set_keeps_order_and_uniqueness() {
    let mut tags = todolist::model::TagSet::new();
    assert!(tags.insert("b".to_string()));
    assert!(tags.insert("a".to_string()));
    assert!(tags.insert("ab".to_string()));
    assert!(!tags.insert("a".to_string()));
    assert_eq!(tags.as_slice(), &["a".to_string(), "ab".to_string(), "b".to_string()]);
    tags.clear();
    assert!(tags.is_empty());
}

#[test]
fn add_tags_unions_lowered() {
    let mut todo = made("t", Priority::Low, &["b"]);
    todo.add_tags(Some(vec!["A".to_string(), "b".to_string()]));
    assert_eq!(todo.get_tags(), &["a".to_string(), "b".to_string()]);
    todo.add_tags(None);
    assert_eq!(todo.get_tags().len(), 2);
}

#[test]
fn finishing_gives_the_owned_or_borrowed_task() {
    let mut edit = made("a", Priority::Low, &[]).edit();
    edit.title = Some("Buy groceries".to_string());
    match edit.finish().unwrap() {
        Cow::Owned(t) => assert_eq!(t.title, "Buy groceries"),
        Cow::Borrowed(_) => panic!("an owned task comes back owned"),
    }
    assert!(matches!(Todo::new().finish().unwrap(), Cow::Owned(_)));

    let mut todos = Todos::new();
    todos.add(made("b", Priority::High, &[])).unwrap();
    let mut edit = todos.get_mut(&1).unwrap();
    edit.completed = Some(true);
    match edit.finish().unwrap() {
        Cow::Borrowed(t) => assert!(t.completed),
        Cow::Owned(_) => panic!("a borrowed task comes back borrowed"),
    }
    assert!(todos.get(&1).unwrap().completed);
    assert_eq!(todos.len(), 1);
}
