use todolist::error::TodoError;
use todolist::model::{make_todo, Priority, Todo};
use todolist::tui::app::{row_texts, tint, Key, RowTexts, Tint, UiApp};
use todolist::tui::model::{DeleteConfirmState, InputMode, InputModeState, ModStep};

fn strings(v: &[&str]) -> Vec<String> {
    v.iter().map(|s| s.to_string()).collect()
}

#[test]
fn test_mod_step_next() {
    assert_eq!(ModStep::Todo.next(), Some(ModStep::Priority));
    assert_eq!(ModStep::Priority.next(), Some(ModStep::Tags));
    assert_eq!(ModStep::Tags.next(), None);
}

#[test]
fn test_mod_step_as_str() {
    assert_eq!(ModStep::Todo.as_str(), "Add task (and press enter): ");
    assert_eq!(ModStep::Priority.as_str(), "Add priority (or press enter for default): ");
    assert_eq!(ModStep::Tags.as_str(), "Add comma-separated tags (or press enter for default): ");
}

#[test]
fn test_delete_confirm_state() {
    let state = DeleteConfirmState::new(42);
    assert_eq!(state.index(), 42);
}

#[test]
fn test_input_mode_state() {
    let todo = Todo::default();
    let state = InputModeState::new(Some(10), todo.clone());
    assert_eq!(state.kind(), &ModStep::Todo);
    assert_eq!(state.index(), Some(10));
    assert_eq!(state.todo(), &todo);
}

#[test]
fn test_input_state_push_pop() {
    let todo = Todo::default();
    let mut state = InputModeState::new(Some(10), todo.clone());

    assert_eq!(state.buffer(), "");
    state.push('a');
    assert_eq!(state.buffer(), "a");
    state.push('b');
    assert_eq!(state.buffer(), "ab");
    state.push('c');
    assert_eq!(state.buffer(), "abc");
    state.pop();
    assert_eq!(state.buffer(), "ab");
    state.pop();
    assert_eq!(state.buffer(), "a");
    state.pop();
    assert_eq!(state.buffer(), "");
    state.pop();
    assert_eq!(state.buffer(), "");
}

#[test]
fn test_input_state_parse() -> Result<(), TodoError> {
    let todo = Todo::default();
    let mut state = InputModeState::new(Some(10), todo.clone());

    assert_eq!(state.kind(), &ModStep::Todo);
    assert_eq!(state.buffer(), "");
    assert_eq!(state.todo().title, "");
    assert_eq!(state.todo().priority, Priority::Medium);
    assert!(state.todo().tags.is_empty());

    state.push('z').push('a').push('z').parse()?;
    assert_eq!(state.buffer(), "zaz");
    assert_eq!(state.todo().title, "zaz");
    assert_eq!(state.todo().priority, Priority::Medium);
    assert!(state.todo().tags.is_empty());

    state.pop().parse()?;
    assert_eq!(state.buffer(), "za");
    assert_eq!(state.todo().title, "za");
    assert_eq!(state.todo().priority, Priority::Medium);
    assert!(state.todo().tags.is_empty());

    assert_eq!(state.advance(), Some(()));
    assert_eq!(state.kind(), &ModStep::Priority);
    assert_eq!(state.buffer(), "");
    assert_eq!(state.todo().title, "za");
    assert_eq!(state.todo().priority, Priority::Medium);
    assert!(state.todo().tags.is_empty());

    assert_eq!(
        state.push('z').push('a').parse().err().unwrap().message(),
        "Cannot parse priority: za"
    );
    state.clear().push('h').push('i').push('g').push('h').parse()?;
    assert_eq!(state.buffer(), "high");
    assert_eq!(state.todo().title, "za");
    assert_eq!(state.todo().priority, Priority::High);
    assert!(state.todo().tags.is_empty());

    // test default - pop all t
    state.clear().parse()?;
    assert_eq!(state.buffer(), "");
    assert_eq!(state.todo().title, "za");
    assert_eq!(state.todo().priority, Priority::Medium);
    assert!(state.todo().tags.is_empty());

    assert_eq!(state.advance(), Some(()));
    assert_eq!(state.kind(), &ModStep::Tags);
    assert_eq!(state.buffer(), "");
    state.clear().parse()?;
    assert_eq!(state.todo().title, "za");
    assert_eq!(state.todo().priority, Priority::Medium);
    assert!(state.todo().tags.is_empty());

    state.push('a').push(',').push('b').push(','); // test trailing commas
    state.parse()?;
    assert_eq!(state.todo().title, "za");
    assert_eq!(state.todo().priority, Priority::Medium);
    assert_eq!(state.todo().tags.as_slice(), strings(&["a", "b"]).as_slice());

    assert_eq!(state.advance(), None);
    assert_eq!(state.kind(), &ModStep::Tags);
    assert_eq!(state.buffer(), "a,b,");
    Ok(())
}

#[test]
fn empty_title_becomes_new_task() {
    let mut state = InputModeState::default();
    state.parse().unwrap();
    assert_eq!(state.todo().title, "New Task");
    assert_eq!(state.index(), None);
}

#[test]
fn tags_are_trimmed_and_lowered() {
    let mut state = InputModeState::new(None, Todo::default());
    state.advance();
    state.advance();
    for c in "  Work , ,home\t,".chars() {
        state.push(c);
    }
    state.parse().unwrap();
    assert_eq!(state.todo().tags.as_slice(), strings(&["home", "work"]).as_slice());
}

fn type_text(app: &mut UiApp, text: &str) {
    for c in text.chars() {
        assert!(!app.on_key(Key::Char(c)));
    }
}

#[test]
fn adding_a_task_through_the_steps() {
    let mut app = UiApp::new(Vec::new());
    assert!(!app.on_key(Key::Char('a')));
    type_text(&mut app, "Buy milk");
    assert!(!app.on_key(Key::Enter));
    type_text(&mut app, "hgh");
    assert!(!app.on_key(Key::Enter));
    assert_eq!(app.error(), Some("Cannot parse priority: hgh"));
    assert!(matches!(app.mode(), InputMode::Changing(_)));
    assert!(!app.on_key(Key::Backspace));
    assert!(!app.on_key(Key::Backspace));
    type_text(&mut app, "igh");
    assert!(!app.on_key(Key::Enter));
    type_text(&mut app, "Food,urgent");
    assert!(!app.on_key(Key::Enter));
    assert!(matches!(app.mode(), InputMode::Normal));
    assert_eq!(app.len(), 1);
    let todo = &app.todo_iter()[0];
    assert_eq!(todo.title, "Buy milk");
    assert_eq!(todo.priority, Priority::High);
    assert_eq!(todo.tags.as_slice(), strings(&["food", "urgent"]).as_slice());
    assert!(app.on_key(Key::Char('q')));
}

#[test]
fn selection_moves_within_the_list() {
    let mut app = UiApp::new(vec![Todo::default(), Todo::default()]);
    assert_eq!(app.state(), None);
    app.on_key(Key::Up);
    assert_eq!(app.state(), Some(0));
    app.on_key(Key::Down);
    app.on_key(Key::Down);
    app.on_key(Key::Char('j'));
    assert_eq!(app.state(), Some(1));
    assert!(app.is_selected(1));
    app.on_key(Key::Char('k'));
    assert_eq!(app.state(), Some(0));

    let mut empty = UiApp::new(Vec::new());
    empty.on_key(Key::Down);
    assert_eq!(empty.state(), None);
}

#[test]
fn toggle_edit_and_delete() {
    let mut app = UiApp::new(vec![Todo::default(), Todo::default()]);
    app.on_key(Key::Char(' '));
    assert!(!app.todo_iter()[0].completed);
    // Down from no selection moves one below the top.
    app.on_key(Key::Down);
    assert_eq!(app.state(), Some(1));
    app.on_key(Key::Up);
    app.on_key(Key::Char(' '));
    assert!(app.todo_iter()[0].completed);
    app.on_key(Key::Char(' '));
    assert!(!app.todo_iter()[0].completed);

    app.on_key(Key::Char('e'));
    type_text(&mut app, "Renamed");
    app.on_key(Key::Enter);
    app.on_key(Key::Enter);
    app.on_key(Key::Enter);
    assert_eq!(app.len(), 2);
    assert_eq!(app.todo_iter()[0].title, "Renamed");

    app.on_key(Key::Char('d'));
    app.on_key(Key::Char('n'));
    assert_eq!(app.len(), 2);
    app.on_key(Key::Char('d'));
    app.on_key(Key::Char('y'));
    assert_eq!(app.len(), 1);
    assert_eq!(app.todo_iter()[0].title, "");
    assert_eq!(app.selected().map(|(i, _)| i), Some(0));
    assert!(app.on_key(Key::Esc));
}

#[test]
fn status_bar_follows_the_mode() {
    let mut app = UiApp::new(vec![Todo::default()]);
    assert_eq!(app.status_text(), format!("a:add  space:toggle  d:delete q:quit  {}", " ".repeat(50)));
    app.on_key(Key::Char('a'));
    app.on_key(Key::Char('x'));
    assert_eq!(app.status_text(), "Add task (and press enter):  x");
    app.on_key(Key::Esc);
    app.on_key(Key::Up);
    app.on_key(Key::Char('d'));
    assert_eq!(app.status_text(), "Delete? (y/n): ");
    assert_eq!(todolist::tui::app::checkbox(&Todo::default()), "☐");
}

#[test]
fn rows_of_the_list() {
    let todo = make_todo(Some("Buy milk"), Some(Priority::High), Some(&["food", "Shop"]))
        .unwrap()
        .into_owned();
    assert_eq!(
        row_texts(&todo),
        RowTexts {
            mark: "☐ ".to_string(),
            title: "Buy milk".to_string(),
            priority: " [high]".to_string(),
            tags: " [food, shop]".to_string(),
        }
    );
    let mut done = Todo::default();
    done.completed = true;
    let row = row_texts(&done);
    assert_eq!(row.mark, "✓ ");
    assert_eq!(row.priority, " [medium]");
    assert_eq!(row.tags, "");

    assert_eq!(tint(Priority::Low), Tint::Green);
    assert_eq!(tint(Priority::Medium), Tint::Yellow);
    assert_eq!(tint(Priority::High), Tint::Red);

    let app = UiApp::new(vec![todo, done]);
    assert_eq!(app.list_title(), " Todos (2) ");
    assert_eq!(UiApp::new(Vec::new()).list_title(), " Todos (0) ");
}
