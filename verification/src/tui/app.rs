//! The terminal interface's list of tasks, its selection, and what each key
//! does to them.

use vstd::prelude::*;
use crate::error::{error_message, TodoError};
use crate::model::{default_todo_view, priority_name, Priority, Todo, TodoView};
use crate::text::{concat_text, decimal, decimal_text, joined, push_char, push_joined, push_text};
use crate::tui::model::{
    parse_fails, parses_to, step_after, step_prompt, DeleteConfirmState, InputMode, InputModeState,
    InputModeView, ModStep,
};

verus! {

/// A key pressed in the interface.
#[derive(Clone, Copy, Debug, PartialEq, Eq, Structural)]
pub enum Key {
    Char(char),
    Enter,
    Esc,
    Backspace,
    Up,
    Down,
    Other,
}

/// What the interface is doing, as mathematical values.
pub enum ModeView {
    Normal,
    Changing(InputModeView),
    ConfirmingDelete(usize),
}

/// What the interface holds: the tasks, the selected position, the mode, the
/// last error shown.
pub struct UiView {
    pub todos: Seq<TodoView>,
    pub selected: Option<usize>,
    pub mode: ModeView,
    pub error: Option<Seq<char>>,
}

/// The interface: a list of tasks, a selection, an editing mode and the last
/// error.
#[derive(Debug)]
pub struct UiApp {
    todos: Vec<Todo>,
    selected: Option<usize>,
    mode: InputMode,
    error: Option<String>,
}

/// The view of a mode.
pub open spec fn mode_view(m: InputMode) -> ModeView {
    match m {
        InputMode::Normal => ModeView::Normal,
        InputMode::Changing(s) => ModeView::Changing(s@),
        InputMode::ConfirmingDelete(d) => ModeView::ConfirmingDelete(d.spec_index()),
    }
}

impl View for UiApp {
    type V = UiView;

    closed spec fn view(&self) -> UiView {
        UiView {
            todos: self.todos@.map_values(|t: Todo| t@),
            selected: self.selected,
            mode: mode_view(self.mode),
            error: match self.error {
                Some(e) => Some(e@),
                None => None,
            },
        }
    }
}

/// Whether the positions that a mode holds are positions of the list: the
/// task being changed, the task to delete.
pub open spec fn positions_valid(v: UiView) -> bool {
    match v.mode {
        ModeView::Normal => true,
        ModeView::Changing(s) => s.index matches Some(i) ==> i < v.todos.len(),
        ModeView::ConfirmingDelete(i) => i < v.todos.len(),
    }
}

/// The selection after moving it by `delta` in a list of `len` tasks: none in
/// an empty list; otherwise from the selection (or the top), not above the
/// top nor below the bottom.
pub open spec fn moved_selection(len: nat, selected: Option<usize>, delta: int) -> Option<usize> {
    if len == 0 {
        None
    } else {
        let cur: int = match selected {
            Some(c) => c as int,
            None => 0,
        };
        if delta < 0 {
            Some((if cur + delta < 0 { 0 } else { cur + delta }) as usize)
        } else {
            Some((if cur + delta > len - 1 { len - 1 } else { cur + delta }) as usize)
        }
    }
}

/// The selected position, when it is a position of the list.
pub open spec fn valid_selection(v: UiView) -> Option<usize> {
    match v.selected {
        Some(i) => if i < v.todos.len() {
            Some(i)
        } else {
            None
        },
        None => None,
    }
}

/// The tasks with the selected one, if any, toggled between completed and not.
pub open spec fn toggled(v: UiView) -> Seq<TodoView> {
    match valid_selection(v) {
        Some(i) => v.todos.update(i as int, TodoView { completed: !v.todos[i as int].completed, ..v.todos[i as int] }),
        None => v.todos,
    }
}

/// What a key does while moving through the list: `q` or Esc quits; `j` or
/// Down, `k` or Up move the selection; space toggles the selected task; `a`
/// starts adding a task; `e` starts changing the selected task; `d` asks
/// whether to delete it. Other keys do nothing.
pub open spec fn normal_key(b: UiView, key: Key, a: UiView, r: Result<bool, TodoError>) -> bool {
    if key == Key::Char('q') || key == Key::Esc {
        r == Ok::<bool, TodoError>(true) && a == b
    } else {
        &&& r == Ok::<bool, TodoError>(false)
        &&& if key == Key::Char('j') || key == Key::Down {
            a == UiView { selected: moved_selection(b.todos.len(), b.selected, 1), ..b }
        } else if key == Key::Char('k') || key == Key::Up {
            a == UiView { selected: moved_selection(b.todos.len(), b.selected, -1), ..b }
        } else if key == Key::Char(' ') {
            a == UiView { todos: toggled(b), ..b }
        } else if key == Key::Char('a') {
            a == UiView {
                mode: ModeView::Changing(
                    InputModeView {
                        kind: ModStep::Todo,
                        buffer: Seq::empty(),
                        index: None,
                        todo: default_todo_view(),
                    },
                ),
                ..b
            }
        } else if key == Key::Char('e') {
            a == match valid_selection(b) {
                Some(i) => UiView {
                    mode: ModeView::Changing(
                        InputModeView {
                            kind: ModStep::Todo,
                            buffer: Seq::empty(),
                            index: Some(i),
                            todo: b.todos[i as int],
                        },
                    ),
                    ..b
                },
                None => b,
            }
        } else if key == Key::Char('d') {
            a == match valid_selection(b) {
                Some(i) => UiView { mode: ModeView::ConfirmingDelete(i), ..b },
                None => b,
            }
        } else {
            a == b
        }
    }
}

/// What a key does while a task is added or changed: Enter reads the text
/// into the task (an error leaves everything as it was) and moves to the next
/// step, or after the last step puts the task in the list (at its position,
/// or at the end for a new task) and goes back to moving through the list;
/// Esc goes back without a change to the list; a character is typed;
/// Backspace removes the last one. Other keys do nothing.
pub open spec fn changing_key(
    b: UiView,
    s: InputModeView,
    key: Key,
    a: UiView,
    r: Result<bool, TodoError>,
) -> bool {
    if key == Key::Enter {
        if parse_fails(s) {
            r matches Err(TodoError::CannotParsePriority(t)) && t@ == s.buffer && a == b
        } else {
            &&& r == Ok::<bool, TodoError>(false)
            &&& exists|p: InputModeView|
                {
                    &&& parses_to(s, p)
                    &&& match step_after(s.kind) {
                        Some(k) => a == UiView {
                            mode: ModeView::Changing(
                                InputModeView { kind: k, buffer: Seq::empty(), ..p },
                            ),
                            ..b
                        },
                        None => a == UiView {
                            todos: match s.index {
                                Some(i) => b.todos.update(i as int, p.todo),
                                None => b.todos.push(p.todo),
                            },
                            mode: ModeView::Normal,
                            ..b
                        },
                    }
                }
        }
    } else {
        &&& r == Ok::<bool, TodoError>(false)
        &&& a == match key {
            Key::Esc => UiView { mode: ModeView::Normal, ..b },
            Key::Char(c) => UiView {
                mode: ModeView::Changing(InputModeView { buffer: s.buffer.push(c), ..s }),
                ..b
            },
            Key::Backspace => UiView {
                mode: ModeView::Changing(
                    InputModeView {
                        buffer: if s.buffer.len() == 0 {
                            s.buffer
                        } else {
                            s.buffer.drop_last()
                        },
                        ..s
                    },
                ),
                ..b
            },
            _ => b,
        }
    }
}

/// What a key does while asking whether to delete the task at `i`: `y` or `Y`
/// deletes it; any key goes back to moving through the list.
pub open spec fn deleting_key(b: UiView, i: usize, key: Key, a: UiView, r: Result<bool, TodoError>) -> bool {
    &&& r == Ok::<bool, TodoError>(false)
    &&& a == UiView {
        todos: if key == Key::Char('y') || key == Key::Char('Y') {
            b.todos.remove(i as int)
        } else {
            b.todos
        },
        mode: ModeView::Normal,
        ..b
    }
}

/// What a key does to the interface, and what it returns: `Ok(true)` to quit.
pub open spec fn key_step(b: UiView, key: Key, a: UiView, r: Result<bool, TodoError>) -> bool {
    match b.mode {
        ModeView::Normal => normal_key(b, key, a, r),
        ModeView::Changing(s) => changing_key(b, s, key, a, r),
        ModeView::ConfirmingDelete(i) => deleting_key(b, i, key, a, r),
    }
}

/// The text of the status bar for a mode: the keys while moving through the
/// list (padded with 50 spaces), the prompt of the step and the text typed
/// while a task is added or changed, the question while asking to delete.
pub open spec fn status_of(mode: ModeView) -> Seq<char> {
    match mode {
        ModeView::Normal => "a:add  space:toggle  d:delete q:quit  "@ + Seq::new(50, |i: int| ' '),
        ModeView::Changing(s) => step_prompt(s.kind) + " "@ + s.buffer,
        ModeView::ConfirmingDelete(_) => "Delete? (y/n): "@,
    }
}

/// The mark shown before a task: a tick when completed, a box otherwise.
pub open spec fn checkbox_of(completed: bool) -> Seq<char> {
    if completed {
        "✓"@
    } else {
        "☐"@
    }
}

/// The mark shown before a task.
pub fn checkbox(todo: &Todo) -> (r: &'static str)
    ensures
        r@ == checkbox_of(todo.completed),
{
    if todo.completed {
        "✓"
    } else {
        "☐"
    }
}

/// The colour in which a task's mark and priority are drawn.
#[derive(Clone, Copy, Debug, PartialEq, Eq, Structural)]
pub enum Tint {
    Green,
    Yellow,
    Red,
}

/// The colour of a priority: green for low, yellow for medium, red for high.
pub open spec fn priority_tint(p: Priority) -> Tint {
    match p {
        Priority::Low => Tint::Green,
        Priority::Medium => Tint::Yellow,
        Priority::High => Tint::Red,
    }
}

/// The colour of the priority `p`.
pub fn tint(p: Priority) -> (r: Tint)
    ensures
        r == priority_tint(p),
{
    match p {
        Priority::Low => Tint::Green,
        Priority::Medium => Tint::Yellow,
        Priority::High => Tint::Red,
    }
}

/// The texts of a task's row in the list.
#[derive(Debug, PartialEq, Eq)]
pub struct RowTexts {
    /// The mark and a space.
    pub mark: String,
    /// The title.
    pub title: String,
    /// The priority in brackets, after a space.
    pub priority: String,
    /// The tags, joined by commas, in brackets after a space; nothing when
    /// the task has no tag.
    pub tags: String,
}

/// The bracketed priority of a row.
pub open spec fn row_priority(p: Priority) -> Seq<char> {
    " ["@ + priority_name(p) + "]"@
}

/// The bracketed tags of a row, or nothing for no tag.
pub open spec fn row_tags(tags: Seq<Seq<char>>) -> Seq<char> {
    if tags.len() == 0 {
        Seq::empty()
    } else {
        " ["@ + joined(tags, ", "@) + "]"@
    }
}

/// The texts of the row of `todo`.
pub fn row_texts(todo: &Todo) -> (r: RowTexts)
    ensures
        r.mark@ == checkbox_of(todo.completed) + " "@,
        r.title@ == todo.title@,
        r.priority@ == row_priority(todo.priority),
        r.tags@ == row_tags(todo.tags@),
{
    let mut mark = String::new();
    push_text(&mut mark, checkbox(todo));
    push_text(&mut mark, " ");
    let mut title = String::new();
    push_text(&mut title, todo.title.as_str());
    let mut priority = String::new();
    push_text(&mut priority, " [");
    push_text(&mut priority, todo.priority.as_str());
    push_text(&mut priority, "]");
    let mut tags = String::new();
    let list = todo.tags.as_slice();
    if list.len() > 0 {
        push_text(&mut tags, " [");
        push_joined(&mut tags, list, ", ");
        push_text(&mut tags, "]");
    }
    assert(mark@ =~= checkbox_of(todo.completed) + " "@);
    assert(title@ =~= todo.title@);
    assert(priority@ =~= row_priority(todo.priority));
    assert(tags@ =~= row_tags(todo.tags@));
    RowTexts { mark, title, priority, tags }
}

impl UiApp {
    /// The title of the list: the number of tasks in brackets.
    pub fn list_title(&self) -> (r: String)
        ensures
            r@ == " Todos ("@ + decimal(self@.todos.len()) + ") "@,
    {
        let mut out = String::new();
        push_text(&mut out, " Todos (");
        let n = decimal_text(self.todos.len());
        push_text(&mut out, n.as_str());
        push_text(&mut out, ") ");
        assert(out@ =~= " Todos ("@ + decimal(self@.todos.len()) + ") "@);
        out
    }

    /// The text of the status bar.
    pub fn status_text(&self) -> (r: String)
        ensures
            r@ == status_of(self@.mode),
    {
        match &self.mode {
            InputMode::Normal => {
                let mut text = "a:add  space:toggle  d:delete q:quit  ".to_string();
                let ghost head = text@;
                let mut i: usize = 0;
                while i < 50
                    invariant
                        i <= 50,
                        text@ == head + Seq::new(i as nat, |j: int| ' '),
                    decreases 50 - i,
                {
                    push_char(&mut text, ' ');
                    assert(head + Seq::new((i + 1) as nat, |j: int| ' ') =~= (head + Seq::new(
                        i as nat,
                        |j: int| ' ',
                    )).push(' '));
                    i = i + 1;
                }
                text
            },
            InputMode::Changing(state) => {
                let head = concat_text(state.kind().as_str(), " ");
                concat_text(head.as_str(), state.buffer())
            },
            InputMode::ConfirmingDelete(_) => "Delete? (y/n): ".to_string(),
        }
    }

    /// Whether the positions held by the mode are positions of the list.
    pub open spec fn wf(&self) -> bool {
        positions_valid(self@)
    }

    /// An interface over `todos`, with no selection, moving through the list,
    /// with no error.
    pub fn new(todos: Vec<Todo>) -> (r: Self)
        ensures
            r@ == (UiView {
                todos: todos@.map_values(|t: Todo| t@),
                selected: None,
                mode: ModeView::Normal,
                error: None,
            }),
            r.wf(),
    {
        UiApp { todos, selected: None, mode: InputMode::Normal, error: None }
    }

    /// The tasks.
    pub fn todo_iter(&self) -> (r: &[Todo])
        ensures
            r@.map_values(|t: Todo| t@) == self@.todos,
    {
        self.todos.as_slice()
    }

    /// The number of tasks.
    pub fn len(&self) -> (r: usize)
        ensures
            r == self@.todos.len(),
    {
        self.todos.len()
    }

    /// The selected position, if any.
    pub fn state(&self) -> (r: Option<usize>)
        ensures
            r == self@.selected,
    {
        self.selected
    }

    /// What the interface is doing.
    pub fn mode(&self) -> (r: &InputMode)
        ensures
            mode_view(*r) == self@.mode,
    {
        &self.mode
    }

    /// The last error, if any.
    pub fn error(&self) -> (r: Option<&str>)
        ensures
            match r {
                Some(e) => self@.error == Some(e@),
                None => self@.error is None,
            },
    {
        match &self.error {
            Some(e) => Some(e.as_str()),
            None => None,
        }
    }

    /// Handles a key, keeping the error of a failed one to show; returns
    /// whether to quit.
    pub fn on_key(&mut self, key: Key) -> (quit: bool)
        requires
            old(self).wf(),
        ensures
            final(self).wf(),
            exists|a: UiView, r: Result<bool, TodoError>|
                {
                    &&& key_step(old(self)@, key, a, r)
                    &&& quit == (r == Ok::<bool, TodoError>(true))
                    &&& final(self)@ == match r {
                        Err(e) => UiView { error: Some(error_message(e)), ..a },
                        Ok(_) => a,
                    }
                },
    {
        match self.handle_key(key) {
            Ok(q) => q,
            Err(e) => {
                let ghost a = self@;
                self.error = Some(e.message());
                assert(self@ == UiView { error: Some(error_message(e)), ..a });
                false
            },
        }
    }

    /// Handles a key; returns `Ok(true)` to quit, or the error of a step
    /// whose text could not be read.
    pub fn handle_key(&mut self, key: Key) -> (r: Result<bool, TodoError>)
        requires
            old(self).wf(),
        ensures
            final(self).wf(),
            key_step(old(self)@, key, final(self)@, r),
    {
        let ghost b = self@;
        match &mut self.mode {
            InputMode::Normal => {
                if key == Key::Char('q') || key == Key::Esc {
                    return Ok(true);
                } else if key == Key::Char('j') || key == Key::Down {
                    self.move_selection(1);
                } else if key == Key::Char('k') || key == Key::Up {
                    self.move_selection(-1);
                } else if key == Key::Char(' ') {
                    self.toggle_complete();
                } else if key == Key::Char('a') {
                    self.mode = InputMode::Changing(InputModeState::default());
                } else if key == Key::Char('e') {
                    match self.selected_index() {
                        Some(index) => {
                            let todo = self.todos[index].clone();
                            self.mode = InputMode::Changing(InputModeState::new(Some(index), todo));
                        },
                        None => {},
                    }
                } else if key == Key::Char('d') {
                    match self.selected_index() {
                        Some(index) => {
                            self.mode = InputMode::ConfirmingDelete(DeleteConfirmState::new(index));
                        },
                        None => {},
                    }
                }
                Ok(false)
            },
            InputMode::Changing(state) => {
                let ghost s = state@;
                if key == Key::Enter {
                    match state.parse() {
                        Ok(()) => {},
                        Err(e) => {
                            return Err(e);
                        },
                    }
                    let ghost p = state@;
                    assert(parses_to(s, p));
                    let res = state.advance();
                    if res.is_none() {
                        let todo = state.todo().clone();
                        match state.index() {
                            Some(i) => {
                                self.todos.set(i, todo);
                                assert(self@.todos =~= b.todos.update(i as int, p.todo));
                            },
                            None => {
                                self.todos.push(todo);
                                assert(self@.todos =~= b.todos.push(p.todo));
                            },
                        }
                        self.mode = InputMode::Normal;
                    } else {
                        assert(self@.mode == ModeView::Changing(
                            InputModeView { kind: state@.kind, buffer: Seq::empty(), ..p },
                        ));
                    }
                    return Ok(false);
                }
                match key {
                    Key::Esc => {
                        self.mode = InputMode::Normal;
                    },
                    Key::Char(c) => {
                        state.push(c);
                    },
                    Key::Backspace => {
                        state.pop();
                    },
                    _ => {},
                }
                Ok(false)
            },
            InputMode::ConfirmingDelete(state) => {
                let index = state.index();
                self.mode = InputMode::Normal;
                if key == Key::Char('y') || key == Key::Char('Y') {
                    self.todos.remove(index);
                    assert(self@.todos =~= b.todos.remove(index as int));
                }
                Ok(false)
            },
        }
    }

    /// Removes the selection.
    fn clear_selected(&mut self)
        ensures
            final(self)@ == (UiView { selected: None, ..old(self)@ }),
            final(self).mode == old(self).mode,
    {
        self.selected = None;
    }

    /// Moves the selection by `delta` (see [`moved_selection`]).
    fn move_selection(&mut self, delta: isize)
        requires
            delta > isize::MIN,
        ensures
            final(self)@ == (UiView {
                selected: moved_selection(old(self)@.todos.len(), old(self)@.selected, delta as int),
                ..old(self)@
            }),
            final(self).mode == old(self).mode,
    {
        if self.todos.len() == 0 {
            self.clear_selected();
            return;
        }
        let current = match self.selected {
            Some(c) => c,
            None => 0,
        };
        let new_idx = if delta < 0 {
            let d = (-delta) as usize;
            if current < d {
                0
            } else {
                current - d
            }
        } else {
            let max = self.todos.len() - 1;
            let d = delta as usize;
            if current >= max || d >= max - current {
                max
            } else {
                current + d
            }
        };
        self.selected = Some(new_idx);
    }

    /// Toggles the selected task between completed and not.
    fn toggle_complete(&mut self)
        ensures
            final(self)@ == (UiView { todos: toggled(old(self)@), ..old(self)@ }),
            final(self).mode == old(self).mode,
    {
        match self.selected_mut() {
            Some((_, selected)) => {
                selected.completed = !selected.completed;
            },
            None => {},
        }
        assert(self@.todos =~= toggled(old(self)@));
    }

    /// The selected position, when it is a position of the list.
    fn selected_index(&self) -> (r: Option<usize>)
        ensures
            r == valid_selection(self@),
    {
        match self.selected {
            Some(i) => if i < self.todos.len() {
                Some(i)
            } else {
                None
            },
            None => None,
        }
    }

    /// Whether `index` is the selected position.
    pub fn is_selected(&self, index: usize) -> (r: bool)
        ensures
            r == (self@.selected == Some(index)),
    {
        match self.selected {
            Some(i) => i == index,
            None => false,
        }
    }

    /// The selected position and task, when the selection is a position of
    /// the list.
    pub fn selected(&self) -> (r: Option<(usize, &Todo)>)
        ensures
            match r {
                Some((i, t)) => valid_selection(self@) == Some(i) && t@ == self@.todos[i as int],
                None => valid_selection(self@) is None,
            },
    {
        match self.selected_index() {
            Some(i) => Some((i, &self.todos[i])),
            None => None,
        }
    }
}

/// Replacing a task of a list replaces its view.
proof fn lemma_views_of_update(v: Seq<Todo>)
    ensures
        forall|i: int, t: Todo|
            0 <= i < v.len() ==> (#[trigger] v.update(i, t)).map_values(|x: Todo| x@) == v.map_values(
                |x: Todo| x@,
            ).update(i, t@),
{
    assert forall|i: int, t: Todo| 0 <= i < v.len() implies (#[trigger] v.update(i, t)).map_values(
        |x: Todo| x@,
    ) == v.map_values(|x: Todo| x@).update(i, t@) by {
        assert(v.update(i, t).map_values(|x: Todo| x@) =~= v.map_values(|x: Todo| x@).update(i, t@));
    }
}

impl UiApp {
    /// The mode itself (not its view).
    pub closed spec fn spec_mode(&self) -> InputMode {
        self.mode
    }

    /// The selected position and a reference to the task there, when the
    /// selection is a position of the list; the list ends with whatever the
    /// reference ends with at that position.
    pub fn selected_mut(&mut self) -> (r: Option<(usize, &mut Todo)>)
        ensures
            match r {
                Some((i, t)) => {
                    &&& valid_selection(old(self)@) == Some(i)
                    &&& (*t)@ == old(self)@.todos[i as int]
                    &&& final(self)@ == (UiView {
                        todos: old(self)@.todos.update(i as int, (*final(t))@),
                        ..old(self)@
                    })
                    &&& final(self).spec_mode() == old(self).spec_mode()
                },
                None => valid_selection(old(self)@) is None && final(self)@ == old(self)@
                    && final(self).spec_mode() == old(self).spec_mode(),
            },
    {
        match self.selected_index() {
            Some(i) => {
                proof {
                    lemma_views_of_update(self.todos@);
                }
                let t = &mut self.todos[i];
                Some((i, t))
            },
            None => None,
        }
    }
}

} // verus!
