//! The editing state of the terminal interface: which step of adding or
//! changing a task is under way, the text typed so far, and the task being
//! built.

use vstd::prelude::*;
use crate::error::TodoError;
use crate::model::{lowered_texts, priority_named, strictly_sorted, Priority, Todo, TodoView};
use crate::text::{comma_separated_words, comma_words, lower_text, pop_char, push_char};

verus! {

/// What the interface is doing.
#[derive(Debug, Clone, PartialEq, Eq)]
pub enum InputMode {
    /// Moving through the list.
    Normal,
    /// Adding or changing a task.
    Changing(InputModeState),
    /// Asking whether to delete a task.
    ConfirmingDelete(DeleteConfirmState),
}

/// The step of adding or changing a task: its title, then its priority, then
/// its tags.
#[derive(Clone, Copy, Debug, PartialEq, Eq, Structural)]
pub enum ModStep {
    Todo,
    Priority,
    Tags,
}

/// The step after `s`, if any.
pub open spec fn step_after(s: ModStep) -> Option<ModStep> {
    match s {
        ModStep::Todo => Some(ModStep::Priority),
        ModStep::Priority => Some(ModStep::Tags),
        ModStep::Tags => None,
    }
}

/// The prompt of a step.
pub open spec fn step_prompt(s: ModStep) -> Seq<char> {
    match s {
        ModStep::Todo => "Add task (and press enter): "@,
        ModStep::Priority => "Add priority (or press enter for default): "@,
        ModStep::Tags => "Add comma-separated tags (or press enter for default): "@,
    }
}

impl ModStep {
    /// The prompt of the step.
    pub fn as_str(&self) -> (r: &'static str)
        ensures
            r@ == step_prompt(*self),
    {
        match self {
            ModStep::Todo => "Add task (and press enter): ",
            ModStep::Priority => "Add priority (or press enter for default): ",
            ModStep::Tags => "Add comma-separated tags (or press enter for default): ",
        }
    }

    /// The step after this one, if any.
    pub fn next(&self) -> (r: Option<ModStep>)
        ensures
            r == step_after(*self),
    {
        match self {
            ModStep::Todo => Some(ModStep::Priority),
            ModStep::Priority => Some(ModStep::Tags),
            ModStep::Tags => None,
        }
    }
}

impl Default for ModStep {
    /// The first step.
    fn default() -> (r: Self)
        ensures
            r == ModStep::Todo,
    {
        ModStep::Todo
    }
}

/// The position of the task to delete.
#[derive(Clone, Copy, Debug, PartialEq, Eq, Structural)]
pub struct DeleteConfirmState {
    index: usize,
}

impl DeleteConfirmState {
    /// The position held.
    pub closed spec fn spec_index(self) -> usize {
        self.index
    }

    /// Asks about the task at `index`.
    pub fn new(index: usize) -> (r: Self)
        ensures
            r.spec_index() == index,
    {
        DeleteConfirmState { index }
    }

    /// The position of the task to delete.
    pub fn index(&self) -> (r: usize)
        ensures
            r == self.spec_index(),
    {
        self.index
    }
}

/// The state of adding or changing a task.
#[derive(Debug, Clone, PartialEq, Eq)]
pub struct InputModeState {
    kind: ModStep,
    buffer: String,
    index: Option<usize>,
    todo: Todo,
}

/// What an [`InputModeState`] holds: the step, the text typed, the position
/// of the task being changed (none for a new task), the task being built.
pub struct InputModeView {
    pub kind: ModStep,
    pub buffer: Seq<char>,
    pub index: Option<usize>,
    pub todo: TodoView,
}

impl View for InputModeState {
    type V = InputModeView;

    closed spec fn view(&self) -> InputModeView {
        InputModeView { kind: self.kind, buffer: self.buffer@, index: self.index, todo: self.todo@ }
    }
}

/// The title that the text `buffer` gives a task: the text, or "New Task"
/// when it is empty.
pub open spec fn title_from(buffer: Seq<char>) -> Seq<char> {
    if buffer.len() == 0 {
        "New Task"@
    } else {
        buffer
    }
}

/// Whether reading the text of `s` fails: at the priority step, a text that
/// names no priority.
pub open spec fn parse_fails(s: InputModeView) -> bool {
    s.kind == ModStep::Priority && priority_named(lower_text(s.buffer)) is None
}

/// Whether `p` is `s` after reading its text into the task: the title (or
/// "New Task" for no text); the priority; the comma-separated tags,
/// lower-cased and added to the task's. Nothing else changes.
pub open spec fn parses_to(s: InputModeView, p: InputModeView) -> bool {
    &&& p.kind == s.kind
    &&& p.buffer == s.buffer
    &&& p.index == s.index
    &&& match s.kind {
        ModStep::Todo => p.todo == (TodoView { title: title_from(s.buffer), ..s.todo }),
        ModStep::Priority => priority_named(lower_text(s.buffer)) matches Some(pr) && p.todo == (
        TodoView { priority: pr, ..s.todo }),
        ModStep::Tags => p.todo == (TodoView { tags: p.todo.tags, ..s.todo }) && strictly_sorted(
            p.todo.tags,
        ) && p.todo.tags.to_set() == s.todo.tags.to_set().union(
            lowered_texts(comma_words(s.buffer)),
        ),
    }
}

impl InputModeState {
    /// The task behind the state (not its view).
    pub closed spec fn spec_todo(&self) -> Todo {
        self.todo
    }

    /// Starts at the first step with no text, for the task `todo` at position
    /// `index` (none for a new task).
    pub fn new(index: Option<usize>, todo: Todo) -> (r: Self)
        ensures
            r@ == (InputModeView {
                kind: ModStep::Todo,
                buffer: Seq::empty(),
                index: index,
                todo: todo@,
            }),
            r.spec_todo() == todo,
    {
        InputModeState { kind: ModStep::default(), buffer: String::new(), index, todo }
    }

    /// The current step.
    pub fn kind(&self) -> (r: &ModStep)
        ensures
            *r == self@.kind,
    {
        &self.kind
    }

    /// The position of the task being changed; none for a new task.
    pub fn index(&self) -> (r: Option<usize>)
        ensures
            r == self@.index,
    {
        self.index
    }

    /// The task being built.
    pub fn todo(&self) -> (r: &Todo)
        ensures
            r@ == self@.todo,
            *r == self.spec_todo(),
    {
        &self.todo
    }

    /// The text typed so far.
    pub fn buffer(&self) -> (r: &str)
        ensures
            r@ == self@.buffer,
    {
        self.buffer.as_str()
    }

    /// Types the character `text`.
    pub fn push(&mut self, text: char) -> (r: &mut Self)
        ensures
            r@ == (InputModeView { buffer: old(self)@.buffer.push(text), ..old(self)@ }),
            r.spec_todo() == old(self).spec_todo(),
            *final(self) == *final(r),
    {
        push_char(&mut self.buffer, text);
        self
    }

    /// Removes the last character typed, if any.
    pub fn pop(&mut self) -> (r: &mut Self)
        ensures
            r@ == (InputModeView {
                buffer: if old(self)@.buffer.len() == 0 {
                    old(self)@.buffer
                } else {
                    old(self)@.buffer.drop_last()
                },
                ..old(self)@
            }),
            r.spec_todo() == old(self).spec_todo(),
            *final(self) == *final(r),
    {
        let _ = pop_char(&mut self.buffer);
        self
    }

    /// Removes all the text typed.
    pub fn clear(&mut self) -> (r: &mut Self)
        ensures
            r@ == (InputModeView { buffer: Seq::empty(), ..old(self)@ }),
            r.spec_todo() == old(self).spec_todo(),
            *final(self) == *final(r),
    {
        self.buffer = String::new();
        self
    }

    /// Reads the text typed into the task, as the current step says: the
    /// title (or "New Task" for no text); the priority (an error, with the
    /// task unchanged, when the text names none); the comma-separated tags,
    /// lower-cased and added to the task's.
    pub fn parse(&mut self) -> (r: Result<(), TodoError>)
        ensures
            parse_fails(old(self)@) ==> (r matches Err(TodoError::CannotParsePriority(t)) && t@
                == old(self)@.buffer && final(self)@ == old(self)@),
            !parse_fails(old(self)@) ==> r is Ok && parses_to(old(self)@, final(self)@),
    {
        match self.kind {
            ModStep::Todo => {
                let title = if self.buffer.as_str().is_empty() {
                    "New Task".to_string()
                } else {
                    self.buffer.clone()
                };
                self.todo.title = title;
                Ok(())
            },
            ModStep::Priority => {
                match Priority::parse_text(self.buffer.as_str()) {
                    Ok(p) => {
                        self.todo.priority = p;
                        Ok(())
                    },
                    Err(_) => Err(TodoError::CannotParsePriority(self.buffer.clone())),
                }
            },
            ModStep::Tags => {
                let tags = comma_separated_words(self.buffer.as_str());
                let ghost words = tags@;
                assert(words.map_values(|t: String| lower_text(t@)) =~= comma_words(
                    self.buffer@,
                ).map_values(|t: Seq<char>| lower_text(t)));
                if tags.len() > 0 {
                    self.todo.add_tags(Some(tags));
                } else {
                    proof {
                        use_type_invariant(&self.todo.tags);
                    }
                    assert(lowered_texts(comma_words(self.buffer@)) =~= Set::empty());
                    assert(self.todo@.tags.to_set().union(Set::empty()) =~= self.todo@.tags.to_set());
                }
                Ok(())
            },
        }
    }

    /// Moves to the next step, with no text typed, if there is one; otherwise
    /// changes nothing and returns `None`.
    pub fn advance(&mut self) -> (r: Option<()>)
        ensures
            match step_after(old(self)@.kind) {
                Some(k) => r is Some && final(self)@ == (InputModeView {
                    kind: k,
                    buffer: Seq::empty(),
                    ..old(self)@
                }),
                None => r is None && final(self)@ == old(self)@,
            },
            final(self).spec_todo() == old(self).spec_todo(),
    {
        match self.kind.next() {
            Some(next) => {
                self.kind = next;
                self.buffer = String::new();
                Some(())
            },
            None => None,
        }
    }
}

impl Default for InputModeState {
    /// The first step of adding a new task.
    fn default() -> (r: Self)
        ensures
            r@ == (InputModeView {
                kind: ModStep::Todo,
                buffer: Seq::empty(),
                index: None,
                todo: crate::model::default_todo_view(),
            }),
    {
        InputModeState::new(None, Todo::default())
    }
}

} // verus!
