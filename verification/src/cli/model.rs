//! The commands of the command line and what each does to the tasks.

use vstd::prelude::*;
use crate::error::TodoError;
use crate::model::{
    has_room, in_id_order, is_edit_of, is_listed, is_next_id, lowered_texts, make_todo,
    priority_name, strictly_sorted, texts, todo_text, Priority, Timestamp, Todo, TodoID, TodoView,
    Todos,
};
use crate::text::{decimal, decimal_text, push_text};
use crate::tui::app::{checkbox, checkbox_of};

verus! {

/// A command line.
#[derive(Debug, Clone, PartialEq, Eq)]
pub struct Args {
    pub command: Commands,
}

/// What the command line asks for.
#[derive(Debug, Clone, PartialEq, Eq)]
pub enum Commands {
    /// Add a task.
    Add(AddArgs),
    /// List tasks.
    List(ListArgs),
    /// Change the priority or the tags of a task.
    Edit(EditArgs),
    /// Mark a task completed.
    Complete(CompleteArgs),
    /// Mark a task not completed.
    UnComplete(CompleteArgs),
}

/// The arguments of `add`: a title, a priority, tags.
#[derive(Debug, Clone, PartialEq, Eq)]
pub struct AddArgs {
    pub title: String,
    pub priority: Priority,
    pub tags: Option<Vec<String>>,
}

/// The arguments of `list`: verbose output, tags to filter by.
#[derive(Debug, Clone, PartialEq, Eq)]
pub struct ListArgs {
    pub verbose: Option<bool>,
    pub tags: Option<Vec<String>>,
}

/// The arguments of `edit`: the id of a task, a new priority, new tags.
#[derive(Debug, Clone, PartialEq, Eq)]
pub struct EditArgs {
    pub id: TodoID,
    pub priority: Option<Priority>,
    pub tags: Option<Vec<String>>,
}

/// The arguments of `complete` and `uncomplete`: the id of a task.
#[derive(Debug, Clone, PartialEq, Eq)]
pub struct CompleteArgs {
    pub id: TodoID,
}

/// The texts of the strings of an optional list; no list gives no text.
pub open spec fn tag_texts(tags: Option<Vec<String>>) -> Seq<Seq<char>> {
    match tags {
        Some(ts) => ts@.map_values(|s: String| s@),
        None => Seq::empty(),
    }
}

/// String slices of the strings of `tags`.
pub fn borrowed_texts(tags: &Vec<String>) -> (r: Vec<&str>)
    ensures
        texts(r@) == tags@.map_values(|s: String| s@),
{
    let mut r: Vec<&str> = Vec::new();
    for i in 0..tags.len()
        invariant
            texts(r@) == tags@.map_values(|s: String| s@).take(i as int),
    {
        let ghost prev = r@;
        r.push(tags[i].as_str());
        assert(texts(r@) =~= texts(prev).push(tags@[i as int]@));
        assert(tags@.map_values(|s: String| s@).take(i + 1) =~= tags@.map_values(
            |s: String| s@,
        ).take(i as int).push(tags@[i as int]@));
    }
    assert(tags@.map_values(|s: String| s@).take(tags.len() as int) =~= tags@.map_values(
        |s: String| s@,
    ));
    r
}

/// Whether a listing is verbose: only when asked.
pub open spec fn verbose_of(v: Option<bool>) -> bool {
    match v {
        Some(b) => b,
        None => false,
    }
}

/// The line that a listing prints for a task: its mark, its id, and then its
/// long description when verbose, otherwise its title and priority.
pub open spec fn list_line_text(t: TodoView, verbose: bool) -> Seq<char> {
    checkbox_of(t.completed) + " "@ + decimal(t.id as nat) + ": "@ + if verbose {
        todo_text(t)
    } else {
        t.title + " "@ + priority_name(t.priority)
    }
}

/// The line that a listing prints for `todo`.
pub fn list_line(todo: &Todo, verbose: bool) -> (r: String)
    ensures
        r@ == list_line_text(todo@, verbose),
{
    let mut out = String::new();
    push_text(&mut out, checkbox(todo));
    push_text(&mut out, " ");
    let id = decimal_text(todo.id);
    push_text(&mut out, id.as_str());
    push_text(&mut out, ": ");
    if verbose {
        let text = todo.to_string();
        push_text(&mut out, text.as_str());
    } else {
        push_text(&mut out, todo.title.as_str());
        push_text(&mut out, " ");
        push_text(&mut out, todo.priority.as_str());
    }
    assert(out@ =~= list_line_text(todo@, verbose));
    out
}

/// The lines that `list` prints: one for each task of the listing (see
/// [`Todos::listed`]), in the order of their ids.
pub fn list_lines(todos: &Todos, args: &ListArgs) -> (r: Vec<String>)
    ensures
        exists|all: Seq<Todo>|
            {
                &&& in_id_order(todos@, all)
                &&& r@.map_values(|s: String| s@) == all.filter(
                    |t: Todo| is_listed(t, tag_texts(args.tags), verbose_of(args.verbose)),
                ).map_values(|t: Todo| list_line_text(t@, verbose_of(args.verbose)))
            },
{
    let verbose = match args.verbose {
        Some(b) => b,
        None => false,
    };
    let empty: Vec<String> = Vec::new();
    let tags: &Vec<String> = match &args.tags {
        Some(ts) => ts,
        None => &empty,
    };
    assert(tags@.map_values(|s: String| s@) =~= tag_texts(args.tags));
    let refs = borrowed_texts(tags);
    let shown = todos.listed(refs.as_slice(), verbose);
    let ghost shownv = shown@.map_values(|t: &Todo| *t);
    let mut out: Vec<String> = Vec::new();
    for i in 0..shown.len()
        invariant
            shownv == shown@.map_values(|t: &Todo| *t),
            out@.map_values(|s: String| s@) == shownv.take(i as int).map_values(
                |t: Todo| list_line_text(t@, verbose),
            ),
    {
        let line = list_line(shown[i], verbose);
        let ghost prev = out@;
        out.push(line);
        assert(out@.map_values(|s: String| s@) =~= prev.map_values(|s: String| s@).push(
            list_line_text(shownv[i as int]@, verbose),
        ));
        assert(shownv.take(i + 1).map_values(|t: Todo| list_line_text(t@, verbose)) =~= shownv.take(
            i as int,
        ).map_values(|t: Todo| list_line_text(t@, verbose)).push(
            list_line_text(shownv[i as int]@, verbose),
        ));
    }
    assert(shownv.take(shown.len() as int) =~= shownv);
    out
}

impl AddArgs {
    /// The task that the arguments describe, made at the current time: the
    /// title, the priority, not completed, the lower-cased tags.
    pub fn try_into(self) -> (r: Result<Todo, TodoError>)
        ensures
            r matches Ok(t) && {
                &&& t@.id == 0
                &&& t@.title == self.title@
                &&& t@.priority == self.priority
                &&& !t@.completed
                &&& t@.tags.to_set() == lowered_texts(tag_texts(self.tags))
                &&& strictly_sorted(t@.tags)
                &&& t@.created_at == Timestamp { secs: 0, nanos: 0 }
            },
    {
        let empty: Vec<String> = Vec::new();
        let tags: &Vec<String> = match &self.tags {
            Some(ts) => ts,
            None => &empty,
        };
        assert(tags@.map_values(|s: String| s@) =~= tag_texts(self.tags));
        let refs = borrowed_texts(tags);
        let todo = make_todo(Some(self.title.as_str()), Some(self.priority), Some(refs.as_slice()));
        match todo {
            Ok(std::borrow::Cow::Owned(t)) => Ok(t),
            Ok(std::borrow::Cow::Borrowed(t)) => Ok(t.clone()),
            Err(e) => Err(e),
        }
    }
}

/// Whether `t` is the task that `add` makes of `args`, at some time: the
/// title, the priority, not completed, the lower-cased tags, created at the
/// epoch.
pub open spec fn is_added_from(t: crate::model::TodoView, args: AddArgs) -> bool {
    &&& t.title == args.title@
    &&& t.priority == args.priority
    &&& !t.completed
    &&& t.tags.to_set() == lowered_texts(tag_texts(args.tags))
    &&& strictly_sorted(t.tags)
    &&& t.created_at == Timestamp { secs: 0, nanos: 0 }
}

/// Whether the task under `id` was changed by an edit with the given
/// priority, tags and completion, made at some time, and nothing else changed.
pub open spec fn is_edited_at(
    before: Map<TodoID, Todo>,
    after: Map<TodoID, Todo>,
    id: TodoID,
    priority: Option<Priority>,
    completed: Option<bool>,
    tags: Option<Vec<String>>,
) -> bool {
    &&& before.contains_key(id)
    &&& after == before.insert(id, after[id])
    &&& is_edit_of(after[id]@, before[id]@, None, priority, completed, tags, after[id]@.updated_at)
}

/// Runs one command on the tasks. Returns whether the tasks changed (and so
/// are to be saved); `list` changes nothing, its output is [`Todos::listed`].
pub fn run_command(todos: &mut Todos, command: Commands) -> (r: Result<bool, TodoError>)
    requires
        command is Add ==> has_room(old(todos)@),
    ensures
        match command {
            Commands::Add(args) => r == Ok::<bool, TodoError>(true) && exists|id: TodoID|
                {
                    &&& is_next_id(old(todos)@, id)
                    &&& final(todos)@ == old(todos)@.insert(id, final(todos)@[id])
                    &&& final(todos)@[id].id == id
                    &&& is_added_from(final(todos)@[id]@, args)
                },
            Commands::List(_) => r == Ok::<bool, TodoError>(false) && final(todos)@ == old(todos)@,
            Commands::Edit(args) => if old(todos)@.contains_key(args.id) {
                r == Ok::<bool, TodoError>(true) && is_edited_at(
                    old(todos)@,
                    final(todos)@,
                    args.id,
                    args.priority,
                    None,
                    args.tags,
                )
            } else {
                r == Err::<bool, TodoError>(TodoError::TodoNotFound(args.id)) && final(todos)@
                    == old(todos)@
            },
            Commands::Complete(args) => if old(todos)@.contains_key(args.id) {
                r == Ok::<bool, TodoError>(true) && is_edited_at(
                    old(todos)@,
                    final(todos)@,
                    args.id,
                    None,
                    Some(true),
                    None,
                )
            } else {
                r == Err::<bool, TodoError>(TodoError::TodoNotFound(args.id)) && final(todos)@
                    == old(todos)@
            },
            Commands::UnComplete(args) => if old(todos)@.contains_key(args.id) {
                r == Ok::<bool, TodoError>(true) && is_edited_at(
                    old(todos)@,
                    final(todos)@,
                    args.id,
                    None,
                    Some(false),
                    None,
                )
            } else {
                r == Err::<bool, TodoError>(TodoError::TodoNotFound(args.id)) && final(todos)@
                    == old(todos)@
            },
        },
{
    match command {
        Commands::Add(args) => {
            let ghost a = args;
            let todo = match args.try_into() {
                Ok(t) => t,
                Err(e) => {
                    return Err(e);
                },
            };
            let id = match todos.add(todo) {
                Ok(id) => id,
                Err(e) => {
                    return Err(e);
                },
            };
            assert(final(todos)@ == old(todos)@.insert(id, final(todos)@[id])) by {
                assert(final(todos)@ =~= old(todos)@.insert(id, final(todos)@[id]));
            }
            Ok(true)
        },
        Commands::List(_) => Ok(false),
        Commands::Edit(args) => edit_at(todos, args.id, args.priority, None, args.tags),
        Commands::Complete(args) => edit_at(todos, args.id, None, Some(true), None),
        Commands::UnComplete(args) => edit_at(todos, args.id, None, Some(false), None),
    }
}

/// Edits the task under `id` with the given priority, completion and tags.
fn edit_at(
    todos: &mut Todos,
    id: TodoID,
    priority: Option<Priority>,
    completed: Option<bool>,
    tags: Option<Vec<String>>,
) -> (r: Result<bool, TodoError>)
    ensures
        if old(todos)@.contains_key(id) {
            r == Ok::<bool, TodoError>(true) && is_edited_at(
                old(todos)@,
                final(todos)@,
                id,
                priority,
                completed,
                tags,
            )
        } else {
            r == Err::<bool, TodoError>(TodoError::TodoNotFound(id)) && final(todos)@ == old(
                todos,
            )@
        },
{
    let mut todo = match todos.get_mut(&id) {
        Some(e) => e,
        None => {
            return Err(TodoError::TodoNotFound(id));
        },
    };
    todo.priority = priority;
    todo.completed = completed;
    todo.tags = tags;
    match todo.finish() {
        Ok(_) => Ok(true),
        Err(e) => Err(e),
    }
}

} // verus!
