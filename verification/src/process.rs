//! Operations on a plain list of tasks, addressed by position.

use vstd::prelude::*;
use crate::cli::model::{borrowed_texts, is_added_from, tag_texts, verbose_of, AddArgs, ListArgs};
use crate::error::TodoError;
use crate::model::{has_any_tag, lowered, Priority, Todo, TodoView};

verus! {

/// The arguments of an edit by position: the position of the task, a new
/// priority, tags to add.
#[derive(Debug, Clone, PartialEq, Eq)]
pub struct EditArgs {
    pub pos: usize,
    pub priority: Option<Priority>,
    pub tags: Option<Vec<String>>,
}

/// Appends the task that `args` describe, made at the current time; returns
/// the list.
pub fn add(args: AddArgs, todos: &mut Vec<Todo>) -> (r: Result<&[Todo], TodoError>)
    ensures
        final(todos)@.len() == old(todos)@.len() + 1,
        final(todos)@.take(old(todos)@.len() as int) == old(todos)@,
        final(todos)@.last().id == 0,
        is_added_from(final(todos)@.last()@, args),
        r matches Ok(s) && s@ == final(todos)@,
{
    let todo = match args.try_into() {
        Ok(t) => t,
        Err(e) => {
            return Err(e);
        },
    };
    todos.push(todo);
    assert(todos@.take(old(todos)@.len() as int) =~= old(todos)@);
    Ok(todos.as_slice())
}

/// Whether a listing with `tags` and `verbose` keeps `t`: it has one of the
/// tags and, unless the listing is verbose, it is not completed.
pub open spec fn kept_for_list(t: Todo, tags: Seq<Seq<char>>, verbose: bool) -> bool {
    has_any_tag(t.tags@, tags) && (verbose || !t.completed)
}

/// The tasks that a listing with `args` shows: all of them when no tag is
/// given, otherwise those kept by [`kept_for_list`], in order.
pub fn filter_for_list(args: ListArgs, todos: Vec<Todo>) -> (r: Result<Vec<Todo>, TodoError>)
    ensures
        r matches Ok(v) && v@ == if tag_texts(args.tags).len() == 0 {
            todos@
        } else {
            todos@.filter(
                |t: Todo| kept_for_list(t, tag_texts(args.tags), verbose_of(args.verbose)),
            )
        },
{
    let verbose = match args.verbose {
        Some(b) => b,
        None => false,
    };
    let tags: Vec<String> = match args.tags {
        Some(ts) => ts,
        None => Vec::new(),
    };
    assert(tags@.map_values(|s: String| s@) =~= tag_texts(args.tags));
    if tags.len() == 0 {
        return Ok(todos);
    }
    let refs = borrowed_texts(&tags);
    let ghost wanted = tag_texts(args.tags);
    let ghost keep = |t: Todo| kept_for_list(t, wanted, verbose);
    let ghost src = todos@;
    let mut out: Vec<Todo> = Vec::new();
    for todo in it: todos.into_iter()
        invariant
            it.seq() == src,
            crate::model::texts(refs@) == wanted,
            keep == (|t: Todo| kept_for_list(t, wanted, verbose)),
            out@ == src.take(it.index() as int).filter(keep),
    {
        let ghost i = it.index();
        let k = todo.has_any(refs.as_slice()) && (verbose || !todo.completed);
        proof {
            src.take(i as int).lemma_filter_push(src[i as int], keep);
            assert(src.take(i + 1) =~= src.take(i as int).push(src[i as int]));
        }
        if k {
            out.push(todo);
        }
    }
    assert(src.take(src.len() as int) =~= src);
    assert(keep =~= (|t: Todo| kept_for_list(t, tag_texts(args.tags), verbose_of(args.verbose))));
    Ok(out)
}

/// Sets the priority, if one is given, and adds the given tags to the task at
/// `args.pos`; returns the list, or an error when there is no such position.
pub fn edit(args: EditArgs, todos: &mut [Todo]) -> (r: Result<&[Todo], TodoError>)
    ensures
        args.pos >= old(todos)@.len() ==> r == Err::<&[Todo], TodoError>(
            TodoError::NoTodoAtPosition(args.pos),
        ) && final(todos)@ == old(todos)@,
        args.pos < old(todos)@.len() ==> {
            let before = old(todos)@[args.pos as int]@;
            let after = final(todos)@[args.pos as int]@;
            &&& final(todos)@ == old(todos)@.update(args.pos as int, final(todos)@[args.pos as int])
            &&& after == (TodoView {
                priority: match args.priority {
                    Some(p) => p,
                    None => before.priority,
                },
                tags: after.tags,
                ..before
            })
            &&& after.tags.to_set() == match args.tags {
                Some(ts) => before.tags.to_set().union(lowered(ts@)),
                None => before.tags.to_set(),
            }
            &&& r matches Ok(s) && s@ == final(todos)@
        },
{
    if args.pos >= todos.len() {
        return Err(TodoError::NoTodoAtPosition(args.pos));
    }
    let todo = &mut todos[args.pos];
    if let Some(p) = args.priority {
        todo.priority = p;
    }
    todo.add_tags(args.tags);
    Ok(todos)
}

/// Sets whether the task at `pos` is completed; returns the list, or an error
/// when there is no such position.
pub fn set_complete(pos: usize, completed: bool, todos: &mut [Todo]) -> (r: Result<&[Todo], TodoError>)
    ensures
        pos >= old(todos)@.len() ==> r == Err::<&[Todo], TodoError>(
            TodoError::NoTodoAtPosition(pos),
        ) && final(todos)@ == old(todos)@,
        pos < old(todos)@.len() ==> {
            &&& final(todos)@ == old(todos)@.update(
                pos as int,
                Todo { completed: completed, ..old(todos)@[pos as int] },
            )
            &&& r matches Ok(s) && s@ == final(todos)@
        },
{
    if pos >= todos.len() {
        return Err(TodoError::NoTodoAtPosition(pos));
    }
    todos[pos].completed = completed;
    Ok(todos)
}

} // verus!
