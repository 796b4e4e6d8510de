# todolist

A command-line to-do manager whose logic is verified with Verus. Tasks have a
title, a priority, a set of lower-case tags, a completion flag and two times;
they are kept under numeric ids and stored as JSON in `~/.todos.json`.

## Layout

- `src/` — the verified library.
  - `model.rs`: priorities, tags (a sorted set without repeats), tasks, the
    edits applied to a task, and the collection of tasks keyed by id.
  - `cli/model.rs`: the commands of the command line, what each does to the
    collection, and the lines that `list` prints.
  - `process.rs`: the same operations on a plain list of tasks, addressed by
    position.
  - `tui/`: the terminal interface's editing steps and what each key does.
  - `text.rs`: characters of strings, lower-casing, trimming, splitting,
    joining, decimal numerals and the order of strings.
  - `error.rs`: the errors and their messages.
  - `laws.rs`: properties that span several operations.
- `app/` — the program around the library: argument parsing, the JSON file,
  the terminal's event loop and drawing.
- `tests/` — tests of the library.

## Usage

```bash
todo add "Buy groceries" -p high -t food -t urgent
todo list            # incomplete tasks
todo ls -v           # every task, with all its fields
todo ls -t food      # tasks with one of the given tags
todo edit 1 -p low -t work
todo complete 1
todo uncomplete 1
todo tui
```
