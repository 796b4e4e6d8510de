//! Properties that span several operations of the library, stated over the
//! same spec functions and views as the operations' own contracts.

use vstd::prelude::*;
use crate::model::{
    has_any_tag, is_listed, lowered_texts, in_id_order, is_edit_of, is_next_id, strictly_sorted, ascending, Priority, Timestamp, Todo,
    TodoID, TodoView,
};
use crate::text::{
    all_ascii, ascii_lower_char, lower_text, comma_words, is_space, kept_words, lemma_text_less_asymmetric, lemma_text_less_irreflexive,
    split_pieces, trim, trim_end, trim_start,
};
use crate::tui::app::{moved_selection, toggled, valid_selection, UiView};
use crate::tui::model::{parses_to, step_after, InputModeView, ModStep};

verus! {

// ---------------------------------------------------------------------------
// The collection of tasks
// ---------------------------------------------------------------------------

/// Whether every task is kept under its own id.
pub open spec fn ids_match_keys(m: Map<TodoID, Todo>) -> bool {
    forall|k: TodoID| m.contains_key(k) ==> #[trigger] m[k].id == k
}

/// The id that `add` gives is not in use, and is larger than every id in use.
pub proof fn law_next_id_is_fresh(m: Map<TodoID, Todo>, id: TodoID)
    requires
        is_next_id(m, id),
    ensures
        !m.contains_key(id),
        forall|k: TodoID| m.contains_key(k) ==> k < id,
{
}

/// Reading back the task that `add` stored under its id gives the added task,
/// with that id; the other tasks are as they were.
pub proof fn law_get_after_add(m: Map<TodoID, Todo>, todo: Todo, id: TodoID)
    requires
        is_next_id(m, id),
    ensures
        m.insert(id, todo.with_id(id)).contains_key(id),
        m.insert(id, todo.with_id(id))[id] == todo.with_id(id),
        m.insert(id, todo.with_id(id))[id].id == id,
        forall|k: TodoID| k != id && m.contains_key(k) ==> m.insert(id, todo.with_id(id))[k] == m[k],
{
}

/// Removing the task that `add` just stored gives back the collection as it
/// was before.
pub proof fn law_remove_undoes_add(m: Map<TodoID, Todo>, todo: Todo, id: TodoID)
    requires
        is_next_id(m, id),
    ensures
        m.insert(id, todo.with_id(id)).remove(id) == m,
{
    assert(m.insert(id, todo.with_id(id)).remove(id) =~= m);
}

/// `add` makes the number of tasks grow by one.
pub proof fn law_add_grows_by_one(m: Map<TodoID, Todo>, todo: Todo, id: TodoID)
    requires
        is_next_id(m, id),
        m.dom().finite(),
    ensures
        m.insert(id, todo.with_id(id)).dom().len() == m.dom().len() + 1,
{
}

/// Two adds in a row give consecutive ids.
pub proof fn law_consecutive_adds(m: Map<TodoID, Todo>, a: Todo, first: TodoID, b: Todo, second: TodoID)
    requires
        is_next_id(m, first),
        is_next_id(m.insert(first, a.with_id(first)), second),
    ensures
        second == first + 1,
{
    let m1 = m.insert(first, a.with_id(first));
    assert(m1.contains_key(first));
    assert(m1.contains_key((second - 1) as TodoID));
}

/// Every task is kept under its own id: `add` keeps it so, and so does
/// `remove`.
pub proof fn law_ids_match_keys_kept(m: Map<TodoID, Todo>, todo: Todo, id: TodoID, gone: TodoID)
    requires
        ids_match_keys(m),
    ensures
        ids_match_keys(m.insert(id, todo.with_id(id))),
        ids_match_keys(m.remove(gone)),
{
}

/// An edit keeps a task's id, so a collection in which every task is kept
/// under its own id stays so after an edit of one of its tasks.
pub proof fn law_edit_keeps_ids(
    m: Map<TodoID, Todo>,
    id: TodoID,
    new: Todo,
    title: Option<String>,
    priority: Option<Priority>,
    completed: Option<bool>,
    tags: Option<Vec<String>>,
    at: Timestamp,
)
    requires
        ids_match_keys(m),
        m.contains_key(id),
        is_edit_of(new@, m[id]@, title, priority, completed, tags, at),
    ensures
        ids_match_keys(m.insert(id, new)),
{
}

/// Two strictly sorted sequences of strings with the same elements are the
/// same sequence.
pub proof fn law_sorted_tags_are_unique(a: Seq<Seq<char>>, b: Seq<Seq<char>>)
    requires
        strictly_sorted(a),
        strictly_sorted(b),
        a.to_set() == b.to_set(),
    ensures
        a == b,
    decreases a.len(),
{
    if a.len() == 0 {
        if b.len() > 0 {
            assert(b.to_set().contains(b[0]));
        }
        assert(a =~= b);
    } else if b.len() == 0 {
        assert(a.to_set().contains(a[0]));
    } else {
        // The first elements are the smallest of each, so they are equal.
        assert(b.to_set().contains(a[0]));
        assert(a.to_set().contains(b[0]));
        let i = choose|i: int| 0 <= i < b.len() && b[i] == a[0];
        let j = choose|j: int| 0 <= j < a.len() && a[j] == b[0];
        if a[0] != b[0] {
            assert(i > 0 && j > 0);
            // a[0] < a[j] = b[0] < b[i] = a[0]
            lemma_text_less_asymmetric(a[0], a[j]);
        }
        let a1 = a.drop_first();
        let b1 = b.drop_first();
        assert forall|x: Seq<char>| a1.to_set().contains(x) implies b1.to_set().contains(x) by {
            let k = choose|k: int| 0 <= k < a1.len() && a1[k] == x;
            assert(a.to_set().contains(x));
            let l = choose|l: int| 0 <= l < b.len() && b[l] == x;
            if l == 0 {
                lemma_text_less_irreflexive(a[0]);
            }
            assert(b1[l - 1] == x);
        }
        assert forall|x: Seq<char>| b1.to_set().contains(x) implies a1.to_set().contains(x) by {
            let k = choose|k: int| 0 <= k < b1.len() && b1[k] == x;
            assert(b.to_set().contains(x));
            let l = choose|l: int| 0 <= l < a.len() && a[l] == x;
            if l == 0 {
                lemma_text_less_irreflexive(b[0]);
            }
            assert(a1[l - 1] == x);
        }
        assert(a1.to_set() =~= b1.to_set());
        law_sorted_tags_are_unique(a1, b1);
        assert(a =~= seq![a[0]] + a1);
        assert(b =~= seq![b[0]] + b1);
    }
}

/// The same changes to the same task at the same time give the same task:
/// whether the task is borrowed from a collection or owned by the edit, the
/// result of finishing an edit is determined.
pub proof fn law_edit_is_determined(
    base: TodoView,
    n1: TodoView,
    n2: TodoView,
    title: Option<String>,
    priority: Option<Priority>,
    completed: Option<bool>,
    tags: Option<Vec<String>>,
    at: Timestamp,
)
    requires
        is_edit_of(n1, base, title, priority, completed, tags, at),
        is_edit_of(n2, base, title, priority, completed, tags, at),
    ensures
        n1 == n2,
{
    if tags is Some {
        law_sorted_tags_are_unique(n1.tags, n2.tags);
    }
}

/// Building a collection from a list and listing it in id order gives back
/// the list, each task with its position plus one as its id.
pub proof fn law_list_after_build(m: Map<TodoID, Todo>, v: Seq<Todo>, listed: Seq<Todo>)
    requires
        v.len() <= usize::MAX,
        m.dom() == Set::new(|k: TodoID| 1 <= k <= v.len()),
        forall|i: int| 0 <= i < v.len() ==> m[(i + 1) as TodoID] == #[trigger] v[i].with_id(
            (i + 1) as TodoID,
        ),
        in_id_order(m, listed),
    ensures
        listed.len() == v.len(),
        forall|i: int| 0 <= i < v.len() ==> listed[i] == #[trigger] v[i].with_id((i + 1) as TodoID),
{
    let ks = choose|ks: Seq<TodoID>|
        {
            &&& ascending(ks)
            &&& ks.to_set() == m.dom()
            &&& ks.len() == listed.len()
            &&& forall|i: int| 0 <= i < listed.len() ==> #[trigger] listed[i] == m[ks[i]]
        };
    lemma_ascending_run(ks, v.len());
}

/// An ascending sequence of ids whose set is `1..=n` is `1, 2, ..., n`.
proof fn lemma_ascending_run(ks: Seq<TodoID>, n: nat)
    requires
        n <= usize::MAX,
        ascending(ks),
        ks.to_set() == Set::new(|k: TodoID| 1 <= k <= n),
    ensures
        ks.len() == n,
        forall|i: int| 0 <= i < n ==> #[trigger] ks[i] == i + 1,
{
    assert forall|i: int| 0 <= i < ks.len() implies 1 <= #[trigger] ks[i] <= n by {
        assert(ks.to_set().contains(ks[i]));
    }
    assert forall|k: int| 1 <= k <= n implies #[trigger] occurs(ks, k) by {
        assert(Set::new(|k: TodoID| 1 <= k <= n).contains(k as TodoID));
        assert(ks.to_set().contains(k as TodoID));
    }
    assert forall|i: int| 0 <= i < ks.len() implies #[trigger] ks[i] == i + 1 by {
        lemma_run_at(ks, n, i);
    }
    if ks.len() > 0 {
        assert(ks[ks.len() - 1] == ks.len());
    }
    if n > 0 {
        assert(occurs(ks, n as int));
        let j = choose|j: int| 0 <= j < ks.len() && ks[j] == n;
        assert(ks[j] == j + 1);
    }
}

/// Whether the id `k` occurs in `ks`.
spec fn occurs(ks: Seq<TodoID>, k: int) -> bool {
    exists|j: int| 0 <= j < ks.len() && ks[j] == k
}

/// In an ascending sequence of the ids `1..=n`, the id at position `i` is
/// `i + 1`.
proof fn lemma_run_at(ks: Seq<TodoID>, n: nat, i: int)
    requires
        ascending(ks),
        forall|j: int| 0 <= j < ks.len() ==> 1 <= #[trigger] ks[j] <= n,
        forall|k: int| 1 <= k <= n ==> #[trigger] occurs(ks, k),
        0 <= i < ks.len(),
    ensures
        ks[i] == i + 1,
    decreases i,
{
    if i > 0 {
        lemma_run_at(ks, n, i - 1);
    }
    assert(ks[i] >= i + 1);
    assert(occurs(ks, i + 1));
    let j = choose|j: int| 0 <= j < ks.len() && ks[j] == i + 1;
    if j < i {
        if i > 0 {
            assert(ks[j] <= ks[i - 1]);
        }
    }
    if j > i {
        assert(ks[i] < ks[j]);
    }
}

// ---------------------------------------------------------------------------
// Tags and their case
// ---------------------------------------------------------------------------

/// On ASCII text, lower-casing gives ASCII text, and lower-casing it again
/// changes nothing.
pub proof fn law_lower_case_is_stable(s: Seq<char>)
    requires
        all_ascii(s),
    ensures
        all_ascii(lower_text(s)),
        lower_text(lower_text(s)) == lower_text(s),
{
    let l = lower_text(s);
    assert forall|i: int| 0 <= i < l.len() implies (#[trigger] l[i] as u32) < 128 by {
        assert((s[i] as u32) < 128);
    }
    assert(l.map_values(|c: char| ascii_lower_char(c)) =~= l);
}

/// A task has each tag it was given, asked for in any case: when the tags of
/// a task are the lower-cased forms of `given` (as making or editing a task
/// leaves them), asking for an ASCII tag that differs from one of the given
/// ones only in the case of its letters finds the task.
pub proof fn law_given_tag_found_in_any_case(
    own: Seq<Seq<char>>,
    given: Seq<Seq<char>>,
    i: int,
    asked: Seq<char>,
)
    requires
        own.to_set() == lowered_texts(given),
        0 <= i < given.len(),
        all_ascii(given[i]),
        all_ascii(asked),
        lower_text(asked) == lower_text(given[i]),
    ensures
        has_any_tag(own, seq![asked]),
{
    let f = |t: Seq<char>| lower_text(t);
    assert(given.map_values(f)[i] == lower_text(given[i]));
    assert(lowered_texts(given).contains(lower_text(given[i])));
    assert(own.to_set().contains(lower_text(asked)));
    assert(seq![asked][0] == asked);
}

/// The tags given to a task are kept in lower case: when the tags of a task
/// are the lower-cased forms of ASCII texts, each tag is its own lower-case
/// form.
pub proof fn law_given_tags_are_lower_case(own: Seq<Seq<char>>, given: Seq<Seq<char>>)
    requires
        own.to_set() == lowered_texts(given),
        forall|i: int| 0 <= i < given.len() ==> all_ascii(#[trigger] given[i]),
    ensures
        forall|j: int| 0 <= j < own.len() ==> lower_text(#[trigger] own[j]) == own[j],
{
    let f = |t: Seq<char>| lower_text(t);
    assert forall|j: int| 0 <= j < own.len() implies lower_text(#[trigger] own[j]) == own[j] by {
        assert(own.to_set().contains(own[j]));
        assert(given.map_values(f).contains(own[j]));
        let k = choose|k: int| 0 <= k < given.len() && given.map_values(f)[k] == own[j];
        law_lower_case_is_stable(given[k]);
    }
}

/// Filtering by tags needs a match: for a non-empty list of wanted tags, a
/// task has one of them only when one of the wanted tags, lower-cased, is
/// among its own tags; so a task with no tags has none of them, and a listing
/// filtered by tags leaves it out.
pub proof fn law_has_any_needs_a_match(own: Seq<Seq<char>>, wanted: Seq<Seq<char>>, t: Todo, verbose: bool)
    requires
        wanted.len() > 0,
    ensures
        has_any_tag(own, wanted) ==> exists|i: int|
            0 <= i < wanted.len() && own.contains(lower_text(#[trigger] wanted[i])),
        (forall|i: int| 0 <= i < wanted.len() ==> !own.contains(lower_text(#[trigger] wanted[i])))
            ==> !has_any_tag(own, wanted),
        own.len() == 0 ==> !has_any_tag(own, wanted),
        t.tags@.len() == 0 ==> !is_listed(t, wanted, verbose),
{
}

/// An empty list of wanted tags matches every task.
pub proof fn law_no_wanted_tag_matches_all(own: Seq<Seq<char>>)
    ensures
        has_any_tag(own, Seq::empty()),
{
}

/// Reading the tags step keeps the task's tags and adds the typed ones: every
/// tag the task had is still there, every typed word, lower-cased, is there,
/// nothing else is; and when no word was typed the tags stay exactly as they
/// were. Title, priority and the rest of the task do not change.
pub proof fn law_tags_step_adds(s: InputModeView, p: InputModeView)
    requires
        s.kind == ModStep::Tags,
        strictly_sorted(s.todo.tags),
        parses_to(s, p),
    ensures
        forall|x: Seq<char>| s.todo.tags.contains(x) ==> p.todo.tags.contains(x),
        forall|i: int|
            0 <= i < comma_words(s.buffer).len() ==> p.todo.tags.contains(
                lower_text(#[trigger] comma_words(s.buffer)[i]),
            ),
        forall|x: Seq<char>|
            p.todo.tags.contains(x) ==> s.todo.tags.contains(x) || exists|i: int|
                0 <= i < comma_words(s.buffer).len() && x == lower_text(
                    #[trigger] comma_words(s.buffer)[i],
                ),
        comma_words(s.buffer).len() == 0 ==> p.todo.tags == s.todo.tags,
        p.todo.title == s.todo.title,
        p.todo.priority == s.todo.priority,
        p.todo.completed == s.todo.completed,
        p.todo.id == s.todo.id,
{
    let words = comma_words(s.buffer);
    let f = |t: Seq<char>| lower_text(t);
    assert forall|x: Seq<char>| s.todo.tags.contains(x) implies p.todo.tags.contains(x) by {
        assert(s.todo.tags.to_set().contains(x));
        assert(p.todo.tags.to_set().contains(x));
    }
    assert forall|i: int| 0 <= i < words.len() implies p.todo.tags.contains(
        lower_text(#[trigger] words[i]),
    ) by {
        assert(words.map_values(f)[i] == lower_text(words[i]));
        assert(lowered_texts(words).contains(lower_text(words[i])));
        assert(p.todo.tags.to_set().contains(lower_text(words[i])));
    }
    assert forall|x: Seq<char>| p.todo.tags.contains(x) implies s.todo.tags.contains(x) || exists|
        i: int,
    | 0 <= i < words.len() && x == lower_text(#[trigger] words[i]) by {
        assert(p.todo.tags.to_set().contains(x));
        if !s.todo.tags.contains(x) {
            assert(lowered_texts(words).contains(x));
            let k = choose|k: int| 0 <= k < words.map_values(f).len() && words.map_values(f)[k] == x;
            assert(x == lower_text(words[k]));
        }
    }
    if words.len() == 0 {
        assert(lowered_texts(words) =~= Set::empty());
        assert(p.todo.tags.to_set() =~= s.todo.tags.to_set());
        law_sorted_tags_are_unique(p.todo.tags, s.todo.tags);
    }
}

// ---------------------------------------------------------------------------
// The terminal interface
// ---------------------------------------------------------------------------

/// The steps of adding or changing a task run title, priority, tags, and stop.
pub proof fn law_steps_end(s: ModStep)
    ensures
        step_after(ModStep::Todo) == Some(ModStep::Priority),
        step_after(ModStep::Priority) == Some(ModStep::Tags),
        step_after(ModStep::Tags) is None,
        step_after(s) matches Some(t) ==> step_after(t) matches Some(u) ==> step_after(u) is None,
{
}

/// Removing the last character typed undoes typing it.
pub proof fn law_pop_undoes_push(buffer: Seq<char>, c: char)
    ensures
        buffer.push(c).len() > 0,
        buffer.push(c).drop_last() == buffer,
{
    assert(buffer.push(c).drop_last() =~= buffer);
}

/// The selection, once moved, is a position of the list, and there is none
/// exactly when the list is empty.
pub proof fn law_selection_in_list(len: nat, selected: Option<usize>, delta: int)
    requires
        len <= usize::MAX,
        selected matches Some(c) ==> c < len,
    ensures
        moved_selection(len, selected, delta) is None <==> len == 0,
        moved_selection(len, selected, delta) matches Some(i) ==> i < len,
{
}

/// Moving the selection goes by exactly `delta`, stopped only at the ends of
/// the list: from a position `c` of the list, the new position is `c + delta`
/// when that is in the list, the top when it is above, the bottom when it is
/// below; with no selection, the move starts from the top.
pub proof fn law_selection_moves_by_delta(len: nat, c: usize, delta: int)
    requires
        len <= usize::MAX,
        c < len,
    ensures
        0 <= c + delta < len ==> moved_selection(len, Some(c), delta) == Some((c + delta) as usize),
        c + delta < 0 ==> moved_selection(len, Some(c), delta) == Some(0usize),
        c + delta >= len ==> moved_selection(len, Some(c), delta) == Some((len - 1) as usize),
        moved_selection(len, None, delta) == moved_selection(len, Some(0usize), delta),
        0 < c ==> moved_selection(len, Some(c), -1) == Some((c - 1) as usize),
        c + 1 < len ==> moved_selection(len, Some(c), 1) == Some((c + 1) as usize),
{
}

/// Toggling changes only the selected task, and only its completion: the list
/// keeps its length, every other task is as it was, and the selected one
/// (when the selection is in the list) has its completion flipped and every
/// other field kept. Without a selection in the list nothing changes.
pub proof fn law_toggle_changes_only_the_selected(v: UiView)
    ensures
        toggled(v).len() == v.todos.len(),
        forall|j: int|
            0 <= j < v.todos.len() && valid_selection(v) != Some(j as usize) ==> #[trigger] toggled(
                v,
            )[j] == v.todos[j],
        valid_selection(v) matches Some(i) ==> toggled(v)[i as int].completed
            == !v.todos[i as int].completed && toggled(v)[i as int] == (TodoView {
            completed: toggled(v)[i as int].completed,
            ..v.todos[i as int]
        }),
        valid_selection(v) is None ==> toggled(v) == v.todos,
{
}

/// Toggling the selected task twice gives back the tasks as they were.
pub proof fn law_toggle_twice(v: UiView)
    ensures
        toggled(UiView { todos: toggled(v), ..v }) == v.todos,
{
    let w = UiView { todos: toggled(v), ..v };
    assert(toggled(w) =~= v.todos);
}

// ---------------------------------------------------------------------------
// Comma-separated tags
// ---------------------------------------------------------------------------

/// The words of a comma-separated list are not empty, hold no comma, and
/// neither start nor end with whitespace.
pub proof fn law_comma_words_are_trimmed(s: Seq<char>)
    ensures
        forall|i: int|
            0 <= i < comma_words(s).len() ==> {
                let w = #[trigger] comma_words(s)[i];
                &&& w.len() > 0
                &&& !w.contains(',')
                &&& !is_space(w[0])
                &&& !is_space(w.last())
            },
{
    lemma_pieces_have_no_comma(s);
    lemma_kept_words_trimmed(split_pieces(s, ','));
}

proof fn lemma_pieces_have_no_comma(s: Seq<char>)
    ensures
        forall|i: int| 0 <= i < split_pieces(s, ',').len() ==> !(#[trigger] split_pieces(s, ',')[i]).contains(','),
    decreases s.len(),
{
    if s.len() > 0 {
        lemma_pieces_have_no_comma(s.drop_last());
        let p = split_pieces(s.drop_last(), ',');
        lemma_split_len(s.drop_last());
        if s.last() != ',' {
            assert forall|i: int| 0 <= i < split_pieces(s, ',').len() implies !(#[trigger] split_pieces(s, ',')[i]).contains(',') by {
                if i == p.len() - 1 {
                    let w = p.last().push(s.last());
                    if w.contains(',') {
                        let j = choose|j: int| 0 <= j < w.len() && w[j] == ',';
                        assert(p.last()[j] == ',');
                        assert(p.last().contains(','));
                    }
                }
            }
        } else {
            assert forall|i: int| 0 <= i < split_pieces(s, ',').len() implies !(#[trigger] split_pieces(s, ',')[i]).contains(',') by {
                if i == p.len() {
                    assert(split_pieces(s, ',')[i] =~= Seq::<char>::empty());
                }
            }
        }
    }
}

proof fn lemma_split_len(s: Seq<char>)
    ensures
        split_pieces(s, ',').len() >= 1,
    decreases s.len(),
{
    if s.len() > 0 {
        lemma_split_len(s.drop_last());
    }
}

proof fn lemma_kept_words_trimmed(ps: Seq<Seq<char>>)
    requires
        forall|i: int| 0 <= i < ps.len() ==> !(#[trigger] ps[i]).contains(','),
    ensures
        forall|i: int|
            0 <= i < kept_words(ps).len() ==> {
                let w = #[trigger] kept_words(ps)[i];
                &&& w.len() > 0
                &&& !w.contains(',')
                &&& !is_space(w[0])
                &&& !is_space(w.last())
            },
    decreases ps.len(),
{
    if ps.len() > 0 {
        let rest_ps = ps.drop_last();
        assert forall|i: int| 0 <= i < rest_ps.len() implies !(#[trigger] rest_ps[i]).contains(',') by {
            assert(rest_ps[i] == ps[i]);
        }
        lemma_kept_words_trimmed(rest_ps);
        let rest = kept_words(rest_ps);
        let w = trim(ps.last());
        assert(ps[ps.len() - 1] == ps.last());
        lemma_trim_shape(ps.last());
        assert forall|i: int| 0 <= i < kept_words(ps).len() implies {
            let x = #[trigger] kept_words(ps)[i];
            &&& x.len() > 0
            &&& !x.contains(',')
            &&& !is_space(x[0])
            &&& !is_space(x.last())
        } by {
            if i < rest.len() {
                assert(kept_words(ps)[i] == rest[i]);
            } else {
                assert(kept_words(ps)[i] == w);
            }
        }
    }
}

/// A trimmed text is a part of the text that, unless empty, neither starts
/// nor ends with whitespace.
proof fn lemma_trim_shape(s: Seq<char>)
    ensures
        trim(s).len() > 0 ==> !is_space(trim(s)[0]) && !is_space(trim(s).last()),
        !s.contains(',') ==> !trim(s).contains(','),
{
    lemma_trim_start_shape(s);
    lemma_trim_end_shape(trim_start(s));
}

proof fn lemma_trim_start_shape(s: Seq<char>)
    ensures
        trim_start(s).len() > 0 ==> !is_space(trim_start(s)[0]),
        exists|k: int| 0 <= k <= s.len() && trim_start(s) == s.subrange(k, s.len() as int),
    decreases s.len(),
{
    if s.len() > 0 && is_space(s[0]) {
        lemma_trim_start_shape(s.drop_first());
        let k = choose|k: int| 0 <= k <= s.drop_first().len() && trim_start(s.drop_first()) == s.drop_first().subrange(k, s.drop_first().len() as int);
        assert(s.drop_first().subrange(k, s.drop_first().len() as int) =~= s.subrange(k + 1, s.len() as int));
    } else {
        assert(s.subrange(0, s.len() as int) =~= s);
    }
}

proof fn lemma_trim_end_shape(s: Seq<char>)
    ensures
        trim_end(s).len() > 0 ==> !is_space(trim_end(s).last()),
        trim_end(s).len() > 0 && s.len() > 0 && !is_space(s[0]) ==> !is_space(trim_end(s)[0]),
        exists|k: int| 0 <= k <= s.len() && trim_end(s) == s.subrange(0, k),
    decreases s.len(),
{
    if s.len() > 0 && is_space(s.last()) {
        lemma_trim_end_shape(s.drop_last());
        let k = choose|k: int| 0 <= k <= s.drop_last().len() && trim_end(s.drop_last()) == s.drop_last().subrange(0, k);
        assert(s.drop_last().subrange(0, k) =~= s.subrange(0, k));
    } else {
        assert(s.subrange(0, s.len() as int) =~= s);
    }
}

} // verus!
