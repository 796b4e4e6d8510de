//! Tasks, their tags and priorities, the edits applied to a task, and the
//! collection of tasks kept under numeric ids.

use vstd::prelude::*;
use std::borrow::Cow;
use std::collections::BTreeMap;
use vstd::std_specs::iter::IteratorSpec;
use vstd::std_specs::cmp::OrdSpec;
use crate::error::TodoError;
use crate::text::{
    joined, push_joined, push_text, all_ascii, ascii_lower_char, chars_less, chars_of, lemma_text_less_irreflexive,
    lemma_text_less_total, lemma_text_less_transitive, lower_text, lowercase_text, text_is, text_less,
};

verus! {

/// The identifier of a task in a [`Todos`] collection.
pub type TodoID = usize;

// ---------------------------------------------------------------------------
// Priority
// ---------------------------------------------------------------------------

/// How urgent a task is.
#[derive(Clone, Copy, Debug, PartialEq, Eq, Structural)]
pub enum Priority {
    Low,
    Medium,
    High,
}

/// The lower-case name of a priority.
pub open spec fn priority_name(p: Priority) -> Seq<char> {
    match p {
        Priority::Low => "low"@,
        Priority::Medium => "medium"@,
        Priority::High => "high"@,
    }
}

/// The priority that a lower-cased text names: one of the three names, or the
/// default priority for the empty text.
pub open spec fn priority_named(lower: Seq<char>) -> Option<Priority> {
    if lower == "low"@ {
        Some(Priority::Low)
    } else if lower == "medium"@ {
        Some(Priority::Medium)
    } else if lower == "high"@ {
        Some(Priority::High)
    } else if lower.len() == 0 {
        Some(Priority::Medium)
    } else {
        None
    }
}

/// The names of the priorities are ASCII and lower case, and name their
/// priority.
proof fn lemma_names_are_lower_ascii()
    ensures
        forall|p: Priority|
            all_ascii(#[trigger] priority_name(p)) && priority_name(p).map_values(
                |c: char| ascii_lower_char(c),
            ) == priority_name(p) && priority_named(priority_name(p)) == Some(p),
{
    reveal_strlit("low");
    reveal_strlit("medium");
    reveal_strlit("high");
    assert("low"@.len() == 3 && "medium"@.len() == 6 && "high"@.len() == 4);
    assert forall|p: Priority|
        all_ascii(#[trigger] priority_name(p)) && priority_name(p).map_values(
            |c: char| ascii_lower_char(c),
        ) == priority_name(p) && priority_named(priority_name(p)) == Some(p) by {
        let n = priority_name(p);
        assert(n.map_values(|c: char| ascii_lower_char(c)) =~= n);
    }
}

impl Priority {
    /// The lower-case name of the priority.
    pub fn as_str(&self) -> (r: &'static str)
        ensures
            r@ == priority_name(*self),
    {
        match self {
            Priority::Low => "low",
            Priority::Medium => "medium",
            Priority::High => "high",
        }
    }

    /// Reads a priority from its name, in any case; the empty text gives the
    /// default priority.
    pub fn parse_text(s: &str) -> (r: Result<Priority, TodoError>)
        ensures
            match priority_named(lower_text(s@)) {
                Some(p) => r == Ok::<Priority, TodoError>(p),
                None => r matches Err(TodoError::InvalidPriority(t)) && t@ == s@,
            },
            forall|p: Priority| s@ == priority_name(p) ==> r == Ok::<Priority, TodoError>(p),
    {
        let lower = lowercase_text(s);
        proof {
            lemma_names_are_lower_ascii();
        }
        if text_is(lower.as_str(), "low") {
            Ok(Priority::Low)
        } else if text_is(lower.as_str(), "medium") {
            Ok(Priority::Medium)
        } else if text_is(lower.as_str(), "high") {
            Ok(Priority::High)
        } else if lower.as_str().is_empty() {
            Ok(Priority::default())
        } else {
            Err(TodoError::InvalidPriority(s.to_string()))
        }
    }
}

impl Default for Priority {
    /// The default priority is `Medium`.
    fn default() -> (r: Self)
        ensures
            r == Priority::Medium,
    {
        Priority::Medium
    }
}

impl std::str::FromStr for Priority {
    type Err = TodoError;

    /// Reads a priority as [`Priority::parse_text`] does.
    fn from_str(s: &str) -> (r: Result<Self, Self::Err>)
        ensures
            match priority_named(lower_text(s@)) {
                Some(p) => r == Ok::<Priority, TodoError>(p),
                None => r matches Err(TodoError::InvalidPriority(t)) && t@ == s@,
            },
            forall|p: Priority| s@ == priority_name(p) ==> r == Ok::<Priority, TodoError>(p),
    {
        Priority::parse_text(s)
    }
}

// ---------------------------------------------------------------------------
// Timestamps
// ---------------------------------------------------------------------------

/// A point in time in UTC: whole seconds since the Unix epoch and the
/// nanoseconds past that second.
#[derive(Clone, Copy, Debug, PartialEq, Eq, Structural)]
pub struct Timestamp {
    pub secs: i64,
    pub nanos: u32,
}

impl Default for Timestamp {
    /// The Unix epoch.
    fn default() -> (r: Self)
        ensures
            r == (Timestamp { secs: 0, nanos: 0 }),
    {
        Timestamp { secs: 0, nanos: 0 }
    }
}

/// The current time (`chrono::Utc::now`), as seconds since the epoch and
/// nanoseconds past the second. Nothing is claimed of the value: it is the
/// clock's.
#[verifier::external_body]
pub(crate) fn utc_now() -> Timestamp {
    let now = chrono::Utc::now();
    Timestamp { secs: now.timestamp(), nanos: now.timestamp_subsec_nanos() }
}

/// What `chrono`'s `Display` of a `DateTime<Utc>` shows for the time `secs`
/// seconds and `nanos` nanoseconds after the epoch (the epoch itself for a
/// time that `chrono` cannot hold).
pub uninterp spec fn utc_text(secs: i64, nanos: u32) -> Seq<char>;

/// The text of a time (`chrono::DateTime::from_timestamp`, then `Display` of
/// `DateTime<Utc>`, as in `2024-01-02 03:04:05 UTC`).
/// Claimed: the result is `utc_text` of the seconds and nanoseconds. Not
/// stated: the calendar arithmetic and the layout of the text, left under that
/// name; a time out of `chrono`'s range is shown as the epoch.
#[verifier::external_body]
pub(crate) fn time_text(t: Timestamp) -> (r: String)
    ensures
        r@ == utc_text(t.secs, t.nanos),
{
    let time = chrono::DateTime::from_timestamp(t.secs, t.nanos).unwrap_or_default();
    time.to_string()
}

// ---------------------------------------------------------------------------
// Tags
// ---------------------------------------------------------------------------

/// Whether the strings of `s` are in strictly increasing order (so no string
/// occurs twice).
pub open spec fn strictly_sorted(s: Seq<Seq<char>>) -> bool {
    forall|i: int, j: int| 0 <= i < j < s.len() ==> text_less(s[i], s[j])
}

/// A set of tags, kept in the order of strings with no tag twice.
#[derive(Debug, PartialEq, Eq)]
pub struct TagSet {
    tags: Vec<String>,
}

impl View for TagSet {
    type V = Seq<Seq<char>>;

    closed spec fn view(&self) -> Seq<Seq<char>> {
        self.tags@.map_values(|s: String| s@)
    }
}

impl TagSet {
    #[verifier::type_invariant]
    pub(crate) open spec fn sorted(self) -> bool {
        strictly_sorted(self@)
    }

    /// The empty set.
    pub fn new() -> (r: TagSet)
        ensures
            r@ == Seq::<Seq<char>>::empty(),
            strictly_sorted(r@),
    {
        TagSet { tags: Vec::new() }
    }

    /// The number of tags.
    pub fn len(&self) -> (r: usize)
        ensures
            r == self@.len(),
    {
        self.tags.len()
    }

    /// Whether there is no tag.
    pub fn is_empty(&self) -> (r: bool)
        ensures
            r == (self@.len() == 0),
    {
        self.tags.len() == 0
    }

    /// Whether `tag` is one of the tags.
    pub fn contains(&self, tag: &str) -> (r: bool)
        ensures
            r == self@.contains(tag@),
    {
        let t = chars_of(tag);
        for i in 0..self.tags.len()
            invariant
                t@ == tag@,
                forall|j: int| 0 <= j < i ==> self@[j] != tag@,
        {
            let c = chars_of(self.tags[i].as_str());
            assert(self@[i as int] == self.tags@[i as int]@);
            if crate::text::same_chars(&c, &t) {
                return true;
            }
        }
        false
    }

    /// The tags, in increasing order.
    pub fn as_slice(&self) -> (r: &[String])
        ensures
            r@.map_values(|s: String| s@) == self@,
            strictly_sorted(self@),
    {
        proof {
            use_type_invariant(self);
        }
        assert(self.tags@.map_values(|s: String| s@) =~= self@);
        self.tags.as_slice()
    }

    /// Adds `tag`; returns whether it was not there before.
    pub fn insert(&mut self, tag: String) -> (r: bool)
        ensures
            r == !old(self)@.contains(tag@),
            final(self)@.to_set() == old(self)@.to_set().insert(tag@),
            r ==> final(self)@.len() == old(self)@.len() + 1,
            !r ==> final(self)@ == old(self)@,
            strictly_sorted(final(self)@),
    {
        proof {
            use_type_invariant(&*self);
        }
        let ghost old_tags = self@;
        let t = chars_of(tag.as_str());
        let n = self.tags.len();
        let mut i: usize = 0;
        while i < n
            invariant
                n == self.tags.len(),
                i <= n,
                self@ == old_tags,
                strictly_sorted(old_tags),
                t@ == tag@,
                forall|j: int| 0 <= j < i ==> text_less(old_tags[j], tag@),
            ensures
                i <= n,
                forall|j: int| 0 <= j < i ==> text_less(old_tags[j], tag@),
                i < n ==> !text_less(old_tags[i as int], tag@),
            decreases n - i,
        {
            let c = chars_of(self.tags[i].as_str());
            assert(old_tags[i as int] == self.tags@[i as int]@);
            if !chars_less(&c, &t) {
                break;
            }
            i = i + 1;
        }
        if i < n {
            let c = chars_of(self.tags[i].as_str());
            assert(old_tags[i as int] == self.tags@[i as int]@);
            if crate::text::same_chars(&c, &t) {
                assert(old_tags[i as int] == tag@);
                proof {
                    use_type_invariant(&*self);
                }
                return false;
            }
        }
        proof {
            // Every tag from position `i` on comes after `tag`.
            assert forall|j: int| i <= j < n implies text_less(tag@, #[trigger] old_tags[j]) by {
                assert(!text_less(old_tags[i as int], tag@));
                assert(old_tags[i as int] != tag@);
                lemma_text_less_total(old_tags[i as int], tag@);
                if j > i {
                    lemma_text_less_transitive(tag@, old_tags[i as int], old_tags[j]);
                }
            }
            lemma_text_less_irreflexive(tag@);
            assert forall|j: int| 0 <= j < n implies old_tags[j] != tag@ by {}
        }
        let ghost ins = old_tags.insert(i as int, tag@);
        let mut v: Vec<String> = Vec::new();
        std::mem::swap(&mut v, &mut self.tags);
        v.insert(i, tag);
        assert(v@.map_values(|s: String| s@) =~= ins);
        self.tags = v;
        assert(strictly_sorted(ins));
        assert forall|x: Seq<char>| ins.contains(x) implies old_tags.contains(x) || x == tag@ by {
            let k = choose|k: int| 0 <= k < ins.len() && ins[k] == x;
            if k < i {
                assert(old_tags[k] == x);
            } else if k > i {
                assert(old_tags[k - 1] == x);
            }
        }
        assert forall|x: Seq<char>| old_tags.contains(x) implies ins.contains(x) by {
            let k = choose|k: int| 0 <= k < old_tags.len() && old_tags[k] == x;
            if k < i {
                assert(ins[k] == x);
            } else {
                assert(ins[k + 1] == x);
            }
        }
        assert(ins[i as int] == tag@);
        assert(ins.to_set() =~= old_tags.to_set().insert(tag@));
        true
    }

    /// Removes every tag.
    pub fn clear(&mut self)
        ensures
            final(self)@ == Seq::<Seq<char>>::empty(),
            strictly_sorted(final(self)@),
    {
        self.tags = Vec::new();
    }
}

impl Clone for TagSet {
    fn clone(&self) -> (r: Self)
        ensures
            r@ == self@,
    {
        proof {
            use_type_invariant(self);
        }
        let tags = self.tags.clone();
        assert(tags@.map_values(|s: String| s@) =~= self@);
        TagSet { tags }
    }
}

/// The set of the lower-cased forms of `tags`.
pub open spec fn lowered(tags: Seq<String>) -> Set<Seq<char>> {
    tags.map_values(|t: String| lower_text(t@)).to_set()
}

proof fn lemma_lowered_step(tags: Seq<String>, i: int)
    requires
        0 <= i < tags.len(),
    ensures
        lowered(tags.take(i + 1)) == lowered(tags.take(i)).insert(lower_text(tags[i]@)),
{
    let f = |t: String| lower_text(t@);
    assert(tags.take(i + 1).map_values(f) =~= tags.take(i).map_values(f).push(f(tags[i])));
    tags.take(i).map_values(f).lemma_push_to_set_commute(f(tags[i]));
}

/// The tags of `tags`, lower-cased, as a set.
fn lowered_tag_set(tags: &Vec<String>) -> (r: TagSet)
    ensures
        r@.to_set() == lowered(tags@),
        strictly_sorted(r@),
{
    let mut set = TagSet::new();
    for i in 0..tags.len()
        invariant
            set@.to_set() == lowered(tags@.take(i as int)),
            strictly_sorted(set@),
    {
        proof {
            lemma_lowered_step(tags@, i as int);
        }
        let t = lowercase_text(tags[i].as_str());
        set.insert(t);
    }
    assert(tags@.take(tags.len() as int) =~= tags@);
    set
}

// ---------------------------------------------------------------------------
// Tasks
// ---------------------------------------------------------------------------

/// A task.
#[derive(Debug, PartialEq, Eq)]
pub struct Todo {
    pub id: TodoID,
    pub title: String,
    pub completed: bool,
    pub priority: Priority,
    pub tags: TagSet,
    pub created_at: Timestamp,
    pub updated_at: Timestamp,
}

/// What a task holds, as mathematical values.
pub struct TodoView {
    pub id: TodoID,
    pub title: Seq<char>,
    pub completed: bool,
    pub priority: Priority,
    pub tags: Seq<Seq<char>>,
    pub created_at: Timestamp,
    pub updated_at: Timestamp,
}

impl View for Todo {
    type V = TodoView;

    open spec fn view(&self) -> TodoView {
        TodoView {
            id: self.id,
            title: self.title@,
            completed: self.completed,
            priority: self.priority,
            tags: self.tags@,
            created_at: self.created_at,
            updated_at: self.updated_at,
        }
    }
}

/// The task that `Todo::default` gives: no title, not completed, the default
/// priority, no tag, both times at the epoch.
pub open spec fn default_todo_view() -> TodoView {
    TodoView {
        id: 0,
        title: Seq::empty(),
        completed: false,
        priority: Priority::Medium,
        tags: Seq::empty(),
        created_at: Timestamp { secs: 0, nanos: 0 },
        updated_at: Timestamp { secs: 0, nanos: 0 },
    }
}

/// Whether a task with tags `own` has one of `wanted`: every task has one of
/// an empty list; otherwise some wanted tag, lower-cased, is among `own`.
pub open spec fn has_any_tag(own: Seq<Seq<char>>, wanted: Seq<Seq<char>>) -> bool {
    wanted.len() == 0 || exists|i: int| 0 <= i < wanted.len() && own.contains(lower_text(wanted[i]))
}

/// Whether a listing for `wanted` tags shows `t`: it has one of the tags and,
/// unless the listing is verbose, it is not completed.
pub open spec fn is_listed(t: Todo, wanted: Seq<Seq<char>>, verbose: bool) -> bool {
    has_any_tag(t.tags@, wanted) && (verbose || !t.completed)
}

/// The texts of a list of string slices.
pub open spec fn texts(tags: Seq<&str>) -> Seq<Seq<char>> {
    tags.map_values(|t: &str| t@)
}

impl Todo {
    /// The task with its id replaced by `id`.
    pub open spec fn with_id(self, id: TodoID) -> Todo {
        Todo { id: id, ..self }
    }

    /// An edit of a new task with default values.
    pub fn new() -> (r: EditTodo<'static>)
        ensures
            r.is_unchanged(),
            r.base()@ == default_todo_view(),
            !r.is_borrowed(),
    {
        EditTodo::owned(Todo::default())
    }

    /// Wraps the task for changing; the wrapper owns it.
    pub fn edit(self) -> (r: EditTodo<'static>)
        ensures
            r.is_unchanged(),
            r.base() == self,
            !r.is_borrowed(),
    {
        EditTodo::owned(self)
    }

    /// The tags of the task, in increasing order.
    pub fn get_tags(&self) -> (r: &[String])
        ensures
            r@.map_values(|s: String| s@) == self.tags@,
            strictly_sorted(self.tags@),
    {
        self.tags.as_slice()
    }

    /// Whether the task has any of `tags`: `true` for an empty list, otherwise
    /// whether some tag of the list, lower-cased, is a tag of the task.
    pub fn has_any(&self, tags: &[&str]) -> (r: bool)
        ensures
            r == has_any_tag(self.tags@, texts(tags@)),
    {
        let mut tag_exists = true;
        let n = tags.len();
        for i in 0..n
            invariant
                n == tags@.len(),
                tag_exists == (i == 0),
                forall|j: int| 0 <= j < i ==> !self.tags@.contains(lower_text(tags@[j]@)),
        {
            let lower = lowercase_text(tags[i]);
            tag_exists = self.tags.contains(lower.as_str());
            if tag_exists {
                assert(texts(tags@)[i as int] == tags@[i as int]@);
                return true;
            }
        }
        proof {
            if n > 0 {
                assert forall|i: int| 0 <= i < n implies !self.tags@.contains(
                    lower_text(#[trigger] texts(tags@)[i]),
                ) by {
                    assert(texts(tags@)[i] == tags@[i]@);
                }
            }
        }
        tag_exists
    }

    /// Adds the lower-cased forms of `tags`, if any, to the tags of the task.
    pub fn add_tags(&mut self, tags: Option<Vec<String>>)
        ensures
            final(self)@ == (TodoView { tags: final(self)@.tags, ..old(self)@ }),
            strictly_sorted(final(self)@.tags),
            match tags {
                Some(ts) => final(self)@.tags.to_set() == old(self)@.tags.to_set().union(
                    lowered(ts@),
                ),
                None => final(self)@.tags == old(self)@.tags,
            },
    {
        proof {
            use_type_invariant(&self.tags);
        }
        if let Some(ts) = tags {
            for i in 0..ts.len()
                invariant
                    self@ == (TodoView { tags: self@.tags, ..old(self)@ }),
                    strictly_sorted(self@.tags),
                    self@.tags.to_set() == old(self)@.tags.to_set().union(
                        lowered(ts@.take(i as int)),
                    ),
            {
                proof {
                    lemma_lowered_step(ts@, i as int);
                }
                let t = lowercase_text(ts[i].as_str());
                self.tags.insert(t);
                assert(self@.tags.to_set() =~= old(self)@.tags.to_set().union(
                    lowered(ts@.take(i + 1)),
                ));
            }
            assert(ts@.take(ts.len() as int) =~= ts@);
        }
    }
}

/// The name of a priority as `Debug` writes it.
pub open spec fn priority_label(p: Priority) -> Seq<char> {
    match p {
        Priority::Low => "Low"@,
        Priority::Medium => "Medium"@,
        Priority::High => "High"@,
    }
}

/// The text of a boolean.
pub open spec fn bool_text(b: bool) -> Seq<char> {
    if b {
        "true"@
    } else {
        "false"@
    }
}

/// The long description of a task, with `created` and `updated` as the texts
/// of its times: its title, priority, completion, times and tags (joined by
/// commas).
pub open spec fn todo_text_with(t: TodoView, created: Seq<char>, updated: Seq<char>) -> Seq<char> {
    t.title + " priority: "@ + priority_label(t.priority) + ", completed: "@ + bool_text(
        t.completed,
    ) + ", created_at: "@ + created + ", updated_at: "@ + updated + ", tags: "@ + joined(
        t.tags,
        ", "@,
    )
}

/// The long description of a task, its times shown as `chrono` shows them.
pub open spec fn todo_text(t: TodoView) -> Seq<char> {
    todo_text_with(
        t,
        utc_text(t.created_at.secs, t.created_at.nanos),
        utc_text(t.updated_at.secs, t.updated_at.nanos),
    )
}

impl Todo {
    /// The long description of the task, with `created` and `updated` as the
    /// texts of its times (see [`todo_text_with`]).
    pub fn text_with_times(&self, created: &str, updated: &str) -> (r: String)
        ensures
            r@ == todo_text_with(self@, created@, updated@),
    {
        let mut out = String::new();
        push_text(&mut out, self.title.as_str());
        push_text(&mut out, " priority: ");
        let label = match self.priority {
            Priority::Low => "Low",
            Priority::Medium => "Medium",
            Priority::High => "High",
        };
        push_text(&mut out, label);
        push_text(&mut out, ", completed: ");
        push_text(&mut out, if self.completed { "true" } else { "false" });
        push_text(&mut out, ", created_at: ");
        push_text(&mut out, created);
        push_text(&mut out, ", updated_at: ");
        push_text(&mut out, updated);
        push_text(&mut out, ", tags: ");
        let tags = self.tags.as_slice();
        push_joined(&mut out, tags, ", ");
        assert(out@ =~= todo_text_with(self@, created@, updated@));
        out
    }

    /// The long description of the task (see [`todo_text`]).
    pub fn to_string(&self) -> (r: String)
        ensures
            r@ == todo_text(self@),
    {
        let created = time_text(self.created_at);
        let updated = time_text(self.updated_at);
        self.text_with_times(created.as_str(), updated.as_str())
    }
}

impl Default for Todo {
    fn default() -> (r: Self)
        ensures
            r@ == default_todo_view(),
    {
        Todo {
            id: 0,
            title: String::new(),
            completed: false,
            priority: Priority::default(),
            tags: TagSet::new(),
            created_at: Timestamp::default(),
            updated_at: Timestamp::default(),
        }
    }
}

impl Clone for Todo {
    fn clone(&self) -> (r: Self)
        ensures
            r@ == self@,
    {
        Todo {
            id: self.id,
            title: self.title.clone(),
            completed: self.completed,
            priority: self.priority,
            tags: self.tags.clone(),
            created_at: self.created_at,
            updated_at: self.updated_at,
        }
    }
}

// ---------------------------------------------------------------------------
// Editing a task
// ---------------------------------------------------------------------------

/// Where the task of an edit lives: borrowed from elsewhere, or owned by the
/// edit.
#[derive(Debug, PartialEq, Eq)]
pub enum TodoSource<'a> {
    Borrowed(&'a mut Todo),
    Owned(Todo),
}

/// Pending changes to a task. A field left `None` keeps the task's value. The
/// changes reach the task only when [`EditTodo::finish`] is called.
#[derive(Debug, PartialEq, Eq)]
pub struct EditTodo<'a> {
    pub title: Option<String>,
    pub priority: Option<Priority>,
    pub completed: Option<bool>,
    pub tags: Option<Vec<String>>,
    /// The task being edited.
    pub todo: TodoSource<'a>,
}

/// Whether `new` is `base` with the given changes made at time `at`: a given
/// title, priority or completion replaces the old one; given tags replace the
/// old tags by their lower-cased forms; the id and the creation time stay; the
/// update time becomes `at`.
pub open spec fn is_edit_of(
    new: TodoView,
    base: TodoView,
    title: Option<String>,
    priority: Option<Priority>,
    completed: Option<bool>,
    tags: Option<Vec<String>>,
    at: Timestamp,
) -> bool {
    &&& new.id == base.id
    &&& new.title == (match title {
        Some(t) => t@,
        None => base.title,
    })
    &&& new.priority == (match priority {
        Some(p) => p,
        None => base.priority,
    })
    &&& new.completed == (match completed {
        Some(c) => c,
        None => base.completed,
    })
    &&& match tags {
        Some(ts) => new.tags.to_set() == lowered(ts@) && strictly_sorted(new.tags),
        None => new.tags == base.tags,
    }
    &&& new.created_at == base.created_at
    &&& new.updated_at == at
}

impl<'a> EditTodo<'a> {
    /// Where the task of the edit lives.
    pub open spec fn source(&self) -> TodoSource<'a> {
        self.todo
    }

    /// The task as it was when the edit began.
    pub open spec fn base(&self) -> Todo {
        match self.todo {
            TodoSource::Borrowed(t) => *t,
            TodoSource::Owned(t) => t,
        }
    }

    /// Whether the task is borrowed from elsewhere.
    pub open spec fn is_borrowed(&self) -> bool {
        self.source() is Borrowed
    }

    /// Whether no change is pending.
    pub open spec fn is_unchanged(&self) -> bool {
        &&& self.title is None
        &&& self.priority is None
        &&& self.completed is None
        &&& self.tags is None
    }

    /// Whether `new` is the task of the edit with the pending changes made at
    /// time `at`.
    pub open spec fn gives(&self, new: TodoView, at: Timestamp) -> bool {
        is_edit_of(new, self.base()@, self.title, self.priority, self.completed, self.tags, at)
    }

    /// An edit, with no change yet, of a task borrowed from elsewhere.
    pub fn borrow(todo: &'a mut Todo) -> (r: Self)
        ensures
            r.is_unchanged(),
            r.source() matches TodoSource::Borrowed(b) && *b == *old(todo) && *final(b)
                == *final(todo),
    {
        EditTodo {
            title: None,
            priority: None,
            completed: None,
            tags: None,
            todo: TodoSource::Borrowed(todo),
        }
    }

    /// An edit, with no change yet, that owns its task.
    pub fn owned(todo: Todo) -> (r: Self)
        ensures
            r.is_unchanged(),
            r.base() == todo,
            !r.is_borrowed(),
    {
        EditTodo { title: None, priority: None, completed: None, tags: None, todo: TodoSource::Owned(todo) }
    }

    /// Makes the pending changes at the current time and returns the task; a
    /// borrowed task is changed where it lives.
    pub fn finish(self) -> (r: Result<Cow<'a, Todo>, TodoError>)
        ensures
            r matches Ok(c) && self.gives(c@, c@.updated_at),
            self.source() matches TodoSource::Borrowed(b) ==> r matches Ok(c) && (*final(b))@
                == c@,
            self.is_borrowed() ==> r matches Ok(Cow::Borrowed(_)),
            !self.is_borrowed() ==> r matches Ok(Cow::Owned(_)),
    {
        let now = utc_now();
        self.finish_at(now)
    }

    /// Makes the pending changes, with `now` as the update time, and returns
    /// the task; a borrowed task is changed where it lives.
    pub fn finish_at(self, now: Timestamp) -> (r: Result<Cow<'a, Todo>, TodoError>)
        ensures
            r matches Ok(c) && self.gives(c@, now),
            self.source() matches TodoSource::Borrowed(b) ==> r matches Ok(c) && (*final(b))@
                == c@,
            self.is_borrowed() ==> r matches Ok(Cow::Borrowed(_)),
            !self.is_borrowed() ==> r matches Ok(Cow::Owned(_)),
    {
        let EditTodo { title, priority, completed, tags, todo } = self;
        match todo {
            TodoSource::Borrowed(todo) => {
                Self::apply(todo, title, priority, completed, tags, now);
                Ok(Cow::Borrowed(&*todo))
            },
            TodoSource::Owned(mut todo) => {
                Self::apply(&mut todo, title, priority, completed, tags, now);
                Ok(Cow::Owned(todo))
            },
        }
    }

    /// Makes the changes on `todo`, with `at` as the update time.
    fn apply(
        todo: &mut Todo,
        title: Option<String>,
        priority: Option<Priority>,
        completed: Option<bool>,
        tags: Option<Vec<String>>,
        at: Timestamp,
    )
        ensures
            is_edit_of(final(todo)@, old(todo)@, title, priority, completed, tags, at),
    {
        if let Some(t) = title {
            todo.title = t;
        }
        if let Some(p) = priority {
            todo.priority = p;
        }
        if let Some(c) = completed {
            todo.completed = c;
        }
        if let Some(ts) = tags {
            todo.tags = lowered_tag_set(&ts);
        }
        todo.updated_at = at;
    }
}

// ---------------------------------------------------------------------------
// The collection of tasks
// ---------------------------------------------------------------------------

/// Whether every id in use leaves room for a larger one.
pub open spec fn has_room(m: Map<TodoID, Todo>) -> bool {
    forall|k: TodoID| m.contains_key(k) ==> k < usize::MAX
}

/// Whether `id` is the id that the next added task gets: 1 in an empty
/// collection, otherwise one more than the largest id in use.
pub open spec fn is_next_id(m: Map<TodoID, Todo>, id: TodoID) -> bool {
    if m.dom().is_empty() {
        id == 1
    } else {
        &&& id >= 1
        &&& m.contains_key((id - 1) as TodoID)
        &&& forall|k: TodoID| m.contains_key(k) ==> k < id
    }
}

/// Whether the ids `ks` are in strictly increasing order.
pub open spec fn ascending(ks: Seq<TodoID>) -> bool {
    forall|i: int, j: int| 0 <= i < j < ks.len() ==> ks[i] < ks[j]
}

/// Whether `s` lists the tasks of `m` in the order of their ids.
pub open spec fn in_id_order(m: Map<TodoID, Todo>, s: Seq<Todo>) -> bool {
    exists|ks: Seq<TodoID>|
        {
            &&& ascending(ks)
            &&& ks.to_set() == m.dom()
            &&& ks.len() == s.len()
            &&& forall|i: int| 0 <= i < s.len() ==> #[trigger] s[i] == m[ks[i]]
        }
}

/// Ids obey the laws of an order, so the maps keyed by them list their keys in
/// increasing order.
proof fn lemma_ids_are_ordered()
    ensures
        vstd::laws_cmp::obeys_cmp::<TodoID>(),
{
}

/// Ids that a map lists in increasing order are ascending.
proof fn lemma_increasing_ids(ks: Seq<TodoID>)
    requires
        vstd::std_specs::btree::increasing_seq(ks),
    ensures
        ascending(ks),
{
    lemma_ids_are_ordered();
    assert forall|i: int, j: int| 0 <= i < j < ks.len() implies ks[i] < ks[j] by {
        assert(ks[i].cmp_spec(&ks[j]) is Less);
    }
}

/// The tasks, each under its own id.
#[derive(Debug, PartialEq, Eq)]
pub struct Todos {
    todos: BTreeMap<TodoID, Todo>,
}

impl View for Todos {
    type V = Map<TodoID, Todo>;

    closed spec fn view(&self) -> Map<TodoID, Todo> {
        self.todos@
    }
}

/// `BTreeMap::get_mut` on the map of tasks.
/// Claimed: `None` exactly when `id` is not a key, and the map is unchanged;
/// otherwise a reference to the task under `id`, and the map ends with
/// whatever the reference ends with under `id`, the other entries unchanged.
#[verifier::external_body]
fn entry_mut<'a>(m: &'a mut BTreeMap<TodoID, Todo>, id: TodoID) -> (r: Option<&'a mut Todo>)
    ensures
        match r {
            None => !old(m)@.contains_key(id) && final(m)@ == old(m)@,
            Some(t) => old(m)@.contains_key(id) && *t == old(m)@[id] && final(m)@ == old(
                m,
            )@.insert(id, *final(t)),
        },
{
    m.get_mut(&id)
}

impl Todos {
    /// An empty collection.
    pub fn new() -> (r: Todos)
        ensures
            r@ == Map::<TodoID, Todo>::empty(),
    {
        Todos { todos: BTreeMap::new() }
    }

    /// The id that the next added task gets, or `None` when the largest id in
    /// use is `usize::MAX`.
    pub fn next_id(&self) -> (r: Option<TodoID>)
        ensures
            r is Some <==> has_room(self@),
            r matches Some(id) ==> is_next_id(self@, id),
    {
        let mut max: TodoID = 0;
        let mut seen: bool = false;
        let ghost mut count: int = 0;
        let ghost vs = vstd::std_specs::btree::spec_btree_map_iter(&self.todos).remaining();
        let ghost kseq = vs.map_values(|kv: (&TodoID, &Todo)| *kv.0);
        for kv in it: self.todos.iter()
            invariant
                it.seq() == vs,
                kseq == vs.map_values(|kv: (&TodoID, &Todo)| *kv.0),
                count == it.index(),
                seen == (count > 0),
                seen ==> max == kseq[count - 1],
        {
            max = *kv.0;
            seen = true;
            proof {
                count = count + 1;
            }
        }
        proof {
            lemma_ids_are_ordered();
            assert(vs.len() == self@.dom().len());
            assert(vstd::std_specs::btree::increasing_seq(kseq));
            lemma_increasing_ids(kseq);
        }
        if !seen {
            assert(self@.dom().len() == 0);
            assert(self@.dom() =~= Set::empty()) by {
                assert forall|k: TodoID| !self@.contains_key(k) by {
                    if self@.contains_key(k) {
                        assert(vs.contains((&k, &self@[k])));
                    }
                }
            }
            return Some(1);
        }
        proof {
            let n = vs.len();
            assert forall|k: TodoID| self@.contains_key(k) implies k <= max by {
                assert(vs.contains((&k, &self@[k])));
                let i = choose|i: int| 0 <= i < n && vs[i] == (&k, &self@[k]);
                assert(kseq[i] == k);
                if i < n - 1 {
                    assert(kseq[i] < kseq[n - 1]);
                }
            }
            assert(self@.contains_key(*vs[n - 1].0));
            assert(!self@.dom().is_empty());
        }
        if max == usize::MAX {
            None
        } else {
            Some(max + 1)
        }
    }

    /// Adds `todo` under the next id, which it also gets as its own id, and
    /// returns that id.
    pub fn add(&mut self, todo: Todo) -> (r: Result<TodoID, TodoError>)
        requires
            has_room(old(self)@),
        ensures
            r matches Ok(id) && is_next_id(old(self)@, id) && final(self)@ == old(self)@.insert(
                id,
                todo.with_id(id),
            ),
    {
        let id = match self.next_id() {
            Some(id) => id,
            None => {
                assert(false);
                0
            },
        };
        let mut todo = todo;
        todo.id = id;
        self.todos.insert(id, todo);
        Ok(id)
    }

    /// The task under `id`, if any.
    pub fn get(&self, id: &TodoID) -> (r: Option<&Todo>)
        ensures
            match r {
                Some(t) => self@.contains_key(*id) && *t == self@[*id],
                None => !self@.contains_key(*id),
            },
    {
        self.todos.get(id)
    }

    /// An edit, with no change yet, of the task under `id`, if any; finishing
    /// the edit changes the task in the collection.
    pub fn get_mut<'a>(&'a mut self, id: &TodoID) -> (r: Option<EditTodo<'a>>)
        ensures
            match r {
                None => !old(self)@.contains_key(*id) && final(self)@ == old(self)@,
                Some(e) => {
                    &&& old(self)@.contains_key(*id)
                    &&& e.is_unchanged()
                    &&& e.source() matches TodoSource::Borrowed(b) && *b == old(self)@[*id]
                        && final(self)@ == old(self)@.insert(*id, *final(b))
                },
            },
    {
        match entry_mut(&mut self.todos, *id) {
            Some(t) => Some(EditTodo::borrow(t)),
            None => None,
        }
    }

    /// Removes the task under `id` and returns it, if there was one.
    pub fn remove(&mut self, id: &TodoID) -> (r: Option<Todo>)
        ensures
            final(self)@ == old(self)@.remove(*id),
            match r {
                Some(t) => old(self)@.contains_key(*id) && t == old(self)@[*id],
                None => !old(self)@.contains_key(*id),
            },
    {
        self.todos.remove(id)
    }

    /// The number of tasks.
    pub fn len(&self) -> (r: usize)
        ensures
            r == self@.dom().len(),
            self@.dom().finite(),
    {
        self.todos.len()
    }

    /// Whether there is no task.
    pub fn is_empty(&self) -> (r: bool)
        ensures
            r == self@.dom().is_empty(),
    {
        let r = self.todos.is_empty();
        proof {
            if !r {
                assert(self@.dom().len() > 0);
                let k = self@.dom().choose();
                assert(self@.dom().contains(k));
            }
        }
        r
    }

    /// All the tasks, in the order of their ids.
    pub fn filter(&self) -> (r: Result<Vec<&Todo>, TodoError>)
        ensures
            r matches Ok(v) && in_id_order(self@, v@.map_values(|t: &Todo| *t)),
    {
        let mut out: Vec<&Todo> = Vec::new();
        let ghost vs = vstd::std_specs::btree::spec_values_iter(&self.todos).remaining();
        for t in it: self.todos.values()
            invariant
                it.seq() == vs,
                out@ == vs.take(it.index() as int),
        {
            out.push(t);
        }
        let ghost ks = choose|ks: Seq<TodoID>|
            {
                &&& vstd::std_specs::btree::increasing_seq(ks)
                &&& ks.to_set() == self@.dom()
                &&& ks.no_duplicates()
                &&& vs == ks.map(|i: int, k: TodoID| &self@[k])
            };
        proof {
            lemma_ids_are_ordered();
            assert(out@ =~= vs);
            lemma_increasing_ids(ks);
            let outv = out@.map_values(|t: &Todo| *t);
            assert(outv.len() == ks.len());
            assert forall|i: int| 0 <= i < ks.len() implies #[trigger] outv[i] == self@[ks[i]] by {}
            assert(ks.to_set() == self@.dom());
        }
        Ok(out)
    }
}

impl Todos {
    /// A collection of `todos` in their order, under the ids 1, 2, 3, ...;
    /// each task gets its id as its own.
    pub fn from_todos(todos: Vec<Todo>) -> (r: Todos)
        ensures
            r@.dom() == Set::new(|k: TodoID| 1 <= k <= todos@.len()),
            forall|i: int|
                0 <= i < todos@.len() ==> r@[(i + 1) as TodoID] == #[trigger] todos@[i].with_id(
                    (i + 1) as TodoID,
                ),
    {
        let ghost src = todos@;
        let total = todos.len();
        let mut r = Todos::new();
        let mut n: usize = 0;
        for todo in it: todos.into_iter()
            invariant
                it.seq() == src,
                src.len() == total,
                n == it.index(),
                r@.dom() == Set::new(|k: TodoID| 1 <= k <= n),
                forall|i: int|
                    0 <= i < n ==> r@[(i + 1) as TodoID] == #[trigger] src[i].with_id(
                        (i + 1) as TodoID,
                    ),
        {
            assert(has_room(r@));
            let ghost before = r@;
            let id = match r.add(todo) {
                Ok(id) => id,
                Err(_) => {
                    assert(false);
                    0
                },
            };
            proof {
                if n == 0 {
                    assert(before.dom().is_empty());
                } else {
                    assert(before.dom().contains(n));
                    assert(before.contains_key((id - 1) as TodoID));
                }
                assert(id == n + 1);
            }
            n = n + 1;
            assert(r@.dom() =~= Set::new(|k: TodoID| 1 <= k <= n));
        }
        r
    }

    /// The tasks in the order of their ids that have one of `tags` (see
    /// [`Todo::has_any`]) and, unless `verbose`, are not completed.
    pub fn listed(&self, tags: &[&str], verbose: bool) -> (r: Vec<&Todo>)
        ensures
            exists|all: Seq<Todo>|
                {
                    &&& in_id_order(self@, all)
                    &&& r@.map_values(|t: &Todo| *t) == all.filter(
                        |t: Todo| is_listed(t, texts(tags@), verbose),
                    )
                },
    {
        let all = match self.filter() {
            Ok(v) => v,
            Err(_) => Vec::new(),
        };
        let ghost allv = all@.map_values(|t: &Todo| *t);
        let mut out: Vec<&Todo> = Vec::new();
        for i in 0..all.len()
            invariant
                allv == all@.map_values(|t: &Todo| *t),
                out@.map_values(|t: &Todo| *t) == allv.take(i as int).filter(
                    |t: Todo| is_listed(t, texts(tags@), verbose),
                ),
        {
            let t = all[i];
            let keep = t.has_any(tags) && (verbose || !t.completed);
            proof {
                allv.take(i as int).lemma_filter_push(allv[i as int], |t: Todo| is_listed(t, texts(tags@), verbose));
                assert(allv.take(i + 1) =~= allv.take(i as int).push(allv[i as int]));
            }
            if keep {
                out.push(t);
            }
            assert(out@.map_values(|t: &Todo| *t) =~= allv.take(i + 1).filter(
                |t: Todo| is_listed(t, texts(tags@), verbose),
            ));
        }
        assert(allv.take(all.len() as int) =~= allv);
        out
    }
}

/// The descriptions of `s`, each followed by a line break.
pub open spec fn lines_text(s: Seq<TodoView>) -> Seq<char>
    decreases s.len(),
{
    if s.len() == 0 {
        Seq::empty()
    } else {
        lines_text(s.drop_last()) + todo_text(s.last()) + "\n"@
    }
}

impl Todos {
    /// The descriptions of all the tasks in the order of their ids, each on a
    /// line of its own, and an empty line after them.
    pub fn to_string(&self) -> (r: String)
        ensures
            exists|all: Seq<Todo>|
                in_id_order(self@, all) && r@ == lines_text(all.map_values(|t: Todo| t@))
                    + "\n"@,
    {
        let all = match self.filter() {
            Ok(v) => v,
            Err(_) => Vec::new(),
        };
        let ghost allv = all@.map_values(|t: &Todo| *t);
        let ghost views = allv.map_values(|t: Todo| t@);
        let mut out = String::new();
        for i in 0..all.len()
            invariant
                allv == all@.map_values(|t: &Todo| *t),
                views == allv.map_values(|t: Todo| t@),
                out@ == lines_text(views.take(i as int)),
        {
            let line = all[i].to_string();
            push_text(&mut out, line.as_str());
            push_text(&mut out, "\n");
            assert(views.take(i + 1).drop_last() =~= views.take(i as int));
            assert(views.take(i + 1).last() == all@[i as int]@);
        }
        push_text(&mut out, "\n");
        assert(views.take(all.len() as int) =~= views);
        out
    }
}

/// The lower-cased forms of some texts, as a set.
pub open spec fn lowered_texts(tags: Seq<Seq<char>>) -> Set<Seq<char>> {
    tags.map_values(|t: Seq<char>| lower_text(t)).to_set()
}

/// Owned copies of string slices.
pub fn owned_texts(tags: &[&str]) -> (r: Vec<String>)
    ensures
        r@.map_values(|s: String| s@) == texts(tags@),
{
    let mut r: Vec<String> = Vec::new();
    for i in 0..tags.len()
        invariant
            r@.map_values(|s: String| s@) == texts(tags@).take(i as int),
    {
        let t = tags[i].to_string();
        assert(t@ == tags@[i as int]@);
        assert(texts(tags@)[i as int] == tags@[i as int]@);
        let ghost prev = r@;
        r.push(t);
        assert(r@.map_values(|s: String| s@) =~= prev.map_values(|s: String| s@).push(tags@[i as int]@));
        assert(texts(tags@).take(i + 1) =~= texts(tags@).take(i as int).push(tags@[i as int]@));
    }
    assert(texts(tags@).take(tags@.len() as int) =~= texts(tags@));
    r
}

/// A new task, made at the current time: the given title or none, the given
/// priority or the default one, not completed, the lower-cased forms of the
/// given tags.
pub fn make_todo(title: Option<&str>, priority: Option<Priority>, tags: Option<&[&str]>) -> (r:
    Result<Cow<'static, Todo>, TodoError>)
    ensures
        r matches Ok(c) && {
            &&& c@.id == 0
            &&& c@.title == (match title {
                Some(t) => t@,
                None => Seq::<char>::empty(),
            })
            &&& c@.priority == (match priority {
                Some(p) => p,
                None => Priority::Medium,
            })
            &&& !c@.completed
            &&& match tags {
                Some(ts) => c@.tags.to_set() == lowered_texts(texts(ts@)) && strictly_sorted(c@.tags),
                None => c@.tags == Seq::<Seq<char>>::empty(),
            }
            &&& c@.created_at == Timestamp { secs: 0, nanos: 0 }
        },
{
    let mut todo_edit = Todo::new();
    todo_edit.title = match title {
        Some(t) => Some(t.to_string()),
        None => None,
    };
    todo_edit.priority = priority;
    todo_edit.completed = Some(false);
    todo_edit.tags = match tags {
        Some(ts) => {
            let v = owned_texts(ts);
            assert(v@.map_values(|t: String| lower_text(t@)) =~= texts(ts@).map_values(
                |t: Seq<char>| lower_text(t),
            ));
            Some(v)
        },
        None => None,
    };
    todo_edit.finish()
}

impl Clone for Todos {
    fn clone(&self) -> (r: Self)
        ensures
            r@ == self@,
    {
        Todos { todos: self.todos.clone() }
    }
}

impl Default for Todos {
    fn default() -> (r: Self)
        ensures
            r@ == Map::<TodoID, Todo>::empty(),
    {
        Todos::new()
    }
}

} // verus!
