use vstd::prelude::*;
use vstd::string::StringExecFns;
use vstd::view::View as _;
use crate::app::{AppModel, ConfirmationAction, ConfirmationModel, RodoApp, View};
use crate::listing::{ascending, text_le};
use crate::text::{
    contains_part, has_part, same_text, to_chars, trim, trimmed, truncate_string, truncated,
};
use crate::time::{current_time, Timestamp};
use crate::todo::{fresh_id, SubTask, SubTaskModel, Todo, TodoModel};
use crate::todo_list::{
    contains_text, distinct_ids, is_tag_of, lemma_position_is_first,
    lemma_with_todo_keeps_ids_distinct, position_of, with_todo, TodoListModel,
};

verus! {

/// The order after a press on the order button: newest first, then most urgent
/// first, then least urgent first, then newest first again.
pub open spec fn next_priority_sort(priority_sort: Option<bool>) -> Option<bool> {
    match priority_sort {
        None => Some(true),
        Some(true) => Some(false),
        Some(false) => None,
    }
}

/// The position of the first text that equals `text`, or the number of texts where
/// none does.
pub open spec fn text_position(texts: Seq<Seq<char>>, text: Seq<char>) -> int
    decreases texts.len(),
{
    if texts.len() == 0 {
        0
    } else if texts[0] == text {
        0
    } else {
        1 + text_position(texts.drop_first(), text)
    }
}

/// Where the first `n` texts differ from `text`, the first text that equals it is at
/// `n` if the text there does, and `n` is the number of texts otherwise.
pub proof fn lemma_text_position(texts: Seq<Seq<char>>, text: Seq<char>, n: int)
    requires
        0 <= n <= texts.len(),
        forall|k: int| 0 <= k < n ==> texts[k] != text,
        n < texts.len() ==> texts[n] == text,
    ensures
        text_position(texts, text) == n,
    decreases n,
{
    if n > 0 {
        lemma_text_position(texts.drop_first(), text, n - 1);
    }
}

/// A text is among the texts exactly if its position lies within them.
pub proof fn lemma_text_position_contains(texts: Seq<Seq<char>>, text: Seq<char>)
    ensures
        0 <= text_position(texts, text) <= texts.len(),
        texts.contains(text) <==> text_position(texts, text) < texts.len(),
        text_position(texts, text) < texts.len() ==> texts[text_position(texts, text)] == text,
    decreases texts.len(),
{
    if texts.len() > 0 && texts[0] != text {
        let rest = texts.drop_first();
        lemma_text_position_contains(rest, text);
        if texts.contains(text) {
            let k = choose|k: int| 0 <= k < texts.len() && texts[k] == text;
            assert(rest[k - 1] == text);
        }
        if rest.contains(text) {
            let k = choose|k: int| 0 <= k < rest.len() && rest[k] == text;
            assert(texts[k + 1] == text);
        }
    } else if texts.len() > 0 {
        assert(texts[0] == text);
    }
}

/// What a description shows as in the list: one of more than 50 characters is cut to
/// 47 and marked.
pub open spec fn preview_of(description: Seq<char>) -> Seq<char> {
    if description.len() > 50 {
        truncated(description, 47)
    } else {
        description
    }
}

/// Returns what a description shows as in the list.
pub fn description_preview(description: &str) -> (preview: String)
    ensures
        preview@ == preview_of(description@),
{
    let chars = to_chars(description);
    if chars.len() > 50 {
        truncate_string(description, 47)
    } else {
        description.to_owned()
    }
}

/// Returns the position of the first text that equals `text`, or the number of texts
/// where none does.
pub fn find_text(texts: &Vec<String>, text: &str) -> (position: usize)
    ensures
        position == text_position(texts.deep_view(), text@),
        position <= texts.len(),
{
    let mut i: usize = 0;
    while i < texts.len()
        invariant
            i <= texts.len(),
            forall|k: int| 0 <= k < i ==> texts.deep_view()[k] != text@,
        decreases texts.len() - i,
    {
        if same_text(texts[i].as_str(), text) {
            proof {
                lemma_text_position(texts.deep_view(), text@, i as int);
            }
            return i;
        }
        i = i + 1;
    }
    proof {
        lemma_text_position(texts.deep_view(), text@, i as int);
    }
    i
}

/// A task with its state set at the time `now`, as the list view does it.
pub open spec fn todos_with_state(
    todos: Seq<TodoModel>,
    id: Seq<char>,
    completed: bool,
    now: Timestamp,
) -> Seq<TodoModel> {
    let position = position_of(todos, id);
    if position < todos.len() {
        todos.update(position, todos[position].with_completed(completed, now))
    } else {
        todos
    }
}

/// The task that the form files as a new one: the task of the form under a new
/// identifier, created at the time `now`.
pub open spec fn filed_as_new(form: TodoModel, id: Seq<char>, now: Timestamp) -> TodoModel {
    TodoModel { id, created_at: now, ..form }
}

/// The task that the form puts in the place of an existing one: the task of the form
/// with the identifier and the creation time of the existing task. Where the state
/// did not change, the record of the completion stays; a task that the form reopened
/// loses it.
pub open spec fn filed_as_update(form: TodoModel, existing: TodoModel) -> TodoModel {
    TodoModel {
        id: existing.id,
        created_at: existing.created_at,
        completed_at: if form.completed == existing.completed {
            existing.completed_at
        } else if form.completed {
            form.completed_at
        } else {
            None
        },
        ..form
    }
}

/// The tasks after the form was saved: without a task being edited, the task of the
/// form joins as a new one; otherwise it takes the place of the task being edited, if
/// that task is there.
pub open spec fn todos_after_save(
    todos: Seq<TodoModel>,
    form: TodoModel,
    editing: Option<Seq<char>>,
    id: Seq<char>,
    now: Timestamp,
) -> Seq<TodoModel> {
    match editing {
        None => with_todo(todos, filed_as_new(form, id, now)),
        Some(edited) => {
            let position = position_of(todos, edited);
            if position < todos.len() {
                todos.update(position, filed_as_update(form, todos[position]))
            } else {
                todos
            }
        },
    }
}

/// Setting the state of a task keeps the identifiers of the tasks different.
pub proof fn lemma_todos_with_state_keeps_ids_distinct(
    todos: Seq<TodoModel>,
    id: Seq<char>,
    completed: bool,
    now: Timestamp,
)
    requires
        distinct_ids(todos),
    ensures
        distinct_ids(todos_with_state(todos, id, completed, now)),
{
    lemma_position_is_first(todos, id);
}

/// Saving the form keeps the identifiers of the tasks different.
pub proof fn lemma_todos_after_save_keeps_ids_distinct(
    todos: Seq<TodoModel>,
    form: TodoModel,
    editing: Option<Seq<char>>,
    id: Seq<char>,
    now: Timestamp,
)
    requires
        distinct_ids(todos),
    ensures
        distinct_ids(todos_after_save(todos, form, editing, id, now)),
{
    match editing {
        None => {
            lemma_with_todo_keeps_ids_distinct(todos, filed_as_new(form, id, now));
        },
        Some(edited) => {
            lemma_position_is_first(todos, edited);
        },
    }
}

/// The texts that are not among `taken`, in their order.
pub open spec fn not_taken(texts: Seq<Seq<char>>, taken: Seq<Seq<char>>) -> Seq<Seq<char>>
    decreases texts.len(),
{
    if texts.len() == 0 {
        Seq::empty()
    } else if taken.contains(texts.last()) {
        not_taken(texts.drop_last(), taken)
    } else {
        not_taken(texts.drop_last(), taken).push(texts.last())
    }
}

/// Leaving texts out keeps what is left as it was: the texts that stay are those
/// that are not taken, they stay in ascending order, and none comes to stand twice.
pub proof fn lemma_not_taken(texts: Seq<Seq<char>>, taken: Seq<Seq<char>>)
    ensures
        forall|text: Seq<char>|
            not_taken(texts, taken).contains(text) <==> (texts.contains(text) && !taken.contains(
                text,
            )),
        ascending(texts) ==> ascending(not_taken(texts, taken)),
        texts.no_duplicates() ==> not_taken(texts, taken).no_duplicates(),
    decreases texts.len(),
{
    let kept = not_taken(texts, taken);
    if texts.len() > 0 {
        let front = texts.drop_last();
        let last = texts.last();
        let before = not_taken(front, taken);
        lemma_not_taken(front, taken);
        assert(texts == front.push(last));
        assert forall|text: Seq<char>|
            kept.contains(text) <==> (texts.contains(text) && !taken.contains(text)) by {
            crate::todo_list::lemma_push_contains(front, last, text);
            crate::todo_list::lemma_push_contains(before, last, text);
        }
        if ascending(texts) {
            assert(ascending(front));
            assert forall|i: int, j: int| 0 <= i < j < kept.len() implies text_le(
                kept[i],
                kept[j],
            ) by {
                if j == before.len() {
                    assert(before[i] == kept[i]);
                    assert(before.contains(kept[i]));
                    assert(front.contains(kept[i]));
                    let k = choose|k: int| 0 <= k < front.len() && front[k] == kept[i];
                    assert(texts[k] == front[k]);
                    assert(text_le(texts[k], texts[texts.len() - 1]));
                } else {
                    assert(kept[i] == before[i] && kept[j] == before[j]);
                }
            }
        }
        if texts.no_duplicates() {
            assert(front.no_duplicates());
            assert forall|i: int, j: int| 0 <= i < j < kept.len() implies kept[i] != kept[j] by {
                if j == before.len() {
                    assert(before[i] == kept[i]);
                    assert(before.contains(kept[i]));
                    assert(front.contains(kept[i]));
                    let k = choose|k: int| 0 <= k < front.len() && front[k] == kept[i];
                    assert(texts[k] == front[k]);
                    assert(texts[k] != texts[texts.len() - 1]);
                } else {
                    assert(kept[i] == before[i] && kept[j] == before[j]);
                }
            }
        }
    }
}

/// What is left to do outside the state once a confirmation was carried out.
#[derive(Clone, Debug, PartialEq, Eq)]
pub enum ConfirmEffect {
    /// Nothing is left to do.
    Done,
    /// Put the default theme in place, and save it.
    ResetTheme,
    /// Put the application back into its first state.
    ResetApp,
    /// Load the tasks of the file at this path in the place of the list.
    Import(String),
    /// Merge the tasks of the file at this path into the list.
    Merge(String),
}

/// The mathematical value of a `ConfirmEffect`.
pub enum EffectModel {
    Done,
    ResetTheme,
    ResetApp,
    Import(Seq<char>),
    Merge(Seq<char>),
}

impl vstd::view::View for ConfirmEffect {
    type V = EffectModel;

    open spec fn view(&self) -> EffectModel {
        match self {
            ConfirmEffect::Done => EffectModel::Done,
            ConfirmEffect::ResetTheme => EffectModel::ResetTheme,
            ConfirmEffect::ResetApp => EffectModel::ResetApp,
            ConfirmEffect::Import(path) => EffectModel::Import(path@),
            ConfirmEffect::Merge(path) => EffectModel::Merge(path@),
        }
    }
}

/// What the message of an import dialog asks for: a message that speaks of
/// overwriting asks for an import, one that speaks of merging or of new tasks for a
/// merge, any other for nothing.
pub open spec fn import_effect(message: Seq<char>, path: Seq<char>) -> EffectModel {
    if has_part(message, "覆盖"@) {
        EffectModel::Import(path)
    } else if has_part(message, "合并"@) || has_part(message, "新任务"@) {
        EffectModel::Merge(path)
    } else {
        EffectModel::Done
    }
}

/// What is left to do outside the state once the pending action of a dialog was
/// agreed to.
pub open spec fn effect_of(app: AppModel) -> EffectModel {
    match app.confirmation_action {
        Some(ConfirmationModel::ResetSettings) => EffectModel::ResetTheme,
        Some(ConfirmationModel::ResetApp) => EffectModel::ResetApp,
        Some(ConfirmationModel::ImportTodos) => if app.temp_input.len() > 0 {
            import_effect(app.confirmation_message, app.temp_input)
        } else {
            EffectModel::Done
        },
        _ => EffectModel::Done,
    }
}

/// The state after the pending action of a dialog was agreed to: a task, the
/// completed tasks or a tag is deleted; the path of an import leaves the input; the
/// dialog is closed.
pub open spec fn confirmed(app: AppModel) -> AppModel {
    let carried_out = match app.confirmation_action {
        Some(ConfirmationModel::DeleteTodo(id)) => app.todo_deleted(id),
        Some(ConfirmationModel::DeleteAllCompleted) => app.completed_deleted(),
        Some(ConfirmationModel::DeleteTag(tag)) => if tag.len() > 0 {
            app.tag_deleted(tag)
        } else {
            app
        },
        Some(ConfirmationModel::ImportTodos) => AppModel { temp_input: Seq::empty(), ..app },
        _ => app,
    };
    AppModel { confirmation_action: None, show_confirmation: false, ..carried_out }
}

/// An open step.
pub open spec fn open_step(id: Seq<char>, title: Seq<char>) -> SubTaskModel {
    SubTaskModel { id, title, completed: false }
}

/// Whether the steps are the earlier steps and one more open step with the title.
pub open spec fn with_new_step(
    earlier: Seq<SubTaskModel>,
    steps: Seq<SubTaskModel>,
    title: Seq<char>,
) -> bool {
    exists|id: Seq<char>| steps == earlier.push(#[trigger] open_step(id, title))
}

/// The position of the task that is being edited, or the number of tasks where no
/// task is being edited or the task is not there.
pub open spec fn edited_position(app: AppModel) -> int {
    match app.editing_todo_id {
        Some(id) => position_of(app.todo_list.todos, id),
        None => app.todo_list.todos.len() as int,
    }
}

/// The identifier of a task that the form files: `todo-` and a random part.
pub open spec fn form_id(random: Seq<char>) -> Seq<char> {
    "todo-"@ + random
}

impl RodoApp {
    /// Moves the order of the list on by one step.
    pub fn cycle_priority_sort(&mut self)
        ensures
            final(self)@ == (AppModel {
                todo_list: TodoListModel {
                    priority_sort: next_priority_sort(old(self)@.todo_list.priority_sort),
                    ..old(self)@.todo_list
                },
                modified: true,
                ..old(self)@
            }),
    {
        self.todo_list.priority_sort = match self.todo_list.priority_sort {
            None => Some(true),
            Some(true) => Some(false),
            Some(false) => None,
        };
        self.modified = true;
    }

    /// Switches between showing and leaving out completed tasks.
    pub fn toggle_filter_completed(&mut self)
        ensures
            final(self)@ == (AppModel {
                todo_list: TodoListModel {
                    filter_completed: !old(self)@.todo_list.filter_completed,
                    ..old(self)@.todo_list
                },
                modified: true,
                ..old(self)@
            }),
    {
        self.todo_list.filter_completed = !self.todo_list.filter_completed;
        self.modified = true;
    }

    /// Makes a tag active, unless it is active already; then nothing changes.
    pub fn activate_tag(&mut self, tag: &str)
        ensures
            old(self)@.todo_list.active_tags.contains(tag@) ==> final(self)@ == old(self)@,
            !old(self)@.todo_list.active_tags.contains(tag@) ==> final(self)@ == (AppModel {
                todo_list: TodoListModel {
                    active_tags: old(self)@.todo_list.active_tags.push(tag@),
                    ..old(self)@.todo_list
                },
                modified: true,
                ..old(self)@
            }),
    {
        if !contains_text(&self.todo_list.active_tags, tag) {
            let ghost before = self.todo_list.active_tags.deep_view();
            self.todo_list.active_tags.push(tag.to_owned());
            assert(self.todo_list.active_tags.deep_view() == before.push(tag@));
            self.modified = true;
        }
    }

    /// Takes the active tag at a position out; a position behind the last tag
    /// changes nothing.
    pub fn deactivate_tag(&mut self, index: usize)
        ensures
            index >= old(self)@.todo_list.active_tags.len() ==> final(self)@ == old(self)@,
            index < old(self)@.todo_list.active_tags.len() ==> final(self)@ == (AppModel {
                todo_list: TodoListModel {
                    active_tags: old(self)@.todo_list.active_tags.remove(index as int),
                    ..old(self)@.todo_list
                },
                modified: true,
                ..old(self)@
            }),
    {
        if index < self.todo_list.active_tags.len() {
            let ghost before = self.todo_list.active_tags.deep_view();
            self.todo_list.active_tags.remove(index);
            assert(self.todo_list.active_tags.deep_view() == before.remove(index as int));
            self.modified = true;
        }
    }

    /// Makes a tag active, or takes it out of the active tags where it is among
    /// them.
    pub fn toggle_active_tag(&mut self, tag: &str)
        ensures
            final(self)@ == (AppModel {
                todo_list: TodoListModel {
                    active_tags: if old(self)@.todo_list.active_tags.contains(tag@) {
                        old(self)@.todo_list.active_tags.remove(
                            text_position(old(self)@.todo_list.active_tags, tag@),
                        )
                    } else {
                        old(self)@.todo_list.active_tags.push(tag@)
                    },
                    ..old(self)@.todo_list
                },
                modified: true,
                ..old(self)@
            }),
    {
        proof {
            lemma_text_position_contains(self.todo_list.active_tags.deep_view(), tag@);
        }
        let ghost before = self.todo_list.active_tags.deep_view();
        let position = find_text(&self.todo_list.active_tags, tag);
        if position < self.todo_list.active_tags.len() {
            self.todo_list.active_tags.remove(position);
            assert(self.todo_list.active_tags.deep_view() == before.remove(position as int));
        } else {
            self.todo_list.active_tags.push(tag.to_owned());
            assert(self.todo_list.active_tags.deep_view() == before.push(tag@));
        }
        self.modified = true;
    }

    /// Sets the state of the task with the identifier at the time `now`. Without such
    /// a task nothing changes.
    pub fn set_todo_completed_at(&mut self, id: &str, completed: bool, now: Timestamp)
        ensures
            position_of(old(self)@.todo_list.todos, id@) >= old(self)@.todo_list.todos.len()
                ==> final(self)@ == old(self)@,
            position_of(old(self)@.todo_list.todos, id@) < old(self)@.todo_list.todos.len()
                ==> final(self)@ == (AppModel {
                todo_list: TodoListModel {
                    todos: todos_with_state(old(self)@.todo_list.todos, id@, completed, now),
                    ..old(self)@.todo_list
                },
                modified: true,
                ..old(self)@
            }),
    {
        let position = self.todo_list.find(id);
        if position < self.todo_list.todos.len() {
            let ghost before = self.todo_list.todos.deep_view();
            let mut todo = self.todo_list.todos[position].duplicate();
            todo.set_completed_at(completed, now);
            self.todo_list.todos.set(position, todo);
            assert(self.todo_list.todos.deep_view() == before.update(position as int, todo@));
            self.modified = true;
        }
    }

    /// Sets the state of the task with the identifier, at the current time.
    pub fn set_todo_completed(&mut self, id: &str, completed: bool)
        ensures
            position_of(old(self)@.todo_list.todos, id@) >= old(self)@.todo_list.todos.len()
                ==> final(self)@ == old(self)@,
            position_of(old(self)@.todo_list.todos, id@) < old(self)@.todo_list.todos.len()
                ==> exists|now: Timestamp|
                final(self)@ == (AppModel {
                    todo_list: TodoListModel {
                        todos: #[trigger] todos_with_state(
                            old(self)@.todo_list.todos,
                            id@,
                            completed,
                            now,
                        ),
                        ..old(self)@.todo_list
                    },
                    modified: true,
                    ..old(self)@
                }),
    {
        let now = current_time();
        self.set_todo_completed_at(id, completed, now);
    }

    /// Tells whether the task of the form has a title that is not blank, so that it
    /// can be saved.
    pub fn can_save_form(&self) -> (ready: bool)
        ensures
            ready == (trimmed(self@.new_todo.title).len() > 0),
    {
        !trim(self.new_todo.title.as_str()).is_empty()
    }

    /// Tells whether the tag input holds a tag that the task of the form can take:
    /// one that is not blank and that the task does not carry yet.
    pub fn can_add_form_tag(&self) -> (ready: bool)
        ensures
            ready == (trimmed(self@.temp_tag_input).len() > 0 && !self@.new_todo.tags.contains(
                trimmed(self@.temp_tag_input),
            )),
    {
        let tag = trim(self.temp_tag_input.as_str());
        !tag.is_empty() && !contains_text(&self.new_todo.tags, tag)
    }

    /// Adds the tag of the tag input to the task of the form and empties the input.
    /// A blank input, and a tag that the task carries already, changes nothing.
    pub fn add_form_tag(&mut self)
        ensures
            ({
                let tag = trimmed(old(self)@.temp_tag_input);
                if tag.len() == 0 || old(self)@.new_todo.tags.contains(tag) {
                    final(self)@ == old(self)@
                } else {
                    final(self)@ == (AppModel {
                        new_todo: TodoModel {
                            tags: old(self)@.new_todo.tags.push(tag),
                            ..old(self)@.new_todo
                        },
                        temp_tag_input: Seq::empty(),
                        modified: true,
                        ..old(self)@
                    })
                }
            }),
    {
        let tag = trim(self.temp_tag_input.as_str()).to_owned();
        if !tag.as_str().is_empty() && !contains_text(&self.new_todo.tags, tag.as_str()) {
            let ghost before = self.new_todo.tags.deep_view();
            self.new_todo.tags.push(tag);
            assert(self.new_todo.tags.deep_view() == before.push(tag@));
            self.temp_tag_input = String::new();
            self.modified = true;
        }
    }

    /// Adds a known tag to the task of the form, unless the task carries it already.
    pub fn pick_form_tag(&mut self, tag: &str)
        ensures
            old(self)@.new_todo.tags.contains(tag@) ==> final(self)@ == old(self)@,
            !old(self)@.new_todo.tags.contains(tag@) ==> final(self)@ == (AppModel {
                new_todo: TodoModel {
                    tags: old(self)@.new_todo.tags.push(tag@),
                    ..old(self)@.new_todo
                },
                modified: true,
                ..old(self)@
            }),
    {
        if !contains_text(&self.new_todo.tags, tag) {
            let ghost before = self.new_todo.tags.deep_view();
            self.new_todo.tags.push(tag.to_owned());
            assert(self.new_todo.tags.deep_view() == before.push(tag@));
            self.modified = true;
        }
    }

    /// Returns the tags that the tasks of the list carry and `taken` does not hold,
    /// each once, in ascending order.
    pub fn available_tags(&self, taken: &Vec<String>) -> (tags: Vec<String>)
        ensures
            ascending(tags.deep_view()),
            tags.deep_view().no_duplicates(),
            forall|tag: Seq<char>|
                tags.deep_view().contains(tag) <==> (is_tag_of(self@.todo_list.todos, tag)
                    && !taken.deep_view().contains(tag)),
    {
        let all = self.todo_list.all_tags();
        let mut tags: Vec<String> = Vec::new();
        let mut i: usize = 0;
        assert(all.deep_view().take(0) == Seq::<Seq<char>>::empty());
        while i < all.len()
            invariant
                i <= all.len(),
                tags.deep_view() == not_taken(all.deep_view().take(i as int), taken.deep_view()),
            decreases all.len() - i,
        {
            let ghost before = tags.deep_view();
            proof {
                let next = all.deep_view().take(i + 1);
                assert(next.drop_last() == all.deep_view().take(i as int));
                assert(next.last() == all[i as int]@);
            }
            if !contains_text(taken, all[i].as_str()) {
                tags.push(all[i].clone());
                assert(tags.deep_view() == before.push(all[i as int]@));
            }
            i = i + 1;
        }
        proof {
            assert(all.deep_view().take(i as int) == all.deep_view());
            lemma_not_taken(all.deep_view(), taken.deep_view());
            assert forall|tag: Seq<char>|
                tags.deep_view().contains(tag) <==> (is_tag_of(self@.todo_list.todos, tag)
                    && !taken.deep_view().contains(tag)) by {
                assert(all.deep_view().contains(tag) <==> is_tag_of(self@.todo_list.todos, tag));
            }
        }
        tags
    }

    /// Tells whether the tag input holds a new tag: one that is not blank and that no
    /// task carries.
    pub fn can_add_new_tag(&self) -> (ready: bool)
        ensures
            ready == (trimmed(self@.temp_tag_input).len() > 0 && !is_tag_of(
                self@.todo_list.todos,
                trimmed(self@.temp_tag_input),
            )),
    {
        let tag = trim(self.temp_tag_input.as_str());
        if tag.is_empty() {
            return false;
        }
        let all = self.todo_list.all_tags();
        !contains_text(&all, tag)
    }

    /// Tells whether the input holds the title of a step: one that is not blank.
    pub fn has_step_input(&self) -> (ready: bool)
        ensures
            ready == (trimmed(self@.temp_input).len() > 0),
    {
        !trim(self.temp_input.as_str()).is_empty()
    }

    /// Adds the step of the input to the task of the form and empties the input. A
    /// blank input changes nothing.
    pub fn add_form_subtask(&mut self)
        ensures
            ({
                let title = trimmed(old(self)@.temp_input);
                if title.len() == 0 {
                    final(self)@ == old(self)@
                } else {
                    &&& with_new_step(
                        old(self)@.new_todo.subtasks,
                        final(self)@.new_todo.subtasks,
                        title,
                    )
                    &&& final(self)@ == (AppModel {
                        new_todo: TodoModel {
                            subtasks: final(self)@.new_todo.subtasks,
                            ..old(self)@.new_todo
                        },
                        temp_input: Seq::empty(),
                        modified: true,
                        ..old(self)@
                    })
                }
            }),
    {
        let title = trim(self.temp_input.as_str()).to_owned();
        if !title.as_str().is_empty() {
            let ghost before = self.new_todo.subtasks.deep_view();
            let step = SubTask::new(title);
            self.new_todo.subtasks.push(step);
            assert(self.new_todo.subtasks.deep_view() == before.push(step@));
            assert(step@ == open_step(step@.id, title@));
            self.temp_input = String::new();
            self.modified = true;
        }
    }

    /// Returns the position of the task that is being edited, or the number of tasks
    /// where no task is being edited or the task is not there.
    pub fn find_edited(&self) -> (position: usize)
        ensures
            position == edited_position(self@),
            position <= self.todo_list.todos.len(),
    {
        match &self.editing_todo_id {
            Some(id) => self.todo_list.find(id.as_str()),
            None => self.todo_list.todos.len(),
        }
    }

    /// Adds the tag of the tag input to the task that is being edited and empties the
    /// input. A blank input changes nothing, nor does an input without such a task.
    pub fn add_edited_tag(&mut self)
        ensures
            ({
                let tag = trimmed(old(self)@.temp_tag_input);
                let position = edited_position(old(self)@);
                let todos = old(self)@.todo_list.todos;
                if tag.len() == 0 || position >= todos.len() {
                    final(self)@ == old(self)@
                } else {
                    final(self)@ == (AppModel {
                        todo_list: TodoListModel {
                            todos: todos.update(
                                position,
                                TodoModel {
                                    tags: todos[position].tags.push(tag),
                                    ..todos[position]
                                },
                            ),
                            ..old(self)@.todo_list
                        },
                        temp_tag_input: Seq::empty(),
                        modified: true,
                        ..old(self)@
                    })
                }
            }),
    {
        let tag = trim(self.temp_tag_input.as_str()).to_owned();
        let position = self.find_edited();
        if !tag.as_str().is_empty() && position < self.todo_list.todos.len() {
            let ghost before = self.todo_list.todos.deep_view();
            let mut todo = self.todo_list.todos[position].duplicate();
            let ghost tags = todo.tags.deep_view();
            todo.tags.push(tag);
            assert(todo.tags.deep_view() == tags.push(tag@));
            self.todo_list.todos.set(position, todo);
            assert(self.todo_list.todos.deep_view() == before.update(position as int, todo@));
            self.temp_tag_input = String::new();
            self.modified = true;
        }
    }

    /// Adds the step of the input to the task that is being edited and empties the
    /// input. A blank input changes nothing, nor does an input without such a task.
    pub fn add_edited_subtask(&mut self)
        ensures
            ({
                let title = trimmed(old(self)@.temp_input);
                let position = edited_position(old(self)@);
                let todos = old(self)@.todo_list.todos;
                if title.len() == 0 || position >= todos.len() {
                    final(self)@ == old(self)@
                } else {
                    &&& final(self)@.todo_list.todos.len() == todos.len()
                    &&& with_new_step(
                        todos[position].subtasks,
                        final(self)@.todo_list.todos[position].subtasks,
                        title,
                    )
                    &&& final(self)@ == (AppModel {
                        todo_list: TodoListModel {
                            todos: todos.update(
                                position,
                                TodoModel {
                                    subtasks: final(self)@.todo_list.todos[position].subtasks,
                                    ..todos[position]
                                },
                            ),
                            ..old(self)@.todo_list
                        },
                        temp_input: Seq::empty(),
                        modified: true,
                        ..old(self)@
                    })
                }
            }),
    {
        let title = trim(self.temp_input.as_str()).to_owned();
        let position = self.find_edited();
        if !title.as_str().is_empty() && position < self.todo_list.todos.len() {
            let ghost before = self.todo_list.todos.deep_view();
            let mut todo = self.todo_list.todos[position].duplicate();
            let ghost steps = todo.subtasks.deep_view();
            let step = SubTask::new(title);
            todo.subtasks.push(step);
            assert(todo.subtasks.deep_view() == steps.push(step@));
            assert(step@ == open_step(step@.id, title@));
            self.todo_list.todos.set(position, todo);
            assert(self.todo_list.todos.deep_view() == before.update(position as int, todo@));
            self.temp_input = String::new();
            self.modified = true;
        }
    }

    /// Leaves the form without filing anything: back to the list, `next` as the task
    /// of the form, the inputs empty, nothing being edited.
    pub fn cancel_form_with(&mut self, next: Todo)
        ensures
            final(self)@ == (AppModel {
                view: View::List,
                new_todo: next@,
                temp_tag_input: Seq::empty(),
                temp_input: Seq::empty(),
                editing_todo_id: None,
                ..old(self)@
            }),
    {
        self.view = View::List;
        self.new_todo = next;
        self.temp_tag_input = String::new();
        self.temp_input = String::new();
        self.editing_todo_id = None;
    }

    /// Saves the form. Without a task being edited, the task of the form joins the
    /// list under the identifier `id`, created at `now`; otherwise it takes the place
    /// of the task being edited and keeps that task's identifier and creation time.
    /// Then the application goes back to the list with `next` as the task of the
    /// form.
    pub fn save_form_with(&mut self, id: String, now: Timestamp, next: Todo)
        ensures
            final(self)@ == (AppModel {
                todo_list: TodoListModel {
                    todos: todos_after_save(
                        old(self)@.todo_list.todos,
                        old(self)@.new_todo,
                        old(self)@.editing_todo_id,
                        id@,
                        now,
                    ),
                    ..old(self)@.todo_list
                },
                view: View::List,
                new_todo: next@,
                temp_tag_input: Seq::empty(),
                temp_input: Seq::empty(),
                editing_todo_id: None,
                modified: true,
                ..old(self)@
            }),
    {
        let mut todo = next;
        std::mem::swap(&mut todo, &mut self.new_todo);
        let mut editing: Option<String> = None;
        std::mem::swap(&mut editing, &mut self.editing_todo_id);
        match editing {
            None => {
                todo.id = id;
                todo.created_at = now;
                self.todo_list.add_todo(todo);
            },
            Some(edited) => {
                let position = self.todo_list.find(edited.as_str());
                if position < self.todo_list.todos.len() {
                    let ghost before = self.todo_list.todos.deep_view();
                    let existing = &self.todo_list.todos[position];
                    todo.id = existing.id.clone();
                    todo.created_at = existing.created_at;
                    if todo.completed == existing.completed {
                        todo.completed_at = existing.completed_at;
                    } else if !todo.completed {
                        todo.completed_at = None;
                    }
                    self.todo_list.todos.set(position, todo);
                    assert(self.todo_list.todos.deep_view() == before.update(
                        position as int,
                        todo@,
                    ));
                }
            },
        }
        self.view = View::List;
        self.temp_tag_input = String::new();
        self.temp_input = String::new();
        self.modified = true;
    }

    /// Saves the form; a task that joins the list gets a fresh identifier and the
    /// current time, and the form starts over with a new task.
    pub fn save_form(&mut self)
        ensures
            exists|random: Seq<char>, now: Timestamp|
                final(self)@ == (AppModel {
                    todo_list: TodoListModel {
                        todos: #[trigger] todos_after_save(
                            old(self)@.todo_list.todos,
                            old(self)@.new_todo,
                            old(self)@.editing_todo_id,
                            form_id(random),
                            now,
                        ),
                        ..old(self)@.todo_list
                    },
                    view: View::List,
                    new_todo: final(self)@.new_todo,
                    temp_tag_input: Seq::empty(),
                    temp_input: Seq::empty(),
                    editing_todo_id: None,
                    modified: true,
                    ..old(self)@
                }),
    {
        let mut id = "todo-".to_owned();
        let random_part = fresh_id();
        id.append(random_part.as_str());
        assert(id@ == form_id(random_part@));
        let now = current_time();
        self.save_form_with(id, now, Todo::new(String::new()));
    }

    /// Shows the markdown files of a directory that was opened: the files are listed,
    /// and no file is open.
    pub fn open_directory(&mut self, directory: String, files: Vec<String>)
        ensures
            final(self)@ == (AppModel {
                markdown_files: files.deep_view(),
                current_markdown_directory: Some(directory@),
                current_markdown_path: None,
                markdown_content: Seq::empty(),
                ..old(self)@
            }),
    {
        self.markdown_files = files;
        self.current_markdown_directory = Some(directory);
        self.current_markdown_path = None;
        self.markdown_content = String::new();
    }

    /// Shows a markdown file that was read.
    pub fn open_file(&mut self, path: String, content: String)
        ensures
            final(self)@ == (AppModel {
                markdown_content: content@,
                current_markdown_path: Some(path@),
                ..old(self)@
            }),
    {
        self.markdown_content = content;
        self.current_markdown_path = Some(path);
    }

    /// Carries out the pending action of the confirmation dialog and closes the
    /// dialog. What the state alone cannot do is handed back.
    pub fn confirm(&mut self) -> (effect: ConfirmEffect)
        ensures
            final(self)@ == confirmed(old(self)@),
            effect@ == effect_of(old(self)@),
    {
        let mut action: Option<ConfirmationAction> = None;
        std::mem::swap(&mut action, &mut self.confirmation_action);
        self.show_confirmation = false;
        match action {
            Some(ConfirmationAction::DeleteTodo(id)) => {
                self.delete_todo(id.as_str());
                ConfirmEffect::Done
            },
            Some(ConfirmationAction::DeleteAllCompleted) => {
                self.delete_all_completed();
                ConfirmEffect::Done
            },
            Some(ConfirmationAction::ResetSettings) => ConfirmEffect::ResetTheme,
            Some(ConfirmationAction::ResetApp) => ConfirmEffect::ResetApp,
            Some(ConfirmationAction::DeleteThemePreset(_)) => ConfirmEffect::Done,
            Some(ConfirmationAction::ImportTodos) => {
                let mut path = String::new();
                std::mem::swap(&mut path, &mut self.temp_input);
                if path.as_str().is_empty() {
                    ConfirmEffect::Done
                } else if contains_part(self.confirmation_message.as_str(), "覆盖") {
                    ConfirmEffect::Import(path)
                } else if contains_part(self.confirmation_message.as_str(), "合并")
                    || contains_part(self.confirmation_message.as_str(), "新任务") {
                    ConfirmEffect::Merge(path)
                } else {
                    ConfirmEffect::Done
                }
            },
            Some(ConfirmationAction::DeleteTag(tag)) => {
                if !tag.as_str().is_empty() {
                    self.delete_tag(tag.as_str());
                }
                ConfirmEffect::Done
            },
            None => ConfirmEffect::Done,
        }
    }

    /// Closes the confirmation dialog without carrying anything out.
    pub fn cancel_confirmation(&mut self)
        ensures
            final(self)@ == (AppModel {
                show_confirmation: false,
                confirmation_action: None,
                ..old(self)@
            }),
    {
        self.show_confirmation = false;
        self.confirmation_action = None;
    }
}

} // verus!
