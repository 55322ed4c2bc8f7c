use vstd::prelude::*;
use vstd::view::View as _;
use crate::text::{same_text, trim, trimmed};
use crate::theme::{Theme, ThemeType};
use crate::time::Timestamp;
use crate::todo::{Emoji, EmojiModel, Priority, SubTask, Todo, TodoModel};
use crate::todo_list::{
    distinct_ids, lemma_position_is_first, position_of, with_todo, without_todo, TodoList,
    TodoListModel,
};

verus! {

/// The screens of the application.
#[derive(Clone, Copy, Debug, PartialEq, Eq, Structural)]
pub enum View {
    /// The list of tasks.
    List,
    /// The form for a new task.
    AddTodo,
    /// The form for an existing task.
    EditTodo,
    /// The settings.
    Settings,
    /// The statistics.
    Stats,
    /// The tag manager.
    Tags,
    /// The about page.
    About,
    /// The markdown viewer.
    MarkdownViewer,
}

/// What a confirmation dialog carries out once the user agrees.
#[derive(Clone, Debug, PartialEq)]
pub enum ConfirmationAction {
    DeleteTodo(String),
    DeleteAllCompleted,
    ResetSettings,
    ImportTodos,
    DeleteTag(String),
    ResetApp,
    DeleteThemePreset(String),
}

/// The mathematical value of a `ConfirmationAction`.
pub enum ConfirmationModel {
    DeleteTodo(Seq<char>),
    DeleteAllCompleted,
    ResetSettings,
    ImportTodos,
    DeleteTag(Seq<char>),
    ResetApp,
    DeleteThemePreset(Seq<char>),
}

impl vstd::view::View for ConfirmationAction {
    type V = ConfirmationModel;

    open spec fn view(&self) -> ConfirmationModel {
        match self {
            ConfirmationAction::DeleteTodo(id) => ConfirmationModel::DeleteTodo(id@),
            ConfirmationAction::DeleteAllCompleted => ConfirmationModel::DeleteAllCompleted,
            ConfirmationAction::ResetSettings => ConfirmationModel::ResetSettings,
            ConfirmationAction::ImportTodos => ConfirmationModel::ImportTodos,
            ConfirmationAction::DeleteTag(tag) => ConfirmationModel::DeleteTag(tag@),
            ConfirmationAction::ResetApp => ConfirmationModel::ResetApp,
            ConfirmationAction::DeleteThemePreset(name) => ConfirmationModel::DeleteThemePreset(
                name@,
            ),
        }
    }
}

impl DeepView for ConfirmationAction {
    type V = ConfirmationModel;

    open spec fn deep_view(&self) -> ConfirmationModel {
        self@
    }
}

/// The state of the application.
#[derive(Clone, Debug, PartialEq)]
pub struct RodoApp {
    /// The screen that is shown.
    pub view: View,
    pub todo_list: TodoList,
    pub theme: Theme,
    /// The identifier of the task that is being edited.
    pub editing_todo_id: Option<String>,
    /// The task that the form for a new task fills in.
    pub new_todo: Todo,
    pub temp_input: String,
    pub temp_tag_input: String,
    /// Whether the tasks changed since they were last saved.
    pub modified: bool,
    pub show_confirmation: bool,
    pub confirmation_message: String,
    pub confirmation_action: Option<ConfirmationAction>,
    pub current_markdown_path: Option<String>,
    pub markdown_content: String,
    pub current_markdown_directory: Option<String>,
    pub markdown_files: Vec<String>,
}

/// The mathematical value of a `RodoApp`.
pub struct AppModel {
    pub view: View,
    pub todo_list: TodoListModel,
    pub theme: Theme,
    pub editing_todo_id: Option<Seq<char>>,
    pub new_todo: TodoModel,
    pub temp_input: Seq<char>,
    pub temp_tag_input: Seq<char>,
    pub modified: bool,
    pub show_confirmation: bool,
    pub confirmation_message: Seq<char>,
    pub confirmation_action: Option<ConfirmationModel>,
    pub current_markdown_path: Option<Seq<char>>,
    pub markdown_content: Seq<char>,
    pub current_markdown_directory: Option<Seq<char>>,
    pub markdown_files: Seq<Seq<char>>,
}

impl vstd::view::View for RodoApp {
    type V = AppModel;

    open spec fn view(&self) -> AppModel {
        AppModel {
            view: self.view,
            todo_list: self.todo_list@,
            theme: self.theme,
            editing_todo_id: self.editing_todo_id.deep_view(),
            new_todo: self.new_todo@,
            temp_input: self.temp_input@,
            temp_tag_input: self.temp_tag_input@,
            modified: self.modified,
            show_confirmation: self.show_confirmation,
            confirmation_message: self.confirmation_message@,
            confirmation_action: self.confirmation_action.deep_view(),
            current_markdown_path: self.current_markdown_path.deep_view(),
            markdown_content: self.markdown_content@,
            current_markdown_directory: self.current_markdown_directory.deep_view(),
            markdown_files: self.markdown_files.deep_view(),
        }
    }
}

/// The tasks that are not completed, in their order.
pub open spec fn open_todos(todos: Seq<TodoModel>) -> Seq<TodoModel>
    decreases todos.len(),
{
    if todos.len() == 0 {
        Seq::empty()
    } else if todos.last().completed {
        open_todos(todos.drop_last())
    } else {
        open_todos(todos.drop_last()).push(todos.last())
    }
}

/// The tasks after the imported ones were merged in, one after another: an imported
/// task joins at the end unless a task has its identifier already.
pub open spec fn merged(todos: Seq<TodoModel>, imported: Seq<TodoModel>) -> Seq<TodoModel>
    decreases imported.len(),
{
    if imported.len() == 0 {
        todos
    } else {
        let before = merged(todos, imported.drop_last());
        if position_of(before, imported.last().id) < before.len() {
            before
        } else {
            before.push(imported.last())
        }
    }
}

/// The texts without those that equal `text`, in their order.
pub open spec fn without_text(texts: Seq<Seq<char>>, text: Seq<char>) -> Seq<Seq<char>>
    decreases texts.len(),
{
    if texts.len() == 0 {
        Seq::empty()
    } else if texts.last() == text {
        without_text(texts.drop_last(), text)
    } else {
        without_text(texts.drop_last(), text).push(texts.last())
    }
}

/// The task without the tag.
pub open spec fn untagged(todo: TodoModel, tag: Seq<char>) -> TodoModel {
    TodoModel { tags: without_text(todo.tags, tag), ..todo }
}

/// The tasks, each without the tag.
pub open spec fn all_untagged(todos: Seq<TodoModel>, tag: Seq<char>) -> Seq<TodoModel> {
    Seq::new(todos.len(), |i: int| untagged(todos[i], tag))
}

impl AppModel {
    /// The state after the task with the identifier was deleted. Where that task
    /// was being edited, the application is back at the list.
    pub open spec fn todo_deleted(self, id: Seq<char>) -> AppModel {
        AppModel {
            todo_list: TodoListModel {
                todos: without_todo(self.todo_list.todos, id),
                ..self.todo_list
            },
            modified: true,
            editing_todo_id: if self.editing_todo_id == Some(id) {
                None
            } else {
                self.editing_todo_id
            },
            view: if self.editing_todo_id == Some(id) {
                View::List
            } else {
                self.view
            },
            ..self
        }
    }

    /// The state after every completed task was deleted.
    pub open spec fn completed_deleted(self) -> AppModel {
        AppModel {
            todo_list: TodoListModel { todos: open_todos(self.todo_list.todos), ..self.todo_list },
            modified: true,
            ..self
        }
    }

    /// The state after a tag was removed from every task and from the active tags.
    pub open spec fn tag_deleted(self, tag: Seq<char>) -> AppModel {
        AppModel {
            todo_list: TodoListModel {
                todos: all_untagged(self.todo_list.todos, tag),
                active_tags: without_text(self.todo_list.active_tags, tag),
                ..self.todo_list
            },
            modified: true,
            ..self
        }
    }
}

/// What a sample task is made of.
pub struct Outline {
    pub title: Seq<char>,
    pub description: Seq<char>,
    pub emoji: EmojiModel,
    pub priority: Priority,
    pub tags: Seq<Seq<char>>,
    pub steps: Seq<Seq<char>>,
}

/// The four sample tasks that a list without tasks starts with.
pub open spec fn sample_outline(number: int) -> Outline {
    if number == 0 {
        Outline {
            title: "完成Rodo项目功能开发"@,
            description: "实现所有计划的功能并进行测试"@,
            emoji: EmojiModel::Work,
            priority: Priority::High,
            tags: seq!["工作"@, "编程"@],
            steps: seq![
                "设计用户界面"@,
                "实现任务管理功能"@,
                "添加主题支持"@,
                "编写文档"@,
            ],
        }
    } else if number == 1 {
        Outline {
            title: "购买生活用品"@,
            description: ""@,
            emoji: EmojiModel::Shopping,
            priority: Priority::Medium,
            tags: seq!["个人"@, "购物"@],
            steps: seq!["洗发水"@, "牙膏"@, "洗衣液"@],
        }
    } else if number == 2 {
        Outline {
            title: "阅读《Rust编程》"@,
            description: ""@,
            emoji: EmojiModel::Book,
            priority: Priority::Low,
            tags: seq!["学习"@, "编程"@],
            steps: Seq::empty(),
        }
    } else {
        Outline {
            title: "每周健身计划"@,
            description: "保持每周至少锻炼3次，每次30分钟以上"@,
            emoji: EmojiModel::Sport,
            priority: Priority::Medium,
            tags: seq!["健康"@, "个人"@],
            steps: Seq::empty(),
        }
    }
}

/// Whether the task is an open task made after the outline, its steps open too.
pub open spec fn follows_outline(todo: TodoModel, outline: Outline) -> bool {
    &&& todo.title == outline.title
    &&& todo.description == outline.description
    &&& todo.emoji == outline.emoji
    &&& todo.priority == outline.priority
    &&& todo.tags == outline.tags
    &&& !todo.completed
    &&& todo.completed_at is None
    &&& todo.due_date is None
    &&& todo.subtasks.len() == outline.steps.len()
    &&& forall|i: int|
        0 <= i < todo.subtasks.len() ==> (#[trigger] todo.subtasks[i]).title == outline.steps[i]
            && !todo.subtasks[i].completed
}

/// Whether the tasks are the earlier tasks with the four sample tasks put in, one
/// after another.
pub open spec fn with_samples(earlier: Seq<TodoModel>, todos: Seq<TodoModel>) -> bool {
    exists|first: TodoModel, second: TodoModel, third: TodoModel, fourth: TodoModel|
        #![trigger with_todo(
            with_todo(with_todo(with_todo(earlier, first), second), third),
            fourth,
        )]
        follows_outline(first, sample_outline(0)) && follows_outline(second, sample_outline(1))
            && follows_outline(third, sample_outline(2)) && follows_outline(
            fourth,
            sample_outline(3),
        ) && todos == with_todo(
            with_todo(with_todo(with_todo(earlier, first), second), third),
            fourth,
        )
}

/// Whether the task is a new task without a title, as the form for a new task starts
/// with.
pub open spec fn is_blank_form(todo: TodoModel) -> bool {
    exists|id: Seq<char>, created_at: Timestamp, emoji: EmojiModel|
        todo == #[trigger] TodoModel::fresh(id, Seq::empty(), created_at, emoji)
}

/// Every task that stays when the completed ones leave is one of the tasks, and the
/// tasks that stay still differ in their identifiers.
pub proof fn lemma_open_todos_keeps_ids_distinct(todos: Seq<TodoModel>)
    ensures
        forall|i: int|
            0 <= i < open_todos(todos).len() ==> todos.contains(#[trigger] open_todos(todos)[i]),
        distinct_ids(todos) ==> distinct_ids(open_todos(todos)),
    decreases todos.len(),
{
    if todos.len() > 0 {
        let front = todos.drop_last();
        let kept = open_todos(front);
        let all = open_todos(todos);
        lemma_open_todos_keeps_ids_distinct(front);
        assert forall|i: int| 0 <= i < all.len() implies todos.contains(#[trigger] all[i]) by {
            if i < kept.len() {
                assert(all[i] == kept[i]);
                let k = choose|k: int| 0 <= k < front.len() && front[k] == kept[i];
                assert(todos[k] == all[i]);
            } else {
                assert(todos[todos.len() - 1] == all[i]);
            }
        }
        if distinct_ids(todos) {
            assert forall|i: int, j: int| 0 <= i < j < front.len() implies front[i].id
                != front[j].id by {
                assert(front[i] == todos[i] && front[j] == todos[j]);
            }
            assert forall|i: int, j: int| 0 <= i < j < all.len() implies all[i].id
                != all[j].id by {
                if j == kept.len() {
                    assert(all[i] == kept[i]);
                    let k = choose|k: int| 0 <= k < front.len() && front[k] == kept[i];
                    assert(todos[k] == front[k]);
                    assert(todos[k].id != todos[todos.len() - 1].id);
                } else {
                    assert(all[i] == kept[i] && all[j] == kept[j]);
                }
            }
        }
    }
}

/// Merging keeps the identifiers of the tasks different.
pub proof fn lemma_merged_keeps_ids_distinct(todos: Seq<TodoModel>, imported: Seq<TodoModel>)
    requires
        distinct_ids(todos),
    ensures
        distinct_ids(merged(todos, imported)),
    decreases imported.len(),
{
    if imported.len() > 0 {
        let before = merged(todos, imported.drop_last());
        lemma_merged_keeps_ids_distinct(todos, imported.drop_last());
        lemma_position_is_first(before, imported.last().id);
    }
}

/// Removing a tag keeps the identifiers of the tasks different.
pub proof fn lemma_all_untagged_keeps_ids_distinct(todos: Seq<TodoModel>, tag: Seq<char>)
    requires
        distinct_ids(todos),
    ensures
        distinct_ids(all_untagged(todos, tag)),
{
}

/// Merging never loses a task: the tasks from before stand at the front.
pub proof fn lemma_merged_extends(todos: Seq<TodoModel>, imported: Seq<TodoModel>)
    ensures
        merged(todos, imported).len() >= todos.len(),
        merged(todos, imported).take(todos.len() as int) == todos,
    decreases imported.len(),
{
    if imported.len() > 0 {
        lemma_merged_extends(todos, imported.drop_last());
        let before = merged(todos, imported.drop_last());
        assert(before.push(imported.last()).take(todos.len() as int) == before.take(
            todos.len() as int,
        ));
    } else {
        assert(todos.take(todos.len() as int) == todos);
    }
}

/// Returns the texts without those that equal `text`.
pub fn remove_text(texts: &Vec<String>, text: &str) -> (kept: Vec<String>)
    ensures
        kept.deep_view() == without_text(texts.deep_view(), text@),
{
    let mut kept: Vec<String> = Vec::new();
    let mut i: usize = 0;
    assert(texts.deep_view().take(0) == Seq::<Seq<char>>::empty());
    while i < texts.len()
        invariant
            i <= texts.len(),
            kept.deep_view() == without_text(texts.deep_view().take(i as int), text@),
        decreases texts.len() - i,
    {
        proof {
            let next = texts.deep_view().take(i + 1);
            assert(next.drop_last() == texts.deep_view().take(i as int));
            assert(next.last() == texts[i as int]@);
        }
        if !same_text(texts[i].as_str(), text) {
            let ghost before = kept.deep_view();
            kept.push(texts[i].clone());
            assert(kept.deep_view() == before.push(texts[i as int]@));
        }
        i = i + 1;
    }
    assert(texts.deep_view().take(i as int) == texts.deep_view());
    kept
}

/// Builds a sample task with a fresh identifier and fresh steps.
fn sample_todo(
    title: &str,
    description: &str,
    emoji: Emoji,
    priority: Priority,
    first_tag: &str,
    second_tag: &str,
    steps: &Vec<&str>,
) -> (todo: Todo)
    ensures
        follows_outline(
            todo@,
            Outline {
                title: title@,
                description: description@,
                emoji: emoji@,
                priority,
                tags: seq![first_tag@, second_tag@],
                steps: Seq::new(steps.len() as nat, |i: int| steps[i]@),
            },
        ),
{
    let mut todo = Todo::new(title.to_owned());
    todo.description = description.to_owned();
    todo.emoji = emoji;
    todo.priority = priority;
    let mut tags: Vec<String> = Vec::new();
    tags.push(first_tag.to_owned());
    tags.push(second_tag.to_owned());
    assert(tags.deep_view() == seq![first_tag@, second_tag@]);
    todo.tags = tags;
    let mut subtasks: Vec<SubTask> = Vec::new();
    let mut i: usize = 0;
    while i < steps.len()
        invariant
            i <= steps.len(),
            subtasks.len() == i,
            forall|k: int|
                0 <= k < i ==> (#[trigger] subtasks.deep_view()[k]).title == steps[k]@
                    && !subtasks.deep_view()[k].completed,
        decreases steps.len() - i,
    {
        let ghost before = subtasks.deep_view();
        let step = SubTask::new(steps[i].to_owned());
        subtasks.push(step);
        assert(subtasks.deep_view() == before.push(step@));
        i = i + 1;
    }
    todo.subtasks = subtasks;
    todo
}

impl RodoApp {
    /// Puts a state together from what was loaded: the list screen, nothing being
    /// edited, no pending confirmation, nothing unsaved.
    pub fn assemble(
        todo_list: TodoList,
        theme: Theme,
        new_todo: Todo,
        markdown_directory: Option<String>,
        markdown_files: Vec<String>,
        current_file: Option<String>,
        current_content: Option<String>,
    ) -> (app: RodoApp)
        ensures
            app@ == (AppModel {
                view: View::List,
                todo_list: todo_list@,
                theme,
                editing_todo_id: None,
                new_todo: new_todo@,
                temp_input: Seq::empty(),
                temp_tag_input: Seq::empty(),
                modified: false,
                show_confirmation: false,
                confirmation_message: Seq::empty(),
                confirmation_action: None,
                current_markdown_path: current_file.deep_view(),
                markdown_content: match current_content {
                    Some(content) => content@,
                    None => Seq::empty(),
                },
                current_markdown_directory: markdown_directory.deep_view(),
                markdown_files: markdown_files.deep_view(),
            }),
    {
        RodoApp {
            view: View::List,
            todo_list,
            theme,
            editing_todo_id: None,
            new_todo,
            temp_input: String::new(),
            temp_tag_input: String::new(),
            modified: false,
            show_confirmation: false,
            confirmation_message: String::new(),
            confirmation_action: None,
            current_markdown_path: current_file,
            markdown_content: match current_content {
                Some(content) => content,
                None => String::new(),
            },
            current_markdown_directory: markdown_directory,
            markdown_files,
        }
    }

    /// Opens the confirmation dialog with a message and the action to carry out.
    pub fn show_confirm(&mut self, message: &str, action: ConfirmationAction)
        ensures
            final(self)@ == (AppModel {
                confirmation_message: message@,
                confirmation_action: Some(action@),
                show_confirmation: true,
                ..old(self)@
            }),
    {
        self.confirmation_message = message.to_owned();
        self.confirmation_action = Some(action);
        self.show_confirmation = true;
    }

    /// Files the task of the form and puts `next` in its place, unless the title of
    /// the task is blank; then nothing changes.
    pub fn file_new_todo(&mut self, next: Todo)
        ensures
            trimmed(old(self)@.new_todo.title).len() == 0 ==> final(self)@ == old(self)@,
            trimmed(old(self)@.new_todo.title).len() > 0 ==> final(self)@ == (AppModel {
                todo_list: TodoListModel {
                    todos: with_todo(old(self)@.todo_list.todos, old(self)@.new_todo),
                    ..old(self)@.todo_list
                },
                new_todo: next@,
                modified: true,
                view: View::List,
                ..old(self)@
            }),
    {
        if !trim(self.new_todo.title.as_str()).is_empty() {
            let mut filed = next;
            std::mem::swap(&mut filed, &mut self.new_todo);
            self.todo_list.add_todo(filed);
            self.modified = true;
            self.view = View::List;
        }
    }

    /// Files the task of the form and starts a new one, unless the title of the task
    /// is blank; then nothing changes.
    pub fn create_new_todo(&mut self)
        ensures
            trimmed(old(self)@.new_todo.title).len() == 0 ==> final(self)@ == old(self)@,
            trimmed(old(self)@.new_todo.title).len() > 0 ==> final(self)@ == (AppModel {
                todo_list: TodoListModel {
                    todos: with_todo(old(self)@.todo_list.todos, old(self)@.new_todo),
                    ..old(self)@.todo_list
                },
                new_todo: final(self)@.new_todo,
                modified: true,
                view: View::List,
                ..old(self)@
            }) && is_blank_form(final(self)@.new_todo),
    {
        if !trim(self.new_todo.title.as_str()).is_empty() {
            self.file_new_todo(Todo::new(String::new()));
        }
    }

    /// Deletes the task with the identifier. Where that task was being edited, the
    /// application goes back to the list.
    pub fn delete_todo(&mut self, id: &str)
        ensures
            final(self)@ == old(self)@.todo_deleted(id@),
    {
        self.todo_list.remove_todo(id);
        self.modified = true;
        let editing = match &self.editing_todo_id {
            Some(editing_id) => same_text(editing_id.as_str(), id),
            None => false,
        };
        if editing {
            self.editing_todo_id = None;
            self.view = View::List;
        }
    }

    /// Deletes every completed task.
    pub fn delete_all_completed(&mut self)
        ensures
            final(self)@ == old(self)@.completed_deleted(),
    {
        let ghost all = self.todo_list.todos.deep_view();
        let ghost mut seen: int = 0;
        let mut i: usize = 0;
        assert(all.take(0) == Seq::<TodoModel>::empty());
        assert(all.skip(0) == all);
        assert(open_todos(all.take(0)) + all.skip(0) == all);
        while i < self.todo_list.todos.len()
            invariant
                0 <= seen <= all.len(),
                i == open_todos(all.take(seen)).len(),
                self.todo_list.todos.deep_view() == open_todos(all.take(seen)) + all.skip(seen),
                self@ == (AppModel {
                    todo_list: TodoListModel {
                        todos: self.todo_list.todos.deep_view(),
                        ..old(self)@.todo_list
                    },
                    ..old(self)@
                }),
            decreases all.len() - seen,
        {
            let ghost kept = open_todos(all.take(seen));
            let ghost current = self.todo_list.todos.deep_view();
            proof {
                assert(all.skip(seen).len() > 0);
                assert(current[i as int] == all.skip(seen)[0]);
                let next = all.take(seen + 1);
                assert(next.drop_last() == all.take(seen));
                assert(next.last() == all[seen]);
                assert(all.skip(seen).drop_first() == all.skip(seen + 1));
            }
            if self.todo_list.todos[i].completed {
                self.todo_list.todos.remove(i);
                assert(self.todo_list.todos.deep_view() == current.remove(i as int));
                assert(current.remove(i as int) == kept + all.skip(seen + 1));
            } else {
                assert(kept.push(all[seen]) + all.skip(seen + 1) == current);
                i = i + 1;
            }
            proof {
                seen = seen + 1;
            }
        }
        proof {
            assert(all.skip(seen).len() == 0);
            assert(seen == all.len());
            assert(all.take(seen) == all);
            assert(open_todos(all) + all.skip(seen) == open_todos(all));
        }
        self.modified = true;
    }

    /// Puts an imported list in the place of the tasks and their view settings.
    pub fn import_todos(&mut self, imported: TodoList)
        ensures
            final(self)@ == (AppModel { todo_list: imported@, modified: true, ..old(self)@ }),
    {
        self.todo_list = imported;
        self.modified = true;
    }

    /// Merges imported tasks into the list: the tasks that are there stay as they are,
    /// and each imported task whose identifier is not taken joins at the end. Returns
    /// how many joined.
    pub fn merge_imported_todos(&mut self, imported: &TodoList) -> (count: usize)
        ensures
            final(self)@ == (AppModel {
                todo_list: TodoListModel {
                    todos: merged(old(self)@.todo_list.todos, imported@.todos),
                    ..old(self)@.todo_list
                },
                modified: old(self)@.modified || count > 0,
                ..old(self)@
            }),
            count == merged(old(self)@.todo_list.todos, imported@.todos).len()
                - old(self)@.todo_list.todos.len(),
    {
        let ghost start = self.todo_list.todos.deep_view();
        let ghost incoming = imported.todos.deep_view();
        let mut count: usize = 0;
        let mut i: usize = 0;
        assert(incoming.take(0) == Seq::<TodoModel>::empty());
        while i < imported.todos.len()
            invariant
                i <= imported.todos.len(),
                count <= i,
                incoming == imported.todos.deep_view(),
                start == old(self)@.todo_list.todos,
                self.todo_list.todos.deep_view() == merged(start, incoming.take(i as int)),
                count == self.todo_list.todos.len() - start.len(),
                self@ == (AppModel {
                    todo_list: TodoListModel {
                        todos: self.todo_list.todos.deep_view(),
                        ..old(self)@.todo_list
                    },
                    ..old(self)@
                }),
            decreases imported.todos.len() - i,
        {
            let todo = &imported.todos[i];
            proof {
                let next = incoming.take(i + 1);
                assert(next.drop_last() == incoming.take(i as int));
                assert(next.last() == todo@);
                lemma_position_is_first(self.todo_list.todos.deep_view(), todo@.id);
            }
            if !self.todo_list.contains(todo.id.as_str()) {
                let ghost before = self.todo_list.todos.deep_view();
                self.todo_list.todos.push(todo.duplicate());
                assert(self.todo_list.todos.deep_view() == before.push(todo@));
                count = count + 1;
            }
            i = i + 1;
        }
        assert(incoming.take(i as int) == incoming);
        if count > 0 {
            self.modified = true;
        }
        count
    }

    /// Removes a tag from every task and from the active tags.
    pub fn delete_tag(&mut self, tag_name: &str)
        ensures
            final(self)@ == old(self)@.tag_deleted(tag_name@),
    {
        let ghost all = self.todo_list.todos.deep_view();
        let mut i: usize = 0;
        while i < self.todo_list.todos.len()
            invariant
                i <= self.todo_list.todos.len(),
                self.todo_list.todos.len() == all.len(),
                all == old(self)@.todo_list.todos,
                forall|k: int|
                    0 <= k < i ==> #[trigger] self.todo_list.todos.deep_view()[k] == untagged(
                        all[k],
                        tag_name@,
                    ),
                forall|k: int|
                    i <= k < all.len() ==> #[trigger] self.todo_list.todos.deep_view()[k] == all[k],
                self@ == (AppModel {
                    todo_list: TodoListModel {
                        todos: self.todo_list.todos.deep_view(),
                        ..old(self)@.todo_list
                    },
                    ..old(self)@
                }),
            decreases self.todo_list.todos.len() - i,
        {
            let ghost before = self.todo_list.todos.deep_view();
            let mut todo = self.todo_list.todos[i].duplicate();
            assert(todo@ == before[i as int]);
            todo.tags = remove_text(&todo.tags, tag_name);
            self.todo_list.todos.set(i, todo);
            assert(self.todo_list.todos.deep_view() == before.update(i as int, todo@));
            i = i + 1;
        }
        assert(self.todo_list.todos.deep_view() == all_untagged(all, tag_name@));
        self.todo_list.active_tags = remove_text(&self.todo_list.active_tags, tag_name);
        self.modified = true;
    }

    /// Puts the four sample tasks into the list, each with a fresh identifier.
    pub fn add_sample_todos(&mut self)
        ensures
            with_samples(old(self)@.todo_list.todos, final(self)@.todo_list.todos),
            final(self)@ == (AppModel {
                todo_list: TodoListModel {
                    todos: final(self)@.todo_list.todos,
                    ..old(self)@.todo_list
                },
                ..old(self)@
            }),
    {
        let mut steps: Vec<&str> = Vec::new();
        steps.push("设计用户界面");
        steps.push("实现任务管理功能");
        steps.push("添加主题支持");
        steps.push("编写文档");
        let first = sample_todo(
            "完成Rodo项目功能开发",
            "实现所有计划的功能并进行测试",
            Emoji::Work,
            Priority::High,
            "工作",
            "编程",
            &steps,
        );
        assert(Seq::new(steps.len() as nat, |i: int| steps[i]@) == sample_outline(0).steps);
        let mut items: Vec<&str> = Vec::new();
        items.push("洗发水");
        items.push("牙膏");
        items.push("洗衣液");
        let second = sample_todo(
            "购买生活用品",
            "",
            Emoji::Shopping,
            Priority::Medium,
            "个人",
            "购物",
            &items,
        );
        assert(Seq::new(items.len() as nat, |i: int| items[i]@) == sample_outline(1).steps);
        let none: Vec<&str> = Vec::new();
        assert(Seq::new(none.len() as nat, |i: int| none[i]@) == Seq::<Seq<char>>::empty());
        let third = sample_todo(
            "阅读《Rust编程》",
            "",
            Emoji::Book,
            Priority::Low,
            "学习",
            "编程",
            &none,
        );
        let fourth = sample_todo(
            "每周健身计划",
            "保持每周至少锻炼3次，每次30分钟以上",
            Emoji::Sport,
            Priority::Medium,
            "健康",
            "个人",
            &none,
        );
        let ghost earlier = self.todo_list.todos.deep_view();
        let ghost models = (first@, second@, third@, fourth@);
        self.todo_list.add_todo(first);
        self.todo_list.add_todo(second);
        self.todo_list.add_todo(third);
        self.todo_list.add_todo(fourth);
        assert(self.todo_list.todos.deep_view() == with_todo(
            with_todo(with_todo(with_todo(earlier, models.0), models.1), models.2),
            models.3,
        ));
    }

    /// Puts the application back into its first state: the sample tasks alone, the
    /// default theme, the list screen, `next` as the task of the form, the inputs
    /// empty. The state counts as unsaved.
    pub fn reset_with(&mut self, next: Todo)
        ensures
            with_samples(Seq::empty(), final(self)@.todo_list.todos),
            final(self)@ == (AppModel {
                todo_list: TodoListModel {
                    todos: final(self)@.todo_list.todos,
                    active_tags: Seq::empty(),
                    filter_completed: false,
                    priority_sort: None,
                },
                theme: Theme::palette(ThemeType::Dark),
                editing_todo_id: None,
                new_todo: next@,
                temp_input: Seq::empty(),
                temp_tag_input: Seq::empty(),
                modified: true,
                view: View::List,
                ..old(self)@
            }),
    {
        self.todo_list = TodoList::default();
        assert(self.todo_list@.todos == Seq::<TodoModel>::empty());
        assert(self.todo_list@.active_tags == Seq::<Seq<char>>::empty());
        self.theme = Theme::default();
        self.editing_todo_id = None;
        self.new_todo = next;
        self.temp_input = String::new();
        self.temp_tag_input = String::new();
        self.modified = true;
        self.view = View::List;
        self.add_sample_todos();
    }

    /// Puts the application back into its first state, with a new task in the form.
    pub fn reset_app(&mut self)
        ensures
            with_samples(Seq::empty(), final(self)@.todo_list.todos),
            is_blank_form(final(self)@.new_todo),
            final(self)@ == (AppModel {
                todo_list: TodoListModel {
                    todos: final(self)@.todo_list.todos,
                    active_tags: Seq::empty(),
                    filter_completed: false,
                    priority_sort: None,
                },
                theme: Theme::palette(ThemeType::Dark),
                editing_todo_id: None,
                new_todo: final(self)@.new_todo,
                temp_input: Seq::empty(),
                temp_tag_input: Seq::empty(),
                modified: true,
                view: View::List,
                ..old(self)@
            }),
    {
        self.reset_with(Todo::new(String::new()));
    }

    /// Makes `theme` the theme of the application.
    pub fn set_theme(&mut self, theme: Theme)
        ensures
            final(self)@ == (AppModel { theme, ..old(self)@ }),
    {
        self.theme = theme;
    }
}

} // verus!
