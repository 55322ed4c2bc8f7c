use rodo::actions::{description_preview, find_text, ConfirmEffect};
use rodo::app::{ConfirmationAction, RodoApp, View};
use rodo::text::contains_part;
use rodo::theme::Theme;
use rodo::time::Timestamp;
use rodo::todo::{Emoji, Priority, Todo};
use rodo::todo_list::TodoList;

fn at(seconds: i64) -> Timestamp {
    Timestamp { seconds, nanos: 0 }
}

fn task(id: &str, completed: bool, tags: &[&str]) -> Todo {
    let mut todo = Todo::assemble(id.to_string(), format!("t-{}", id), at(1), Emoji::Blank);
    todo.completed = completed;
    todo.tags = tags.iter().map(|t| t.to_string()).collect();
    todo
}

fn form() -> Todo {
    Todo::assemble("form".to_string(), String::new(), at(0), Emoji::Star)
}

fn state(todos: Vec<Todo>) -> RodoApp {
    let mut list = TodoList::default();
    for todo in todos {
        list.add_todo(todo);
    }
    RodoApp::assemble(list, Theme::dark(), form(), None, Vec::new(), None, None)
}

fn texts(list: &[&str]) -> Vec<String> {
    list.iter().map(|s| s.to_string()).collect()
}

#[test]
fn order_button_cycles_through_three_orders() {
    let mut app = state(vec![]);
    assert_eq!(app.todo_list.priority_sort, None);
    app.cycle_priority_sort();
    assert_eq!(app.todo_list.priority_sort, Some(true));
    assert!(app.modified);
    app.cycle_priority_sort();
    assert_eq!(app.todo_list.priority_sort, Some(false));
    app.cycle_priority_sort();
    assert_eq!(app.todo_list.priority_sort, None);
}

#[test]
fn filter_button_toggles() {
    let mut app = state(vec![]);
    app.toggle_filter_completed();
    assert!(app.todo_list.filter_completed && app.modified);
    app.toggle_filter_completed();
    assert!(!app.todo_list.filter_completed);
}

#[test]
fn activating_a_tag_twice_changes_nothing_the_second_time() {
    let mut app = state(vec![]);
    app.activate_tag("a");
    assert_eq!(app.todo_list.active_tags, texts(&["a"]));
    assert!(app.modified);
    app.modified = false;
    app.activate_tag("a");
    assert_eq!(app.todo_list.active_tags, texts(&["a"]));
    assert!(!app.modified);
    app.activate_tag("b");
    assert_eq!(app.todo_list.active_tags, texts(&["a", "b"]));
}

#[test]
fn deactivating_by_position() {
    let mut app = state(vec![]);
    app.todo_list.active_tags = texts(&["a", "b", "c"]);
    app.deactivate_tag(3);
    assert_eq!(app.todo_list.active_tags, texts(&["a", "b", "c"]));
    assert!(!app.modified);
    app.deactivate_tag(1);
    assert_eq!(app.todo_list.active_tags, texts(&["a", "c"]));
    assert!(app.modified);
}

#[test]
fn toggling_an_active_tag() {
    let mut app = state(vec![]);
    app.toggle_active_tag("x");
    assert_eq!(app.todo_list.active_tags, texts(&["x"]));
    app.toggle_active_tag("y");
    app.toggle_active_tag("x");
    assert_eq!(app.todo_list.active_tags, texts(&["y"]));
    assert!(app.modified);
}

#[test]
fn find_text_gives_the_first_position() {
    let list = texts(&["a", "b", "a"]);
    assert_eq!(find_text(&list, "a"), 0);
    assert_eq!(find_text(&list, "b"), 1);
    assert_eq!(find_text(&list, "c"), 3);
    assert_eq!(find_text(&Vec::new(), "c"), 0);
}

#[test]
fn completing_a_task_in_the_list() {
    let mut app = state(vec![task("a", false, &[]), task("b", false, &[])]);
    app.set_todo_completed_at("b", true, at(77));
    assert!(app.todo_list.todos[1].completed);
    assert_eq!(app.todo_list.todos[1].completed_at, Some(at(77)));
    assert!(!app.todo_list.todos[0].completed);
    assert!(app.modified);
    app.set_todo_completed_at("b", false, at(88));
    assert_eq!(app.todo_list.todos[1].completed_at, None);
    let mut untouched = state(vec![task("a", false, &[])]);
    untouched.set_todo_completed_at("zz", true, at(1));
    assert!(!untouched.modified);
    untouched.set_todo_completed("a", true);
    assert!(untouched.todo_list.todos[0].completed_at.is_some());
}

#[test]
fn long_descriptions_are_cut_for_the_list() {
    let fifty: String = "x".repeat(50);
    assert_eq!(description_preview(&fifty), fifty);
    let longer: String = "y".repeat(51);
    assert_eq!(description_preview(&longer), format!("{}...", "y".repeat(47)));
    assert_eq!(description_preview(""), "");
    let wide: String = "字".repeat(60);
    assert_eq!(description_preview(&wide), format!("{}...", "字".repeat(47)));
}

#[test]
fn form_tag_is_trimmed_and_added_once() {
    let mut app = state(vec![]);
    app.temp_tag_input = "  home ".to_string();
    app.add_form_tag();
    assert_eq!(app.new_todo.tags, texts(&["home"]));
    assert_eq!(app.temp_tag_input, "");
    assert!(app.modified);
    app.modified = false;
    app.temp_tag_input = "home".to_string();
    app.add_form_tag();
    assert_eq!(app.new_todo.tags, texts(&["home"]));
    assert_eq!(app.temp_tag_input, "home");
    assert!(!app.modified);
    app.temp_tag_input = "   ".to_string();
    app.add_form_tag();
    assert_eq!(app.new_todo.tags, texts(&["home"]));
    assert!(!app.modified);
}

#[test]
fn known_tag_is_picked_once() {
    let mut app = state(vec![]);
    app.pick_form_tag("a");
    app.pick_form_tag("b");
    app.modified = false;
    app.pick_form_tag("a");
    assert_eq!(app.new_todo.tags, texts(&["a", "b"]));
    assert!(!app.modified);
}

#[test]
fn available_tags_leave_out_the_taken_ones() {
    let app = state(vec![task("a", false, &["z", "m"]), task("b", false, &["a", "m"])]);
    assert_eq!(app.available_tags(&Vec::new()), texts(&["a", "m", "z"]));
    assert_eq!(app.available_tags(&texts(&["m", "other"])), texts(&["a", "z"]));
    assert!(app.available_tags(&texts(&["a", "m", "z"])).is_empty());
}

#[test]
fn cancelling_the_form_goes_back_to_the_list() {
    let mut app = state(vec![]);
    app.view = View::AddTodo;
    app.temp_input = "x".to_string();
    app.temp_tag_input = "y".to_string();
    app.editing_todo_id = Some("e".to_string());
    app.new_todo.title = "typed".to_string();
    let next = task("next", false, &[]);
    app.cancel_form_with(next.clone());
    assert_eq!(app.view, View::List);
    assert_eq!(app.new_todo, next);
    assert_eq!(app.temp_input, "");
    assert_eq!(app.temp_tag_input, "");
    assert_eq!(app.editing_todo_id, None);
    assert!(!app.modified);
    assert!(app.todo_list.todos.is_empty());
}

#[test]
fn saving_the_form_files_a_new_task() {
    let mut app = state(vec![task("a", false, &[])]);
    app.view = View::AddTodo;
    app.new_todo.title = "new".to_string();
    app.new_todo.priority = Priority::High;
    app.new_todo.completed = true;
    let next = task("next", false, &[]);
    app.save_form_with("todo-1".to_string(), at(500), next.clone());
    assert_eq!(app.todo_list.todos.len(), 2);
    let filed = &app.todo_list.todos[1];
    assert_eq!(filed.id, "todo-1");
    assert_eq!(filed.title, "new");
    assert_eq!(filed.created_at, at(500));
    assert_eq!(filed.priority, Priority::High);
    assert!(filed.completed);
    assert_eq!(filed.completed_at, None);
    assert_eq!(app.view, View::List);
    assert_eq!(app.new_todo, next);
    assert!(app.modified);
}

#[test]
fn saving_the_form_updates_the_task_being_edited() {
    let mut existing = task("a", true, &["old"]);
    existing.created_at = at(5);
    existing.completed_at = Some(at(9));
    let mut app = state(vec![existing, task("b", false, &[])]);
    app.editing_todo_id = Some("a".to_string());
    app.new_todo.title = "edited".to_string();
    app.new_todo.completed = true;
    app.new_todo.completed_at = Some(at(1000));
    app.save_form_with("unused".to_string(), at(500), form());
    let updated = &app.todo_list.todos[0];
    assert_eq!(updated.id, "a");
    assert_eq!(updated.title, "edited");
    assert_eq!(updated.created_at, at(5));
    assert_eq!(updated.completed_at, Some(at(9)));
    assert!(updated.tags.is_empty());
    assert_eq!(app.todo_list.todos.len(), 2);
    assert_eq!(app.editing_todo_id, None);
}

#[test]
fn saving_a_reopened_task_drops_the_completion_record() {
    let mut existing = task("a", true, &[]);
    existing.completed_at = Some(at(9));
    let mut app = state(vec![existing]);
    app.editing_todo_id = Some("a".to_string());
    app.new_todo.completed = false;
    app.new_todo.completed_at = Some(at(3));
    app.save_form_with("unused".to_string(), at(500), form());
    assert!(!app.todo_list.todos[0].completed);
    assert_eq!(app.todo_list.todos[0].completed_at, None);
}

#[test]
fn saving_for_a_vanished_task_changes_no_task() {
    let mut app = state(vec![task("a", false, &[])]);
    app.editing_todo_id = Some("gone".to_string());
    let before = app.todo_list.todos.clone();
    app.save_form_with("unused".to_string(), at(500), form());
    assert_eq!(app.todo_list.todos, before);
    assert!(app.modified);
    assert_eq!(app.view, View::List);
}

#[test]
fn saving_now_gives_a_fresh_identifier() {
    let mut app = state(vec![]);
    app.new_todo.title = "t".to_string();
    app.save_form();
    assert_eq!(app.todo_list.todos.len(), 1);
    let id = &app.todo_list.todos[0].id;
    assert!(id.starts_with("todo-"));
    assert_eq!(id.chars().count(), 41);
    assert!(app.todo_list.todos[0].created_at.seconds > 1_600_000_000);
    assert_eq!(app.new_todo.title, "");
}

#[test]
fn opening_a_directory_closes_the_file() {
    let mut app = state(vec![]);
    app.open_file("/d/a.md".to_string(), "# a".to_string());
    assert_eq!(app.markdown_content, "# a");
    assert_eq!(app.current_markdown_path.as_deref(), Some("/d/a.md"));
    app.open_directory("/e".to_string(), texts(&["x.md"]));
    assert_eq!(app.current_markdown_directory.as_deref(), Some("/e"));
    assert_eq!(app.markdown_files, texts(&["x.md"]));
    assert_eq!(app.current_markdown_path, None);
    assert_eq!(app.markdown_content, "");
}

#[test]
fn cancelling_a_confirmation_carries_nothing_out() {
    let mut app = state(vec![task("a", false, &[])]);
    app.show_confirm("?", ConfirmationAction::DeleteTodo("a".to_string()));
    app.cancel_confirmation();
    assert!(!app.show_confirmation);
    assert_eq!(app.confirmation_action, None);
    assert_eq!(app.todo_list.todos.len(), 1);
}

#[test]
fn confirming_deletes() {
    let mut app = state(vec![task("a", true, &["t"]), task("b", false, &["t", "u"])]);
    app.show_confirm("?", ConfirmationAction::DeleteTag("t".to_string()));
    assert_eq!(app.confirm(), ConfirmEffect::Done);
    assert!(!app.show_confirmation);
    assert_eq!(app.confirmation_action, None);
    assert_eq!(app.todo_list.todos[1].tags, texts(&["u"]));
    app.show_confirm("?", ConfirmationAction::DeleteAllCompleted);
    assert_eq!(app.confirm(), ConfirmEffect::Done);
    assert_eq!(app.todo_list.todos.len(), 1);
    app.show_confirm("?", ConfirmationAction::DeleteTodo("b".to_string()));
    assert_eq!(app.confirm(), ConfirmEffect::Done);
    assert!(app.todo_list.todos.is_empty());
    assert_eq!(app.confirm(), ConfirmEffect::Done);
}

#[test]
fn confirming_an_empty_tag_deletes_nothing() {
    let mut app = state(vec![task("a", false, &[""])]);
    app.show_confirm("?", ConfirmationAction::DeleteTag(String::new()));
    assert_eq!(app.confirm(), ConfirmEffect::Done);
    assert_eq!(app.todo_list.todos[0].tags, texts(&[""]));
    assert!(!app.modified);
}

#[test]
fn confirming_resets_is_left_to_the_caller() {
    let mut app = state(vec![task("a", false, &[])]);
    app.show_confirm("?", ConfirmationAction::ResetSettings);
    assert_eq!(app.confirm(), ConfirmEffect::ResetTheme);
    app.show_confirm("?", ConfirmationAction::ResetApp);
    assert_eq!(app.confirm(), ConfirmEffect::ResetApp);
    app.show_confirm("?", ConfirmationAction::DeleteThemePreset("p".to_string()));
    assert_eq!(app.confirm(), ConfirmEffect::Done);
    assert_eq!(app.todo_list.todos.len(), 1);
    assert!(!app.modified);
}

#[test]
fn confirming_an_import_reads_the_message() {
    let mut app = state(vec![]);
    app.show_confirm("导入将从 f 加载并覆盖当前所有任务，确定要继续吗？", ConfirmationAction::ImportTodos);
    app.temp_input = "/tmp/f.json".to_string();
    assert_eq!(app.confirm(), ConfirmEffect::Import("/tmp/f.json".to_string()));
    assert_eq!(app.temp_input, "");
    app.show_confirm("合并任务", ConfirmationAction::ImportTodos);
    app.temp_input = "g".to_string();
    assert_eq!(app.confirm(), ConfirmEffect::Merge("g".to_string()));
    app.show_confirm("导入 3 个新任务", ConfirmationAction::ImportTodos);
    app.temp_input = "h".to_string();
    assert_eq!(app.confirm(), ConfirmEffect::Merge("h".to_string()));
    app.show_confirm("成功导出任务", ConfirmationAction::ImportTodos);
    app.temp_input = "i".to_string();
    assert_eq!(app.confirm(), ConfirmEffect::Done);
    assert_eq!(app.temp_input, "");
    app.show_confirm("覆盖", ConfirmationAction::ImportTodos);
    assert_eq!(app.confirm(), ConfirmEffect::Done);
}

#[test]
fn parts_of_a_text() {
    assert!(contains_part("hello", ""));
    assert!(contains_part("", ""));
    assert!(contains_part("hello", "hello"));
    assert!(contains_part("hello", "ell"));
    assert!(contains_part("hello", "o"));
    assert!(!contains_part("hello", "hellos"));
    assert!(!contains_part("hello", "lle"));
    assert!(!contains_part("", "a"));
    assert!(contains_part("aab", "ab"));
    assert!(contains_part("确定要覆盖吗", "覆盖"));
    for (text, part) in [("abcabc", "cab"), ("abc", "abd"), ("xxxy", "xxy"), ("é", "e")] {
        assert_eq!(contains_part(text, part), text.contains(part));
    }
}

#[test]
fn tag_statistics_rank_by_uses_then_by_name() {
    let app = state(vec![
        task("1", false, &["b", "a", "c"]),
        task("2", false, &["c", "b"]),
        task("3", true, &["c", "d", "d"]),
    ]);
    let counts = app.todo_list.tag_counts();
    assert_eq!(
        counts,
        vec![
            ("c".to_string(), 3),
            ("b".to_string(), 2),
            ("d".to_string(), 2),
            ("a".to_string(), 1),
        ]
    );
    assert_eq!(app.todo_list.count_tag("d"), 2);
    assert_eq!(app.todo_list.count_tag("zz"), 0);
    assert!(TodoList::default().tag_counts().is_empty());
}

#[test]
fn form_step_is_trimmed_and_added() {
    let mut app = state(vec![]);
    assert!(!app.has_step_input());
    app.temp_input = "  first step ".to_string();
    assert!(app.has_step_input());
    app.add_form_subtask();
    assert_eq!(app.new_todo.subtasks.len(), 1);
    assert_eq!(app.new_todo.subtasks[0].title, "first step");
    assert!(!app.new_todo.subtasks[0].completed);
    assert_eq!(app.new_todo.subtasks[0].id.chars().count(), 36);
    assert_eq!(app.temp_input, "");
    assert!(app.modified);
    app.modified = false;
    app.temp_input = " \t".to_string();
    app.add_form_subtask();
    assert_eq!(app.new_todo.subtasks.len(), 1);
    assert_eq!(app.temp_input, " \t");
    assert!(!app.modified);
}

#[test]
fn edited_task_is_found_by_its_identifier() {
    let mut app = state(vec![task("a", false, &[]), task("b", false, &[])]);
    assert_eq!(app.find_edited(), 2);
    app.editing_todo_id = Some("b".to_string());
    assert_eq!(app.find_edited(), 1);
    app.editing_todo_id = Some("zz".to_string());
    assert_eq!(app.find_edited(), 2);
}

#[test]
fn tag_and_step_join_the_edited_task() {
    let mut app = state(vec![task("a", false, &["x"]), task("b", false, &[])]);
    app.editing_todo_id = Some("a".to_string());
    app.temp_tag_input = " x ".to_string();
    app.add_edited_tag();
    assert_eq!(app.todo_list.todos[0].tags, texts(&["x", "x"]));
    assert_eq!(app.temp_tag_input, "");
    assert!(app.modified);
    app.temp_input = " step ".to_string();
    app.add_edited_subtask();
    assert_eq!(app.todo_list.todos[0].subtasks.len(), 1);
    assert_eq!(app.todo_list.todos[0].subtasks[0].title, "step");
    assert_eq!(app.temp_input, "");
    assert!(app.todo_list.todos[1].tags.is_empty() && app.todo_list.todos[1].subtasks.is_empty());
}

#[test]
fn nothing_joins_without_an_edited_task_or_an_input() {
    let mut app = state(vec![task("a", false, &[])]);
    app.temp_tag_input = "t".to_string();
    app.temp_input = "s".to_string();
    let before = app.clone();
    app.add_edited_tag();
    app.add_edited_subtask();
    assert_eq!(app, before);
    app.editing_todo_id = Some("gone".to_string());
    let before = app.clone();
    app.add_edited_tag();
    app.add_edited_subtask();
    assert_eq!(app, before);
    app.editing_todo_id = Some("a".to_string());
    app.temp_tag_input = "  ".to_string();
    app.temp_input = String::new();
    let before = app.clone();
    app.add_edited_tag();
    app.add_edited_subtask();
    assert_eq!(app, before);
}

#[test]
fn new_tag_must_be_unknown_and_not_blank() {
    let mut app = state(vec![task("a", false, &["known"])]);
    assert!(!app.can_add_new_tag());
    app.temp_tag_input = " known ".to_string();
    assert!(!app.can_add_new_tag());
    app.temp_tag_input = "fresh".to_string();
    assert!(app.can_add_new_tag());
    app.temp_tag_input = "   ".to_string();
    assert!(!app.can_add_new_tag());
}

#[test]
fn form_readiness() {
    let mut app = state(vec![]);
    assert!(!app.can_save_form());
    assert!(!app.can_add_form_tag());
    app.new_todo.title = " t ".to_string();
    app.temp_tag_input = "tag".to_string();
    assert!(app.can_save_form());
    assert!(app.can_add_form_tag());
    app.new_todo.tags.push("tag".to_string());
    assert!(!app.can_add_form_tag());
    app.new_todo.title = "\n".to_string();
    assert!(!app.can_save_form());
}
