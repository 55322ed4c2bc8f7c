use rodo::time::Timestamp;
use rodo::todo::{Emoji, Priority, Todo};
use rodo::todo_list::{comes_before, contains_text, TodoList};

fn make(id: &str, created: i64, priority: Priority, completed: bool, tags: &[&str]) -> Todo {
    let mut todo = Todo::assemble(
        id.to_string(),
        format!("title {}", id),
        Timestamp { seconds: created, nanos: 0 },
        Emoji::Blank,
    );
    todo.priority = priority;
    todo.completed = completed;
    todo.tags = tags.iter().map(|t| t.to_string()).collect();
    todo
}

fn ids(todos: &[&Todo]) -> Vec<String> {
    todos.iter().map(|t| t.id.clone()).collect()
}

fn sample_list() -> TodoList {
    let mut list = TodoList::default();
    list.add_todo(make("a", 10, Priority::Low, false, &["work"]));
    list.add_todo(make("b", 30, Priority::High, false, &["home", "work"]));
    list.add_todo(make("c", 20, Priority::High, true, &[]));
    list.add_todo(make("d", 40, Priority::Critical, true, &["home"]));
    list.add_todo(make("e", 30, Priority::Medium, false, &["x"]));
    list
}

#[test]
fn default_list_is_empty() {
    let list = TodoList::default();
    assert!(list.todos.is_empty());
    assert!(list.active_tags.is_empty());
    assert!(!list.filter_completed);
    assert_eq!(list.priority_sort, None);
    assert!(list.filtered_todos().is_empty());
    assert!(list.all_tags().is_empty());
}

#[test]
fn add_joins_at_the_end_or_replaces_in_place() {
    let mut list = sample_list();
    assert_eq!(list.todos.len(), 5);
    let replacement = make("b", 99, Priority::Low, true, &[]);
    list.add_todo(replacement.clone());
    assert_eq!(list.todos.len(), 5);
    assert_eq!(list.todos[1], replacement);
    list.add_todo(make("f", 1, Priority::Low, false, &[]));
    assert_eq!(list.todos.len(), 6);
    assert_eq!(list.todos[5].id, "f");
}

#[test]
fn find_gives_the_position_or_the_length() {
    let list = sample_list();
    assert_eq!(list.find("a"), 0);
    assert_eq!(list.find("c"), 2);
    assert_eq!(list.find("zz"), 5);
    assert!(list.contains("e"));
    assert!(!list.contains(""));
}

#[test]
fn remove_takes_out_the_task_with_the_id() {
    let mut list = sample_list();
    list.remove_todo("c");
    assert_eq!(list.todos.iter().map(|t| t.id.as_str()).collect::<Vec<_>>(), vec!["a", "b", "d", "e"]);
    list.remove_todo("c");
    list.remove_todo("nope");
    assert_eq!(list.todos.len(), 4);
    list.remove_todo("a");
    list.remove_todo("e");
    assert_eq!(list.todos.iter().map(|t| t.id.as_str()).collect::<Vec<_>>(), vec!["b", "d"]);
}

#[test]
fn all_tags_are_distinct_and_sorted() {
    let list = sample_list();
    assert_eq!(list.all_tags(), vec!["home", "work", "x"]);
}

#[test]
fn contains_text_finds_exact_texts() {
    let texts = vec!["a".to_string(), "bc".to_string()];
    assert!(contains_text(&texts, "bc"));
    assert!(!contains_text(&texts, "b"));
    assert!(!contains_text(&Vec::new(), ""));
}

#[test]
fn newest_first_with_open_tasks_before_completed_ones() {
    let list = sample_list();
    assert_eq!(ids(&list.filtered_todos()), vec!["b", "e", "a", "d", "c"]);
}

#[test]
fn ties_keep_the_order_of_the_list() {
    let mut list = TodoList::default();
    for id in ["p", "q", "r", "s"] {
        list.add_todo(make(id, 7, Priority::Medium, false, &[]));
    }
    assert_eq!(ids(&list.filtered_todos()), vec!["p", "q", "r", "s"]);
    list.priority_sort = Some(true);
    assert_eq!(ids(&list.filtered_todos()), vec!["p", "q", "r", "s"]);
}

#[test]
fn most_urgent_first_among_open_tasks() {
    let mut list = sample_list();
    list.priority_sort = Some(true);
    assert_eq!(ids(&list.filtered_todos()), vec!["b", "e", "a", "d", "c"]);
    list.add_todo(make("g", 1, Priority::Critical, false, &[]));
    assert_eq!(ids(&list.filtered_todos()), vec!["g", "b", "e", "a", "d", "c"]);
}

#[test]
fn least_urgent_first_among_open_tasks() {
    let mut list = sample_list();
    list.priority_sort = Some(false);
    assert_eq!(ids(&list.filtered_todos()), vec!["a", "e", "b", "d", "c"]);
}

#[test]
fn completed_tasks_are_ordered_by_age_alone() {
    let mut list = TodoList::default();
    list.add_todo(make("old-critical", 1, Priority::Critical, true, &[]));
    list.add_todo(make("new-low", 2, Priority::Low, true, &[]));
    list.priority_sort = Some(true);
    assert_eq!(ids(&list.filtered_todos()), vec!["new-low", "old-critical"]);
}

#[test]
fn completed_tasks_can_be_left_out() {
    let mut list = sample_list();
    list.filter_completed = true;
    assert_eq!(ids(&list.filtered_todos()), vec!["b", "e", "a"]);
}

#[test]
fn active_tags_restrict_the_view() {
    let mut list = sample_list();
    list.active_tags = vec!["home".to_string()];
    assert_eq!(ids(&list.filtered_todos()), vec!["b", "d"]);
    list.active_tags = vec!["home".to_string(), "x".to_string()];
    assert_eq!(ids(&list.filtered_todos()), vec!["b", "e", "d"]);
    list.active_tags = vec!["none".to_string()];
    assert!(list.filtered_todos().is_empty());
    list.active_tags = vec!["work".to_string()];
    list.filter_completed = true;
    assert_eq!(ids(&list.filtered_todos()), vec!["b", "a"]);
}

#[test]
fn shows_follows_tags_and_state() {
    let mut list = sample_list();
    let open = make("o", 1, Priority::Low, false, &["t"]);
    let done = make("d", 1, Priority::Low, true, &["t"]);
    assert!(list.shows(&open) && list.shows(&done));
    list.filter_completed = true;
    assert!(list.shows(&open) && !list.shows(&done));
    list.active_tags = vec!["u".to_string()];
    assert!(!list.shows(&open));
    list.active_tags.push("t".to_string());
    assert!(list.shows(&open));
}

#[test]
fn comes_before_is_strict() {
    let open_new = make("a", 20, Priority::Low, false, &[]);
    let open_old = make("b", 10, Priority::High, false, &[]);
    let done = make("c", 30, Priority::Critical, true, &[]);
    assert!(comes_before(&open_new, &open_old, None));
    assert!(!comes_before(&open_old, &open_new, None));
    assert!(comes_before(&open_old, &open_new, Some(true)));
    assert!(comes_before(&open_new, &open_old, Some(false)));
    assert!(comes_before(&open_old, &done, None));
    assert!(!comes_before(&done, &open_old, Some(true)));
    assert!(!comes_before(&open_new, &open_new, None));
    assert!(!comes_before(&open_new, &open_new, Some(true)));
}

#[test]
fn nanoseconds_break_ties_between_seconds() {
    let mut list = TodoList::default();
    let mut early = make("early", 5, Priority::Low, false, &[]);
    early.created_at.nanos = 1;
    let mut late = make("late", 5, Priority::Low, false, &[]);
    late.created_at.nanos = 2;
    list.add_todo(early);
    list.add_todo(late);
    assert_eq!(ids(&list.filtered_todos()), vec!["late", "early"]);
}
