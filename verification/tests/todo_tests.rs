use rodo::color::Color;
use rodo::time::Timestamp;
use rodo::todo::{priority_to_number, Emoji, Priority, SubTask, Todo};

fn at(seconds: i64) -> Timestamp {
    Timestamp { seconds, nanos: 0 }
}

fn todo(id: &str, title: &str, created: i64) -> Todo {
    Todo::assemble(id.to_string(), title.to_string(), at(created), Emoji::Star)
}

#[test]
fn emoji_catalogue_starts_blank() {
    let all = Emoji::all_emojis();
    assert_eq!(all.len(), 13);
    assert_eq!(all[0], Emoji::Blank);
    assert_eq!(all[0].as_str(), "");
    assert_eq!(all[1].as_str(), "✅");
    assert_eq!(all[12], Emoji::Travel);
}

#[test]
fn emoji_glyphs() {
    let glyphs: Vec<&str> = vec!["", "✅", "⭐", "❤️", "🔥", "📚", "🎵", "🏃", "🛒", "💼", "👪", "🏥", "✈️"];
    let all = Emoji::all_emojis();
    for (emoji, glyph) in all.iter().zip(glyphs) {
        assert_eq!(emoji.as_str(), glyph);
    }
    assert_eq!(Emoji::Custom("🦀".to_string()).as_str(), "🦀");
    assert_eq!(Emoji::Custom(String::new()).as_str(), "");
}

#[test]
fn emoji_duplicate_is_equal() {
    for emoji in Emoji::all_emojis() {
        assert_eq!(emoji.duplicate(), emoji);
    }
    let custom = Emoji::Custom("x".to_string());
    assert_eq!(custom.duplicate(), custom);
}

#[test]
fn random_emoji_is_predefined_and_never_blank() {
    let all = Emoji::all_emojis();
    for _ in 0..200 {
        let emoji = Emoji::random();
        assert_ne!(emoji, Emoji::Blank);
        assert!(all[1..].contains(&emoji));
    }
}

#[test]
fn priority_labels() {
    assert_eq!(Priority::Low.as_str(), "低");
    assert_eq!(Priority::Medium.as_str(), "中");
    assert_eq!(Priority::High.as_str(), "高");
    assert_eq!(Priority::Critical.as_str(), "紧急");
}

#[test]
fn priority_ranks_and_colours() {
    assert_eq!(priority_to_number(&Priority::Low), 0);
    assert_eq!(priority_to_number(&Priority::Medium), 1);
    assert_eq!(priority_to_number(&Priority::High), 2);
    assert_eq!(priority_to_number(&Priority::Critical), 3);
    assert_eq!(Priority::Low.color(), Color { r: 76, g: 175, b: 80 });
    assert_eq!(Priority::Medium.color(), Color { r: 255, g: 193, b: 7 });
    assert_eq!(Priority::High.color(), Color { r: 255, g: 87, b: 34 });
    assert_eq!(Priority::Critical.color(), Color { r: 244, g: 67, b: 54 });
}

#[test]
fn all_priorities_ascend() {
    assert_eq!(
        Priority::all_priorities(),
        vec![Priority::Low, Priority::Medium, Priority::High, Priority::Critical]
    );
}

#[test]
fn new_subtask_is_open_with_a_fresh_id() {
    let a = SubTask::new("step".to_string());
    let b = SubTask::new("step".to_string());
    assert_eq!(a.title, "step");
    assert!(!a.completed);
    assert_eq!(a.id.chars().count(), 36);
    assert_ne!(a.id, b.id);
    assert_eq!(a.duplicate(), a);
}

#[test]
fn assembled_todo_has_the_defaults() {
    let t = todo("id-1", "title", 5);
    assert_eq!(t.id, "id-1");
    assert_eq!(t.title, "title");
    assert_eq!(t.description, "");
    assert!(!t.completed);
    assert_eq!(t.created_at, at(5));
    assert_eq!(t.completed_at, None);
    assert_eq!(t.due_date, None);
    assert_eq!(t.priority, Priority::Medium);
    assert_eq!(t.emoji, Emoji::Star);
    assert!(t.tags.is_empty());
    assert!(t.subtasks.is_empty());
}

#[test]
fn new_todo_has_fresh_parts() {
    let a = Todo::new("a".to_string());
    let b = Todo::new("a".to_string());
    assert_eq!(a.title, "a");
    assert_eq!(a.id.chars().count(), 36);
    assert_ne!(a.id, b.id);
    assert_ne!(a.emoji, Emoji::Blank);
    assert!(a.created_at.seconds > 1_600_000_000);
    assert_eq!(a.priority, Priority::Medium);
    assert!(!a.completed && a.completed_at.is_none() && a.due_date.is_none());
    assert!(a.description.is_empty() && a.tags.is_empty() && a.subtasks.is_empty());
}

#[test]
fn overdue_needs_a_past_due_date_and_an_open_task() {
    let mut t = todo("i", "t", 0);
    assert!(!t.is_overdue_at(&at(100)));
    t.due_date = Some(at(50));
    assert!(t.is_overdue_at(&at(100)));
    assert!(!t.is_overdue_at(&at(50)));
    assert!(!t.is_overdue_at(&at(10)));
    t.completed = true;
    assert!(!t.is_overdue_at(&at(100)));
}

#[test]
fn overdue_now() {
    let mut t = todo("i", "t", 0);
    assert!(!t.is_overdue());
    t.due_date = Some(at(1));
    assert!(t.is_overdue());
    t.due_date = Some(at(i64::MAX));
    assert!(!t.is_overdue());
    t.due_date = Some(at(1));
    t.completed = true;
    assert!(!t.is_overdue());
}

#[test]
fn completing_records_the_time_once() {
    let mut t = todo("i", "t", 0);
    t.set_completed_at(true, at(10));
    assert!(t.completed);
    assert_eq!(t.completed_at, Some(at(10)));
    t.set_completed_at(true, at(20));
    assert_eq!(t.completed_at, Some(at(10)));
    t.set_completed_at(false, at(30));
    assert!(!t.completed);
    assert_eq!(t.completed_at, None);
    t.set_completed_at(false, at(40));
    assert_eq!(t.completed_at, None);
}

#[test]
fn completing_now_records_a_time() {
    let mut t = todo("i", "t", 0);
    t.set_completed(true);
    assert!(t.completed);
    assert!(t.completed_at.is_some());
    t.set_completed(false);
    assert!(!t.completed);
    assert_eq!(t.completed_at, None);
}

#[test]
fn completed_steps_are_counted() {
    let mut t = todo("i", "t", 0);
    assert_eq!(t.completed_subtasks(), 0);
    for (n, done) in [true, false, true, true].into_iter().enumerate() {
        t.subtasks.push(SubTask { id: format!("s{}", n), title: "s".to_string(), completed: done });
    }
    assert_eq!(t.completed_subtasks(), 3);
}

#[test]
fn duplicate_todo_is_equal() {
    let mut t = todo("i", "t", 3);
    t.tags = vec!["a".to_string(), "b".to_string()];
    t.subtasks.push(SubTask { id: "s".to_string(), title: "st".to_string(), completed: true });
    t.emoji = Emoji::Custom("z".to_string());
    t.due_date = Some(at(9));
    assert_eq!(t.duplicate(), t);
}
