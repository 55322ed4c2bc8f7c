use vstd::prelude::*;
use rand::seq::SliceRandom;
use crate::color::Color;
use crate::time::{current_time, format_date_time_at, is_date_text, Timestamp};

verus! {

/// A pictogram shown next to a task's title.
#[derive(Clone, Debug, PartialEq)]
pub enum Emoji {
    Blank,
    CheckMark,
    Star,
    Heart,
    Fire,
    Book,
    Music,
    Sport,
    Shopping,
    Work,
    Family,
    Health,
    Travel,
    Custom(String),
}

/// The mathematical value of an `Emoji`.
pub enum EmojiModel {
    Blank,
    CheckMark,
    Star,
    Heart,
    Fire,
    Book,
    Music,
    Sport,
    Shopping,
    Work,
    Family,
    Health,
    Travel,
    Custom(Seq<char>),
}

impl View for Emoji {
    type V = EmojiModel;

    open spec fn view(&self) -> EmojiModel {
        match self {
            Emoji::Blank => EmojiModel::Blank,
            Emoji::CheckMark => EmojiModel::CheckMark,
            Emoji::Star => EmojiModel::Star,
            Emoji::Heart => EmojiModel::Heart,
            Emoji::Fire => EmojiModel::Fire,
            Emoji::Book => EmojiModel::Book,
            Emoji::Music => EmojiModel::Music,
            Emoji::Sport => EmojiModel::Sport,
            Emoji::Shopping => EmojiModel::Shopping,
            Emoji::Work => EmojiModel::Work,
            Emoji::Family => EmojiModel::Family,
            Emoji::Health => EmojiModel::Health,
            Emoji::Travel => EmojiModel::Travel,
            Emoji::Custom(text) => EmojiModel::Custom(text@),
        }
    }
}

impl DeepView for Emoji {
    type V = EmojiModel;

    open spec fn deep_view(&self) -> EmojiModel {
        self@
    }
}

impl EmojiModel {
    /// The characters that the pictogram is drawn with.
    pub open spec fn glyph(self) -> Seq<char> {
        match self {
            EmojiModel::Blank => ""@,
            EmojiModel::CheckMark => "✅"@,
            EmojiModel::Star => "⭐"@,
            EmojiModel::Heart => "❤️"@,
            EmojiModel::Fire => "🔥"@,
            EmojiModel::Book => "📚"@,
            EmojiModel::Music => "🎵"@,
            EmojiModel::Sport => "🏃"@,
            EmojiModel::Shopping => "🛒"@,
            EmojiModel::Work => "💼"@,
            EmojiModel::Family => "👪"@,
            EmojiModel::Health => "🏥"@,
            EmojiModel::Travel => "✈️"@,
            EmojiModel::Custom(text) => text,
        }
    }

    /// The predefined pictograms, in the order in which they are offered.
    pub open spec fn catalogue() -> Seq<EmojiModel> {
        seq![
            EmojiModel::Blank,
            EmojiModel::CheckMark,
            EmojiModel::Star,
            EmojiModel::Heart,
            EmojiModel::Fire,
            EmojiModel::Book,
            EmojiModel::Music,
            EmojiModel::Sport,
            EmojiModel::Shopping,
            EmojiModel::Work,
            EmojiModel::Family,
            EmojiModel::Health,
            EmojiModel::Travel,
        ]
    }
}

/// `SliceRandom::choose` with the thread's generator, on the part of `choices` from
/// `from` on: one of the elements there, or nothing where that part is empty.
#[verifier::external_body]
fn choose_from<'a>(choices: &'a Vec<Emoji>, from: usize) -> (chosen: Option<&'a Emoji>)
    requires
        from <= choices.len(),
    ensures
        chosen is Some <==> from < choices.len(),
        chosen matches Some(emoji) ==> exists|i: int|
            from <= i < choices.len() && #[trigger] choices[i] == *emoji,
{
    choices[from..].choose(&mut rand::thread_rng())
}

impl Emoji {
    /// Returns the text of the pictogram; a custom one returns its own text.
    pub fn as_str(&self) -> (s: &str)
        ensures
            s@ == self@.glyph(),
    {
        match self {
            Emoji::Blank => "",
            Emoji::CheckMark => "✅",
            Emoji::Star => "⭐",
            Emoji::Heart => "❤️",
            Emoji::Fire => "🔥",
            Emoji::Book => "📚",
            Emoji::Music => "🎵",
            Emoji::Sport => "🏃",
            Emoji::Shopping => "🛒",
            Emoji::Work => "💼",
            Emoji::Family => "👪",
            Emoji::Health => "🏥",
            Emoji::Travel => "✈️",
            Emoji::Custom(s) => s.as_str(),
        }
    }

    /// Returns every predefined pictogram, `Blank` first.
    pub fn all_emojis() -> (all: Vec<Emoji>)
        ensures
            all.deep_view() == EmojiModel::catalogue(),
    {
        let mut all: Vec<Emoji> = Vec::new();
        all.push(Emoji::Blank);
        all.push(Emoji::CheckMark);
        all.push(Emoji::Star);
        all.push(Emoji::Heart);
        all.push(Emoji::Fire);
        all.push(Emoji::Book);
        all.push(Emoji::Music);
        all.push(Emoji::Sport);
        all.push(Emoji::Shopping);
        all.push(Emoji::Work);
        all.push(Emoji::Family);
        all.push(Emoji::Health);
        all.push(Emoji::Travel);
        assert(all.deep_view() == EmojiModel::catalogue());
        all
    }

    /// Returns a pictogram of the same value.
    pub fn duplicate(&self) -> (copy: Emoji)
        ensures
            copy@ == self@,
    {
        match self {
            Emoji::Blank => Emoji::Blank,
            Emoji::CheckMark => Emoji::CheckMark,
            Emoji::Star => Emoji::Star,
            Emoji::Heart => Emoji::Heart,
            Emoji::Fire => Emoji::Fire,
            Emoji::Book => Emoji::Book,
            Emoji::Music => Emoji::Music,
            Emoji::Sport => Emoji::Sport,
            Emoji::Shopping => Emoji::Shopping,
            Emoji::Work => Emoji::Work,
            Emoji::Family => Emoji::Family,
            Emoji::Health => Emoji::Health,
            Emoji::Travel => Emoji::Travel,
            Emoji::Custom(text) => Emoji::Custom(text.clone()),
        }
    }

    /// Returns one of the predefined pictograms at random, never `Blank`.
    pub fn random() -> (emoji: Emoji)
        ensures
            exists|i: int|
                1 <= i < EmojiModel::catalogue().len() && emoji@
                    == #[trigger] EmojiModel::catalogue()[i],
    {
        let emojis = Emoji::all_emojis();
        assert(emojis.len() == emojis.deep_view().len());
        let chosen = choose_from(&emojis, 1).unwrap();
        proof {
            let i = choose|i: int| 1 <= i < emojis.len() && #[trigger] emojis[i] == *chosen;
            assert(emojis.deep_view()[i] == chosen@);
        }
        chosen.duplicate()
    }
}

/// How urgent a task is.
#[derive(Clone, Copy, Debug, PartialEq, Eq, Hash, Structural)]
pub enum Priority {
    Low,
    Medium,
    High,
    Critical,
}

impl Priority {
    /// The label of the priority.
    pub open spec fn label(self) -> Seq<char> {
        match self {
            Priority::Low => "低"@,
            Priority::Medium => "中"@,
            Priority::High => "高"@,
            Priority::Critical => "紧急"@,
        }
    }

    /// The position of the priority on the scale from `Low` (0) to `Critical` (3).
    pub open spec fn rank(self) -> int {
        match self {
            Priority::Low => 0,
            Priority::Medium => 1,
            Priority::High => 2,
            Priority::Critical => 3,
        }
    }

    /// The signal colour of the priority: green, yellow, orange, red.
    pub open spec fn signal(self) -> Color {
        match self {
            Priority::Low => Color::rgb(76, 175, 80),
            Priority::Medium => Color::rgb(255, 193, 7),
            Priority::High => Color::rgb(255, 87, 34),
            Priority::Critical => Color::rgb(244, 67, 54),
        }
    }

    /// Returns the label of the priority.
    pub fn as_str(&self) -> (s: &str)
        ensures
            s@ == self.label(),
    {
        match self {
            Priority::Low => "低",
            Priority::Medium => "中",
            Priority::High => "高",
            Priority::Critical => "紧急",
        }
    }

    /// Returns the signal colour of the priority.
    pub fn color(&self) -> (c: Color)
        ensures
            c == self.signal(),
    {
        match self {
            Priority::Low => Color::from_rgb(76, 175, 80),
            Priority::Medium => Color::from_rgb(255, 193, 7),
            Priority::High => Color::from_rgb(255, 87, 34),
            Priority::Critical => Color::from_rgb(244, 67, 54),
        }
    }

    /// Returns the four priorities from the least to the most urgent.
    pub fn all_priorities() -> (all: Vec<Priority>)
        ensures
            all@ == seq![Priority::Low, Priority::Medium, Priority::High, Priority::Critical],
    {
        let mut all: Vec<Priority> = Vec::new();
        all.push(Priority::Low);
        all.push(Priority::Medium);
        all.push(Priority::High);
        all.push(Priority::Critical);
        all
    }
}

/// Maps a priority to its rank, so that priorities can be ordered.
pub fn priority_to_number(priority: &Priority) -> (n: u8)
    ensures
        n == priority.rank(),
{
    match priority {
        Priority::Low => 0,
        Priority::Medium => 1,
        Priority::High => 2,
        Priority::Critical => 3,
    }
}

/// `Uuid::new_v4`, written out: a random identifier in its hyphenated form of 36
/// characters.
#[verifier::external_body]
pub(crate) fn fresh_id() -> (id: String)
    ensures
        id@.len() == 36,
{
    uuid::Uuid::new_v4().to_string()
}

/// One step of a task.
#[derive(Clone, Debug, PartialEq)]
pub struct SubTask {
    pub id: String,
    pub title: String,
    pub completed: bool,
}

/// The mathematical value of a `SubTask`.
pub struct SubTaskModel {
    pub id: Seq<char>,
    pub title: Seq<char>,
    pub completed: bool,
}

impl View for SubTask {
    type V = SubTaskModel;

    open spec fn view(&self) -> SubTaskModel {
        SubTaskModel { id: self.id@, title: self.title@, completed: self.completed }
    }
}

impl DeepView for SubTask {
    type V = SubTaskModel;

    open spec fn deep_view(&self) -> SubTaskModel {
        self@
    }
}

impl SubTask {
    /// Creates an open step with a fresh identifier.
    pub fn new(title: String) -> (subtask: SubTask)
        ensures
            subtask@.title == title@,
            !subtask@.completed,
            subtask@.id.len() == 36,
    {
        SubTask { id: fresh_id(), title, completed: false }
    }

    /// Returns a step of the same value.
    pub fn duplicate(&self) -> (copy: SubTask)
        ensures
            copy@ == self@,
    {
        SubTask { id: self.id.clone(), title: self.title.clone(), completed: self.completed }
    }
}

/// A task.
#[derive(Clone, Debug, PartialEq)]
pub struct Todo {
    pub id: String,
    pub title: String,
    pub description: String,
    pub completed: bool,
    pub created_at: Timestamp,
    pub completed_at: Option<Timestamp>,
    pub due_date: Option<Timestamp>,
    pub priority: Priority,
    pub emoji: Emoji,
    pub tags: Vec<String>,
    pub subtasks: Vec<SubTask>,
}

/// The mathematical value of a `Todo`.
pub struct TodoModel {
    pub id: Seq<char>,
    pub title: Seq<char>,
    pub description: Seq<char>,
    pub completed: bool,
    pub created_at: Timestamp,
    pub completed_at: Option<Timestamp>,
    pub due_date: Option<Timestamp>,
    pub priority: Priority,
    pub emoji: EmojiModel,
    pub tags: Seq<Seq<char>>,
    pub subtasks: Seq<SubTaskModel>,
}

impl View for Todo {
    type V = TodoModel;

    open spec fn view(&self) -> TodoModel {
        TodoModel {
            id: self.id@,
            title: self.title@,
            description: self.description@,
            completed: self.completed,
            created_at: self.created_at,
            completed_at: self.completed_at,
            due_date: self.due_date,
            priority: self.priority,
            emoji: self.emoji@,
            tags: self.tags.deep_view(),
            subtasks: self.subtasks.deep_view(),
        }
    }
}

impl DeepView for Todo {
    type V = TodoModel;

    open spec fn deep_view(&self) -> TodoModel {
        self@
    }
}

impl TodoModel {
    /// A new task: open, of medium priority, without description, dates, tags or steps.
    pub open spec fn fresh(
        id: Seq<char>,
        title: Seq<char>,
        created_at: Timestamp,
        emoji: EmojiModel,
    ) -> TodoModel {
        TodoModel {
            id,
            title,
            description: Seq::empty(),
            completed: false,
            created_at,
            completed_at: None,
            due_date: None,
            priority: Priority::Medium,
            emoji,
            tags: Seq::empty(),
            subtasks: Seq::empty(),
        }
    }

    /// Whether the task is open and its due date lies before `now`.
    pub open spec fn overdue_at(self, now: Timestamp) -> bool {
        match self.due_date {
            Some(due) => !self.completed && due.before(now),
            None => false,
        }
    }

    /// The task after its state was set at the time `now`: a task that becomes
    /// completed records the time, one that was completed already keeps its record,
    /// and one that is reopened loses it.
    pub open spec fn with_completed(self, completed: bool, now: Timestamp) -> TodoModel {
        TodoModel {
            completed,
            completed_at: if completed {
                if self.completed {
                    self.completed_at
                } else {
                    Some(now)
                }
            } else {
                None
            },
            ..self
        }
    }
}

/// The number of completed steps among `subtasks`.
pub open spec fn completed_count(subtasks: Seq<SubTaskModel>) -> nat
    decreases subtasks.len(),
{
    if subtasks.len() == 0 {
        0
    } else if subtasks.last().completed {
        completed_count(subtasks.drop_last()) + 1
    } else {
        completed_count(subtasks.drop_last())
    }
}

impl Todo {
    /// Creates a task from its parts: open, of medium priority, without description,
    /// dates, tags or steps.
    pub fn assemble(id: String, title: String, created_at: Timestamp, emoji: Emoji) -> (todo: Todo)
        ensures
            todo@ == TodoModel::fresh(id@, title@, created_at, emoji@),
    {
        let todo = Todo {
            id,
            title,
            description: String::new(),
            completed: false,
            created_at,
            completed_at: None,
            due_date: None,
            priority: Priority::Medium,
            emoji,
            tags: Vec::new(),
            subtasks: Vec::new(),
        };
        assert(todo.tags.deep_view() == Seq::<Seq<char>>::empty());
        assert(todo.subtasks.deep_view() == Seq::<SubTaskModel>::empty());
        todo
    }

    /// Creates a task with a fresh identifier, the current time and a random
    /// pictogram.
    pub fn new(title: String) -> (todo: Todo)
        ensures
            exists|id: Seq<char>, created_at: Timestamp, emoji: EmojiModel|
                todo@ == #[trigger] TodoModel::fresh(id, title@, created_at, emoji),
    {
        Todo::assemble(fresh_id(), title, current_time(), Emoji::random())
    }

    /// Tells whether the task is open and was due before `now`.
    pub fn is_overdue_at(&self, now: &Timestamp) -> (overdue: bool)
        ensures
            overdue == self@.overdue_at(*now),
    {
        match &self.due_date {
            Some(due) => !self.completed && due.is_before(now),
            None => false,
        }
    }

    /// Tells whether the task is open and was due before now. A task without a due
    /// date, and a completed one, is never overdue.
    pub fn is_overdue(&self) -> (overdue: bool)
        ensures
            exists|now: Timestamp| overdue == #[trigger] self@.overdue_at(now),
    {
        let now = current_time();
        self.is_overdue_at(&now)
    }

    /// Returns how many steps of the task are completed.
    pub fn completed_subtasks(&self) -> (count: usize)
        ensures
            count == completed_count(self@.subtasks),
            count <= self@.subtasks.len(),
    {
        let mut count: usize = 0;
        let mut i: usize = 0;
        assert(self.subtasks.deep_view().take(0) == Seq::<SubTaskModel>::empty());
        while i < self.subtasks.len()
            invariant
                i <= self.subtasks.len(),
                count <= i,
                count == completed_count(self.subtasks.deep_view().take(i as int)),
            decreases self.subtasks.len() - i,
        {
            proof {
                let next = self.subtasks.deep_view().take(i + 1);
                assert(next.drop_last() == self.subtasks.deep_view().take(i as int));
                assert(next.last() == self.subtasks[i as int]@);
            }
            if self.subtasks[i].completed {
                count = count + 1;
            }
            i = i + 1;
        }
        assert(self.subtasks.deep_view().take(i as int) == self.subtasks.deep_view());
        count
    }

    /// Sets the state of the task at the time `now`.
    pub fn set_completed_at(&mut self, completed: bool, now: Timestamp)
        ensures
            final(self)@ == old(self)@.with_completed(completed, now),
    {
        if completed && !self.completed {
            self.completed_at = Some(now);
        } else if !completed {
            self.completed_at = None;
        }
        self.completed = completed;
    }

    /// Sets the state of the task. A task that becomes completed records the current
    /// time; one that is reopened loses its record.
    pub fn set_completed(&mut self, completed: bool)
        ensures
            exists|now: Timestamp|
                final(self)@ == #[trigger] old(self)@.with_completed(completed, now),
    {
        let now = current_time();
        self.set_completed_at(completed, now);
    }

    /// Writes a point in time as seen from now: "just now", the minutes or, from an
    /// hour on, what this machine's calendar shows.
    pub fn format_date_time(dt: &Timestamp) -> (text: String)
        ensures
            exists|now: Timestamp| #[trigger] is_date_text(*dt, now, text@),
    {
        let now = current_time();
        format_date_time_at(dt, &now)
    }

    /// Returns a task of the same value.
    pub fn duplicate(&self) -> (copy: Todo)
        ensures
            copy@ == self@,
    {
        let mut tags: Vec<String> = Vec::new();
        let mut i: usize = 0;
        while i < self.tags.len()
            invariant
                i <= self.tags.len(),
                tags.deep_view() == self.tags.deep_view().take(i as int),
            decreases self.tags.len() - i,
        {
            let ghost before = tags.deep_view();
            tags.push(self.tags[i].clone());
            assert(tags.deep_view() == before.push(self.tags[i as int]@));
            i = i + 1;
        }
        assert(self.tags.deep_view().take(i as int) == self.tags.deep_view());
        let mut subtasks: Vec<SubTask> = Vec::new();
        let mut j: usize = 0;
        while j < self.subtasks.len()
            invariant
                j <= self.subtasks.len(),
                subtasks.deep_view() == self.subtasks.deep_view().take(j as int),
            decreases self.subtasks.len() - j,
        {
            let ghost before = subtasks.deep_view();
            subtasks.push(self.subtasks[j].duplicate());
            assert(subtasks.deep_view() == before.push(self.subtasks[j as int]@));
            j = j + 1;
        }
        assert(self.subtasks.deep_view().take(j as int) == self.subtasks.deep_view());
        Todo {
            id: self.id.clone(),
            title: self.title.clone(),
            description: self.description.clone(),
            completed: self.completed,
            created_at: self.created_at,
            completed_at: self.completed_at,
            due_date: self.due_date,
            priority: self.priority,
            emoji: self.emoji.duplicate(),
            tags,
            subtasks,
        }
    }
}

} // verus!
