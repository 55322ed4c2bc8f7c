use vstd::prelude::*;
use crate::listing::{ascending, sort_strings, text_le};
use crate::text::same_text;
use crate::todo::{priority_to_number, Todo, TodoModel};

verus! {

/// The tasks with the settings of their list view.
#[derive(Clone, Debug, PartialEq)]
pub struct TodoList {
    /// The tasks, no two of them with the same identifier.
    pub todos: Vec<Todo>,
    /// The tags that a task must share one of to be shown; none means no restriction.
    pub active_tags: Vec<String>,
    /// Whether completed tasks are left out.
    pub filter_completed: bool,
    /// Whether open tasks are ordered by priority, and then whether the most urgent
    /// come first; without it the newest come first.
    pub priority_sort: Option<bool>,
}

/// The mathematical value of a `TodoList`.
pub struct TodoListModel {
    pub todos: Seq<TodoModel>,
    pub active_tags: Seq<Seq<char>>,
    pub filter_completed: bool,
    pub priority_sort: Option<bool>,
}

impl View for TodoList {
    type V = TodoListModel;

    open spec fn view(&self) -> TodoListModel {
        TodoListModel {
            todos: self.todos.deep_view(),
            active_tags: self.active_tags.deep_view(),
            filter_completed: self.filter_completed,
            priority_sort: self.priority_sort,
        }
    }
}

/// The values of the tasks that the references point to.
pub open spec fn models(todos: Seq<&Todo>) -> Seq<TodoModel> {
    Seq::new(todos.len(), |i: int| todos[i]@)
}

/// Whether no two tasks have the same identifier.
pub open spec fn distinct_ids(todos: Seq<TodoModel>) -> bool {
    forall|i: int, j: int| 0 <= i < j < todos.len() ==> todos[i].id != todos[j].id
}

/// The position of the first task with the identifier, or the number of tasks where
/// none has it.
pub open spec fn position_of(todos: Seq<TodoModel>, id: Seq<char>) -> int
    decreases todos.len(),
{
    if todos.len() == 0 {
        0
    } else if todos[0].id == id {
        0
    } else {
        1 + position_of(todos.drop_first(), id)
    }
}

/// The tasks with `todo` among them: in the place of the task that has its
/// identifier, or at the end where none has it.
pub open spec fn with_todo(todos: Seq<TodoModel>, todo: TodoModel) -> Seq<TodoModel> {
    let position = position_of(todos, todo.id);
    if position < todos.len() {
        todos.update(position, todo)
    } else {
        todos.push(todo)
    }
}

/// The tasks without the task that has the identifier.
pub open spec fn without_todo(todos: Seq<TodoModel>, id: Seq<char>) -> Seq<TodoModel> {
    let position = position_of(todos, id);
    if position < todos.len() {
        todos.remove(position)
    } else {
        todos
    }
}

/// Whether one of the tasks carries the tag.
pub open spec fn is_tag_of(todos: Seq<TodoModel>, tag: Seq<char>) -> bool {
    exists|i: int| 0 <= i < todos.len() && (#[trigger] todos[i]).tags.contains(tag)
}

/// Whether the task carries one of the tags.
pub open spec fn shares_tag(todo: TodoModel, tags: Seq<Seq<char>>) -> bool {
    exists|i: int| 0 <= i < tags.len() && todo.tags.contains(#[trigger] tags[i])
}

/// Whether the list view shows the task: it shares a tag with the active ones, where
/// there are any, and it is open, where completed tasks are left out.
pub open spec fn is_shown(
    todo: TodoModel,
    active_tags: Seq<Seq<char>>,
    filter_completed: bool,
) -> bool {
    (active_tags.len() == 0 || shares_tag(todo, active_tags)) && (!filter_completed
        || !todo.completed)
}

/// The tasks that the list view shows, in the order of the list.
pub open spec fn visible(
    todos: Seq<TodoModel>,
    active_tags: Seq<Seq<char>>,
    filter_completed: bool,
) -> Seq<TodoModel>
    decreases todos.len(),
{
    if todos.len() == 0 {
        Seq::empty()
    } else if is_shown(todos.last(), active_tags, filter_completed) {
        visible(todos.drop_last(), active_tags, filter_completed).push(todos.last())
    } else {
        visible(todos.drop_last(), active_tags, filter_completed)
    }
}

/// Whether `a` has to stand before `b`: an open task before a completed one; among
/// open tasks, where the list is ordered by priority, the more urgent first, or the
/// less urgent first where that is asked for; in every other case the newer first.
pub open spec fn precedes(a: TodoModel, b: TodoModel, priority_sort: Option<bool>) -> bool {
    if a.completed != b.completed {
        !a.completed
    } else if !a.completed && priority_sort is Some && a.priority.rank() != b.priority.rank() {
        if priority_sort == Some(true) {
            a.priority.rank() > b.priority.rank()
        } else {
            a.priority.rank() < b.priority.rank()
        }
    } else {
        b.created_at.before(a.created_at)
    }
}

/// The place at which `todo` joins tasks that are already in order: behind every
/// task that it need not stand before.
pub open spec fn insert_position(
    ordered: Seq<TodoModel>,
    todo: TodoModel,
    priority_sort: Option<bool>,
) -> int
    decreases ordered.len(),
{
    if ordered.len() == 0 || !precedes(todo, ordered.last(), priority_sort) {
        ordered.len() as int
    } else {
        insert_position(ordered.drop_last(), todo, priority_sort)
    }
}

/// The tasks in the order of the list view. Each task joins those before it at its
/// place, so that tasks of which neither has to stand before the other keep the order
/// they came in.
pub open spec fn arranged(todos: Seq<TodoModel>, priority_sort: Option<bool>) -> Seq<TodoModel>
    decreases todos.len(),
{
    if todos.len() == 0 {
        Seq::empty()
    } else {
        let earlier = arranged(todos.drop_last(), priority_sort);
        earlier.insert(insert_position(earlier, todos.last(), priority_sort), todos.last())
    }
}

/// Whether no task stands behind one that it has to stand before.
pub open spec fn in_order(todos: Seq<TodoModel>, priority_sort: Option<bool>) -> bool {
    forall|i: int, j: int|
        0 <= i < j < todos.len() ==> !precedes(
            #[trigger] todos[j],
            #[trigger] todos[i],
            priority_sort,
        )
}

/// The place of a task lies within the tasks it joins.
pub proof fn lemma_insert_position_bounds(
    ordered: Seq<TodoModel>,
    todo: TodoModel,
    priority_sort: Option<bool>,
)
    ensures
        0 <= insert_position(ordered, todo, priority_sort) <= ordered.len(),
    decreases ordered.len(),
{
    if ordered.len() > 0 && precedes(todo, ordered.last(), priority_sort) {
        lemma_insert_position_bounds(ordered.drop_last(), todo, priority_sort);
    }
}

/// Behind its place a task finds only tasks that it has to stand before, and the task
/// directly before its place is not one of them.
pub proof fn lemma_insert_position_splits(
    ordered: Seq<TodoModel>,
    todo: TodoModel,
    priority_sort: Option<bool>,
)
    ensures
        forall|k: int|
            insert_position(ordered, todo, priority_sort) <= k < ordered.len() ==> precedes(
                todo,
                #[trigger] ordered[k],
                priority_sort,
            ),
        insert_position(ordered, todo, priority_sort) > 0 ==> !precedes(
            todo,
            ordered[insert_position(ordered, todo, priority_sort) - 1],
            priority_sort,
        ),
    decreases ordered.len(),
{
    lemma_insert_position_bounds(ordered, todo, priority_sort);
    if ordered.len() > 0 && precedes(todo, ordered.last(), priority_sort) {
        let front = ordered.drop_last();
        lemma_insert_position_splits(front, todo, priority_sort);
        lemma_insert_position_bounds(front, todo, priority_sort);
        let place = insert_position(front, todo, priority_sort);
        assert forall|k: int| place <= k < ordered.len() implies precedes(
            todo,
            #[trigger] ordered[k],
            priority_sort,
        ) by {
            if k < front.len() {
                assert(ordered[k] == front[k]);
            }
        }
        if place > 0 {
            assert(ordered[place - 1] == front[place - 1]);
        }
    }
}

/// Having to stand before is an order: it never holds both ways, and both it and its
/// opposite are passed on from `a` over `b` to `c`.
pub proof fn lemma_precedes_is_an_order(
    a: TodoModel,
    b: TodoModel,
    c: TodoModel,
    priority_sort: Option<bool>,
)
    ensures
        precedes(a, b, priority_sort) ==> !precedes(b, a, priority_sort),
        precedes(a, b, priority_sort) && precedes(b, c, priority_sort) ==> precedes(
            a,
            c,
            priority_sort,
        ),
        !precedes(a, b, priority_sort) && !precedes(b, c, priority_sort) ==> !precedes(
            a,
            c,
            priority_sort,
        ),
{
}

/// The order of the list view is an order: no task of the arranged tasks stands
/// behind one that it has to stand before, and the arranged tasks are the given tasks,
/// each as often as it was given.
pub proof fn lemma_arranged_in_order(todos: Seq<TodoModel>, priority_sort: Option<bool>)
    ensures
        in_order(arranged(todos, priority_sort), priority_sort),
        arranged(todos, priority_sort).to_multiset() == todos.to_multiset(),
        arranged(todos, priority_sort).len() == todos.len(),
    decreases todos.len(),
{
    broadcast use vstd::seq_lib::group_to_multiset_ensures;

    if todos.len() == 0 {
        assert(arranged(todos, priority_sort).to_multiset() == todos.to_multiset());
    } else {
        let earlier = arranged(todos.drop_last(), priority_sort);
        let todo = todos.last();
        let place = insert_position(earlier, todo, priority_sort);
        let all = earlier.insert(place, todo);
        lemma_arranged_in_order(todos.drop_last(), priority_sort);
        lemma_insert_position_bounds(earlier, todo, priority_sort);
        lemma_insert_position_splits(earlier, todo, priority_sort);
        assert forall|i: int, j: int| 0 <= i < j < all.len() implies !precedes(
            #[trigger] all[j],
            #[trigger] all[i],
            priority_sort,
        ) by {
            if j == place {
                assert(all[i] == earlier[i]);
                if place > 0 {
                    lemma_precedes_is_an_order(todo, earlier[place - 1], earlier[i], priority_sort);
                    if i < place - 1 {
                        assert(!precedes(earlier[place - 1], earlier[i], priority_sort));
                    }
                }
            } else if i == place {
                assert(all[j] == earlier[j - 1]);
                lemma_precedes_is_an_order(todo, earlier[j - 1], todo, priority_sort);
            } else {
                let ei = if i < place { i } else { i - 1 };
                let ej = if j < place { j } else { j - 1 };
                assert(all[i] == earlier[ei]);
                assert(all[j] == earlier[ej]);
            }
        }
        assert(todos.drop_last().push(todo) == todos);
        vstd::seq_lib::to_multiset_insert(earlier, place, todo);
        assert(all.to_multiset() == todos.to_multiset());
    }
}

/// Where the first `n` tasks do not have the identifier, the first task with it is at
/// `n` if the task there has it, and `n` is the number of tasks otherwise.
pub proof fn lemma_position_of(todos: Seq<TodoModel>, id: Seq<char>, n: int)
    requires
        0 <= n <= todos.len(),
        forall|k: int| 0 <= k < n ==> (#[trigger] todos[k]).id != id,
        n < todos.len() ==> todos[n].id == id,
    ensures
        position_of(todos, id) == n,
    decreases n,
{
    if n > 0 {
        lemma_position_of(todos.drop_first(), id, n - 1);
    }
}

/// Putting a task into a list whose identifiers differ leaves them different.
pub proof fn lemma_with_todo_keeps_ids_distinct(todos: Seq<TodoModel>, todo: TodoModel)
    requires
        distinct_ids(todos),
    ensures
        distinct_ids(with_todo(todos, todo)),
{
    lemma_position_is_first(todos, todo.id);
}

/// Taking a task out of a list whose identifiers differ leaves them different, and no
/// task of the list has the identifier any more.
pub proof fn lemma_without_todo_keeps_ids_distinct(todos: Seq<TodoModel>, id: Seq<char>)
    requires
        distinct_ids(todos),
    ensures
        distinct_ids(without_todo(todos, id)),
        forall|k: int|
            0 <= k < without_todo(todos, id).len() ==> (#[trigger] without_todo(todos, id)[k]).id
                != id,
{
    lemma_position_is_first(todos, id);
}

/// The position of an identifier lies within the list or directly behind it, no task
/// before it has the identifier, and the task at it has.
pub proof fn lemma_position_is_first(todos: Seq<TodoModel>, id: Seq<char>)
    ensures
        0 <= position_of(todos, id) <= todos.len(),
        forall|k: int| 0 <= k < position_of(todos, id) ==> (#[trigger] todos[k]).id != id,
        position_of(todos, id) < todos.len() ==> todos[position_of(todos, id)].id == id,
    decreases todos.len(),
{
    if todos.len() > 0 && todos[0].id != id {
        let rest = todos.drop_first();
        lemma_position_is_first(rest, id);
        assert forall|k: int| 0 <= k < position_of(todos, id) implies (#[trigger] todos[k]).id
            != id by {
            if k > 0 {
                assert(todos[k] == rest[k - 1]);
            }
        }
    }
}

/// A sequence with one more element at its end holds what it held before, and that
/// element.
pub proof fn lemma_push_contains<A>(s: Seq<A>, last: A, x: A)
    ensures
        s.push(last).contains(x) <==> (s.contains(x) || x == last),
{
    if s.contains(x) {
        let k = choose|k: int| 0 <= k < s.len() && s[k] == x;
        assert(s.push(last)[k] == x);
    }
    if x == last {
        assert(s.push(last)[s.len() as int] == x);
    }
    if s.push(last).contains(x) {
        let k = choose|k: int| 0 <= k < s.push(last).len() && s.push(last)[k] == x;
        if k < s.len() {
            assert(s[k] == x);
        }
    }
}

/// A tag is carried by one of the tasks up to a task if it is carried by one of the
/// tasks before it or by that task.
pub proof fn lemma_is_tag_of_push(todos: Seq<TodoModel>, last: TodoModel, tag: Seq<char>)
    ensures
        is_tag_of(todos.push(last), tag) <==> (is_tag_of(todos, tag) || last.tags.contains(tag)),
{
    let all = todos.push(last);
    if is_tag_of(todos, tag) {
        let k = choose|k: int| 0 <= k < todos.len() && (#[trigger] todos[k]).tags.contains(tag);
        assert(all[k] == todos[k]);
    }
    if last.tags.contains(tag) {
        assert(all[todos.len() as int] == last);
    }
    if is_tag_of(all, tag) {
        let k = choose|k: int| 0 <= k < all.len() && (#[trigger] all[k]).tags.contains(tag);
        if k < todos.len() {
            assert(todos[k] == all[k]);
        }
    }
}

/// How often `text` stands among `texts`.
pub open spec fn count_in(texts: Seq<Seq<char>>, text: Seq<char>) -> nat
    decreases texts.len(),
{
    if texts.len() == 0 {
        0
    } else if texts.last() == text {
        count_in(texts.drop_last(), text) + 1
    } else {
        count_in(texts.drop_last(), text)
    }
}

/// How often the tasks carry the tag, all told.
pub open spec fn tag_uses(todos: Seq<TodoModel>, tag: Seq<char>) -> nat
    decreases todos.len(),
{
    if todos.len() == 0 {
        0
    } else {
        tag_uses(todos.drop_last(), tag) + count_in(todos.last().tags, tag)
    }
}

/// A count as the machine holds it: the largest number it can hold stands for every
/// count beyond it.
pub open spec fn capped(count: nat) -> usize {
    if count > usize::MAX {
        usize::MAX
    } else {
        count as usize
    }
}

/// Whether an entry of the tag statistics ranks before another: the tag with more
/// uses first, and of two tags with the same uses the one that comes first in the
/// order of strings.
pub open spec fn ranks_before(a: (Seq<char>, usize), b: (Seq<char>, usize)) -> bool {
    a.1 > b.1 || (a.1 == b.1 && a.0 != b.0 && text_le(a.0, b.0))
}

/// Whether the statistics have an entry for the tag.
pub open spec fn lists_tag(counts: Seq<(Seq<char>, usize)>, tag: Seq<char>) -> bool {
    exists|i: int| 0 <= i < counts.len() && (#[trigger] counts[i]).0 == tag
}

/// Whether the entries are the statistics of the first `k` names: each entry holds
/// one of these names with the number of its uses, each of these names has its entry,
/// and the entries stand in their order.
pub open spec fn statistics_so_far(
    counts: Seq<(Seq<char>, usize)>,
    names: Seq<Seq<char>>,
    k: int,
    todos: Seq<TodoModel>,
) -> bool {
    &&& forall|i: int|
        0 <= i < counts.len() ==> (#[trigger] counts[i]).1 == capped(
            tag_uses(todos, counts[i].0),
        ) && counts[i].1 > 0
    &&& forall|i: int|
        0 <= i < counts.len() ==> exists|m: int|
            0 <= m < k && #[trigger] names[m] == (#[trigger] counts[i]).0
    &&& forall|m: int| 0 <= m < k ==> lists_tag(counts, #[trigger] names[m])
    &&& forall|i: int, j: int|
        0 <= i < j < counts.len() ==> ranks_before(#[trigger] counts[i], #[trigger] counts[j])
}

/// The statistics of the first `k` names become those of the first `k + 1` when the
/// next name joins with its uses behind every entry that has at least as many.
pub proof fn lemma_statistics_grow(
    before: Seq<(Seq<char>, usize)>,
    names: Seq<Seq<char>>,
    k: int,
    todos: Seq<TodoModel>,
    j: int,
    uses: usize,
)
    requires
        0 <= k < names.len(),
        ascending(names),
        names.no_duplicates(),
        statistics_so_far(before, names, k, todos),
        uses == capped(tag_uses(todos, names[k])),
        uses > 0,
        0 <= j <= before.len(),
        forall|p: int| j <= p < before.len() ==> (#[trigger] before[p]).1 < uses,
        j > 0 ==> before[j - 1].1 >= uses,
    ensures
        statistics_so_far(before.insert(j, (names[k], uses)), names, k + 1, todos),
{
    let entry = (names[k], uses);
    let after = before.insert(j, entry);
    assert forall|i: int| 0 <= i < after.len() implies (#[trigger] after[i]).1 == capped(
        tag_uses(todos, after[i].0),
    ) && after[i].1 > 0 by {
        if i < j {
            assert(after[i] == before[i]);
        } else if i > j {
            assert(after[i] == before[i - 1]);
        }
    }
    assert forall|i: int| 0 <= i < after.len() implies exists|m: int|
        0 <= m < k + 1 && #[trigger] names[m] == (#[trigger] after[i]).0 by {
        if i < j {
            assert(after[i] == before[i]);
            let m = choose|m: int| 0 <= m < k && #[trigger] names[m] == before[i].0;
            assert(names[m] == after[i].0);
        } else if i == j {
            assert(names[k] == after[i].0);
        } else {
            assert(after[i] == before[i - 1]);
            let m = choose|m: int| 0 <= m < k && #[trigger] names[m] == before[i - 1].0;
            assert(names[m] == after[i].0);
        }
    }
    assert forall|m: int| 0 <= m < k + 1 implies lists_tag(after, #[trigger] names[m]) by {
        if m == k {
            assert(after[j].0 == names[m]);
        } else {
            assert(lists_tag(before, names[m]));
            let i = choose|i: int| 0 <= i < before.len() && (#[trigger] before[i]).0 == names[m];
            if i < j {
                assert(after[i] == before[i]);
            } else {
                assert(after[i + 1] == before[i]);
            }
        }
    }
    assert forall|a: int, b: int| 0 <= a < b < after.len() implies ranks_before(
        #[trigger] after[a],
        #[trigger] after[b],
    ) by {
        if b == j {
            assert(after[a] == before[a]);
            assert(before[j - 1].1 >= uses);
            if a < j - 1 {
                assert(ranks_before(before[a], before[j - 1]));
            }
            let m = choose|m: int| 0 <= m < k && #[trigger] names[m] == before[a].0;
            assert(text_le(names[m], names[k]));
            assert(names[m] != names[k]);
        } else if a == j {
            assert(after[b] == before[b - 1]);
        } else {
            let ea = if a < j { a } else { a - 1 };
            let eb = if b < j { b } else { b - 1 };
            assert(after[a] == before[ea]);
            assert(after[b] == before[eb]);
        }
    }
}

/// A text that is among the texts is counted at least once.
pub proof fn lemma_count_in_positive(texts: Seq<Seq<char>>, text: Seq<char>)
    requires
        texts.contains(text),
    ensures
        count_in(texts, text) > 0,
    decreases texts.len(),
{
    if texts.len() > 0 && texts.last() != text {
        let k = choose|k: int| 0 <= k < texts.len() && texts[k] == text;
        assert(texts.drop_last()[k] == text);
        lemma_count_in_positive(texts.drop_last(), text);
    }
}

/// A tag that one of the tasks carries is used at least once.
pub proof fn lemma_tag_uses_positive(todos: Seq<TodoModel>, tag: Seq<char>)
    requires
        is_tag_of(todos, tag),
    ensures
        tag_uses(todos, tag) > 0,
    decreases todos.len(),
{
    let k = choose|k: int| 0 <= k < todos.len() && (#[trigger] todos[k]).tags.contains(tag);
    if k == todos.len() - 1 {
        lemma_count_in_positive(todos.last().tags, tag);
    } else {
        assert(todos.drop_last()[k] == todos[k]);
        lemma_tag_uses_positive(todos.drop_last(), tag);
    }
}

/// Tells whether `text` is among `texts`.
pub fn contains_text(texts: &Vec<String>, text: &str) -> (found: bool)
    ensures
        found == texts.deep_view().contains(text@),
{
    let mut i: usize = 0;
    while i < texts.len()
        invariant
            i <= texts.len(),
            forall|k: int| 0 <= k < i ==> texts.deep_view()[k] != text@,
        decreases texts.len() - i,
    {
        if same_text(texts[i].as_str(), text) {
            assert(texts.deep_view()[i as int] == text@);
            return true;
        }
        i = i + 1;
    }
    false
}

/// Tells whether `a` has to stand before `b` in the list view.
pub fn comes_before(a: &Todo, b: &Todo, priority_sort: Option<bool>) -> (first: bool)
    ensures
        first == precedes(a@, b@, priority_sort),
{
    if a.completed != b.completed {
        return !a.completed;
    }
    if !a.completed {
        match priority_sort {
            Some(high_to_low) => {
                let rank_a = priority_to_number(&a.priority);
                let rank_b = priority_to_number(&b.priority);
                if rank_a != rank_b {
                    return if high_to_low {
                        rank_a > rank_b
                    } else {
                        rank_a < rank_b
                    };
                }
            },
            None => {},
        }
    }
    b.created_at.is_before(&a.created_at)
}

impl Default for TodoList {
    /// The empty list: no tasks, no active tags, completed tasks shown, newest first.
    fn default() -> (list: TodoList)
        ensures
            list@.todos.len() == 0,
            list@.active_tags.len() == 0,
            !list@.filter_completed,
            list@.priority_sort is None,
    {
        TodoList {
            todos: Vec::new(),
            active_tags: Vec::new(),
            filter_completed: false,
            priority_sort: None,
        }
    }
}

impl TodoList {
    /// Returns the position of the task with the identifier, or the number of tasks
    /// where no task has it.
    pub fn find(&self, id: &str) -> (position: usize)
        ensures
            position == position_of(self@.todos, id@),
            position <= self.todos.len(),
            position < self.todos.len() ==> self.todos[position as int]@.id == id@,
    {
        let mut i: usize = 0;
        while i < self.todos.len()
            invariant
                i <= self.todos.len(),
                forall|k: int| 0 <= k < i ==> (#[trigger] self.todos.deep_view()[k]).id != id@,
            decreases self.todos.len() - i,
        {
            if same_text(self.todos[i].id.as_str(), id) {
                proof {
                    lemma_position_of(self.todos.deep_view(), id@, i as int);
                }
                return i;
            }
            i = i + 1;
        }
        proof {
            lemma_position_of(self.todos.deep_view(), id@, i as int);
        }
        i
    }

    /// Tells whether a task has the identifier.
    pub fn contains(&self, id: &str) -> (found: bool)
        ensures
            found == (position_of(self@.todos, id@) < self@.todos.len()),
    {
        self.find(id) < self.todos.len()
    }

    /// Puts a task into the list. A task with the same identifier is replaced in its
    /// place; otherwise the task joins at the end.
    pub fn add_todo(&mut self, todo: Todo)
        ensures
            final(self)@ == (TodoListModel {
                todos: with_todo(old(self)@.todos, todo@),
                ..old(self)@
            }),
            distinct_ids(old(self)@.todos) ==> distinct_ids(final(self)@.todos),
    {
        proof {
            if distinct_ids(self@.todos) {
                lemma_with_todo_keeps_ids_distinct(self@.todos, todo@);
            }
        }
        let position = self.find(todo.id.as_str());
        let ghost before = self.todos.deep_view();
        if position < self.todos.len() {
            self.todos.set(position, todo);
            assert(self.todos.deep_view() == before.update(position as int, todo@));
        } else {
            self.todos.push(todo);
            assert(self.todos.deep_view() == before.push(todo@));
        }
    }

    /// Takes the task with the identifier out of the list, if there is one.
    pub fn remove_todo(&mut self, id: &str)
        ensures
            final(self)@ == (TodoListModel {
                todos: without_todo(old(self)@.todos, id@),
                ..old(self)@
            }),
            distinct_ids(old(self)@.todos) ==> distinct_ids(final(self)@.todos),
    {
        proof {
            if distinct_ids(self@.todos) {
                lemma_without_todo_keeps_ids_distinct(self@.todos, id@);
            }
        }
        let position = self.find(id);
        let ghost before = self.todos.deep_view();
        if position < self.todos.len() {
            self.todos.remove(position);
            assert(self.todos.deep_view() == before.remove(position as int));
        }
    }

    /// Returns every tag that a task carries, each once, in ascending order.
    pub fn all_tags(&self) -> (tags: Vec<String>)
        ensures
            ascending(tags.deep_view()),
            tags.deep_view().no_duplicates(),
            forall|tag: Seq<char>| tags.deep_view().contains(tag) <==> is_tag_of(self@.todos, tag),
    {
        let mut tags: Vec<String> = Vec::new();
        let mut i: usize = 0;
        while i < self.todos.len()
            invariant
                i <= self.todos.len(),
                tags.deep_view().no_duplicates(),
                forall|tag: Seq<char>|
                    tags.deep_view().contains(tag) <==> is_tag_of(
                        self.todos.deep_view().take(i as int),
                        tag,
                    ),
            decreases self.todos.len() - i,
        {
            let todo = &self.todos[i];
            let ghost done = self.todos.deep_view().take(i as int);
            let mut j: usize = 0;
            while j < todo.tags.len()
                invariant
                    i < self.todos.len(),
                    todo == &self.todos[i as int],
                    done == self.todos.deep_view().take(i as int),
                    j <= todo.tags.len(),
                    tags.deep_view().no_duplicates(),
                    forall|tag: Seq<char>|
                        tags.deep_view().contains(tag) <==> (is_tag_of(done, tag)
                            || todo.tags.deep_view().take(j as int).contains(tag)),
                decreases todo.tags.len() - j,
            {
                let ghost before = tags.deep_view();
                let ghost seen = todo.tags.deep_view().take(j as int);
                let ghost next = todo.tags.deep_view().take(j + 1);
                let ghost tag = todo.tags[j as int]@;
                assert(next == seen.push(tag));
                if !contains_text(&tags, todo.tags[j].as_str()) {
                    tags.push(todo.tags[j].clone());
                    assert(tags.deep_view() == before.push(tag));
                    assert forall|other: Seq<char>|
                        tags.deep_view().contains(other) <==> (is_tag_of(done, other)
                            || next.contains(other)) by {
                        lemma_push_contains(before, tag, other);
                        lemma_push_contains(seen, tag, other);
                    }
                } else {
                    assert(before.contains(tag));
                    assert forall|other: Seq<char>|
                        tags.deep_view().contains(other) <==> (is_tag_of(done, other)
                            || next.contains(other)) by {
                        lemma_push_contains(seen, tag, other);
                        assert(before.contains(other) <==> (is_tag_of(done, other) || seen.contains(
                            other,
                        )));
                    }
                }
                j = j + 1;
            }
            proof {
                let after = self.todos.deep_view().take(i + 1);
                assert(todo.tags.deep_view().take(j as int) == todo.tags.deep_view());
                assert(after == done.push(todo@));
                assert forall|tag: Seq<char>|
                    tags.deep_view().contains(tag) <==> is_tag_of(after, tag) by {
                    lemma_is_tag_of_push(done, todo@, tag);
                }
            }
            i = i + 1;
        }
        assert(self.todos.deep_view().take(i as int) == self.todos.deep_view());
        let ghost unsorted = tags.deep_view();
        sort_strings(&mut tags);
        proof {
            broadcast use vstd::seq_lib::group_to_multiset_ensures;

            unsorted.lemma_multiset_has_no_duplicates();
            tags.deep_view().lemma_multiset_has_no_duplicates_conv();
            assert forall|tag: Seq<char>|
                tags.deep_view().contains(tag) <==> is_tag_of(self@.todos, tag) by {
                assert(unsorted.contains(tag) <==> is_tag_of(self@.todos, tag));
                assert(tags.deep_view().contains(tag) <==> tags.deep_view().to_multiset().count(tag)
                    > 0);
                assert(unsorted.contains(tag) <==> unsorted.to_multiset().count(tag) > 0);
            }
        }
        tags
    }

    /// Returns how often the tasks carry the tag, all told.
    pub fn count_tag(&self, tag: &str) -> (count: usize)
        ensures
            count == capped(tag_uses(self@.todos, tag@)),
    {
        let mut count: usize = 0;
        let mut i: usize = 0;
        assert(self.todos.deep_view().take(0) == Seq::<TodoModel>::empty());
        while i < self.todos.len()
            invariant
                i <= self.todos.len(),
                count == capped(tag_uses(self.todos.deep_view().take(i as int), tag@)),
            decreases self.todos.len() - i,
        {
            let todo = &self.todos[i];
            let ghost earlier = tag_uses(self.todos.deep_view().take(i as int), tag@);
            proof {
                let next = self.todos.deep_view().take(i + 1);
                assert(next.drop_last() == self.todos.deep_view().take(i as int));
                assert(next.last() == todo@);
            }
            let mut j: usize = 0;
            assert(todo.tags.deep_view().take(0) == Seq::<Seq<char>>::empty());
            while j < todo.tags.len()
                invariant
                    j <= todo.tags.len(),
                    count == capped(earlier + count_in(todo.tags.deep_view().take(j as int), tag@)),
                decreases todo.tags.len() - j,
            {
                proof {
                    let next = todo.tags.deep_view().take(j + 1);
                    assert(next.drop_last() == todo.tags.deep_view().take(j as int));
                    assert(next.last() == todo.tags[j as int]@);
                }
                if same_text(todo.tags[j].as_str(), tag) && count < usize::MAX {
                    count = count + 1;
                }
                j = j + 1;
            }
            assert(todo.tags.deep_view().take(j as int) == todo.tags.deep_view());
            i = i + 1;
        }
        assert(self.todos.deep_view().take(i as int) == self.todos.deep_view());
        count
    }

    /// Returns the tag statistics: every tag that a task carries with the number of
    /// its uses, the tag with the most uses first, tags with the same uses in
    /// ascending order.
    pub fn tag_counts(&self) -> (counts: Vec<(String, usize)>)
        ensures
            forall|i: int|
                0 <= i < counts.len() ==> (#[trigger] counts.deep_view()[i]).1 == capped(
                    tag_uses(self@.todos, counts.deep_view()[i].0),
                ) && counts.deep_view()[i].1 > 0,
            forall|tag: Seq<char>|
                is_tag_of(self@.todos, tag) ==> lists_tag(counts.deep_view(), tag),
            forall|i: int, j: int|
                0 <= i < j < counts.len() ==> ranks_before(
                    #[trigger] counts.deep_view()[i],
                    #[trigger] counts.deep_view()[j],
                ),
    {
        let names = self.all_tags();
        let mut counts: Vec<(String, usize)> = Vec::new();
        let mut k: usize = 0;
        while k < names.len()
            invariant
                k <= names.len(),
                ascending(names.deep_view()),
                names.deep_view().no_duplicates(),
                forall|tag: Seq<char>|
                    names.deep_view().contains(tag) <==> is_tag_of(self@.todos, tag),
                statistics_so_far(counts.deep_view(), names.deep_view(), k as int, self@.todos),
            decreases names.len() - k,
        {
            let uses = self.count_tag(names[k].as_str());
            let ghost before = counts.deep_view();
            proof {
                assert(names.deep_view()[k as int] == names[k as int]@);
                assert(names.deep_view().contains(names[k as int]@));
                lemma_tag_uses_positive(self@.todos, names[k as int]@);
            }
            let mut j: usize = counts.len();
            while j > 0 && counts[j - 1].1 < uses
                invariant
                    j <= counts.len(),
                    before == counts.deep_view(),
                    forall|p: int| j <= p < counts.len() ==> (#[trigger] before[p]).1 < uses,
                decreases j,
            {
                j = j - 1;
            }
            counts.insert(j, (names[k].clone(), uses));
            proof {
                assert(counts.deep_view() == before.insert(j as int, (names[k as int]@, uses)));
                lemma_statistics_grow(
                    before,
                    names.deep_view(),
                    k as int,
                    self@.todos,
                    j as int,
                    uses,
                );
            }
            k = k + 1;
        }
        proof {
            assert forall|tag: Seq<char>| is_tag_of(self@.todos, tag) implies lists_tag(
                counts.deep_view(),
                tag,
            ) by {
                assert(names.deep_view().contains(tag));
                let m = choose|m: int|
                    0 <= m < names.deep_view().len() && names.deep_view()[m] == tag;
                assert(lists_tag(counts.deep_view(), names.deep_view()[m]));
            }
        }
        counts
    }

    /// Tells whether the task carries one of the active tags.
    fn has_active_tag(&self, todo: &Todo) -> (shared: bool)
        ensures
            shared == shares_tag(todo@, self@.active_tags),
    {
        let mut i: usize = 0;
        while i < self.active_tags.len()
            invariant
                i <= self.active_tags.len(),
                forall|k: int|
                    0 <= k < i ==> !todo@.tags.contains(#[trigger] self.active_tags.deep_view()[k]),
            decreases self.active_tags.len() - i,
        {
            if contains_text(&todo.tags, self.active_tags[i].as_str()) {
                assert(todo@.tags.contains(self.active_tags.deep_view()[i as int]));
                return true;
            }
            i = i + 1;
        }
        false
    }

    /// Tells whether the list view shows the task.
    pub fn shows(&self, todo: &Todo) -> (shown: bool)
        ensures
            shown == is_shown(todo@, self@.active_tags, self@.filter_completed),
    {
        (self.active_tags.len() == 0 || self.has_active_tag(todo)) && (!self.filter_completed
            || !todo.completed)
    }

    /// Returns the tasks that the list view shows, in its order: open tasks before
    /// completed ones; open tasks by priority where that is switched on; otherwise,
    /// and among tasks of one priority, the newest first.
    pub fn filtered_todos(&self) -> (shown: Vec<&Todo>)
        ensures
            models(shown@) == arranged(
                visible(self@.todos, self@.active_tags, self@.filter_completed),
                self@.priority_sort,
            ),
    {
        let mut shown: Vec<&Todo> = Vec::new();
        let mut i: usize = 0;
        let ghost all = self.todos.deep_view();
        let ghost active = self@.active_tags;
        let ghost open_only = self.filter_completed;
        let ghost order = self.priority_sort;
        assert(all.take(0) == Seq::<TodoModel>::empty());
        assert(models(shown@) == Seq::<TodoModel>::empty());
        while i < self.todos.len()
            invariant
                i <= self.todos.len(),
                all == self.todos.deep_view(),
                active == self@.active_tags,
                open_only == self.filter_completed,
                order == self.priority_sort,
                models(shown@) == arranged(visible(all.take(i as int), active, open_only), order),
            decreases self.todos.len() - i,
        {
            let todo = &self.todos[i];
            proof {
                let next = all.take(i + 1);
                assert(next.drop_last() == all.take(i as int));
                assert(next.last() == todo@);
            }
            if self.shows(todo) {
                let ghost earlier = models(shown@);
                let mut j: usize = shown.len();
                assert(earlier.take(j as int) == earlier);
                while j > 0 && comes_before(todo, shown[j - 1], self.priority_sort)
                    invariant
                        j <= shown.len(),
                        earlier == models(shown@),
                        order == self.priority_sort,
                        insert_position(earlier, todo@, order) == insert_position(
                            earlier.take(j as int),
                            todo@,
                            order,
                        ),
                    decreases j,
                {
                    assert(earlier.take(j as int).drop_last() == earlier.take(j - 1));
                    assert(earlier.take(j as int).last() == shown[j - 1]@);
                    j = j - 1;
                }
                proof {
                    if j > 0 {
                        assert(earlier.take(j as int).last() == shown[j - 1]@);
                    }
                    let kept = visible(all.take(i as int), active, open_only);
                    assert(kept.push(todo@).drop_last() == kept);
                }
                shown.insert(j, todo);
                assert(models(shown@) == earlier.insert(j as int, todo@));
            }
            i = i + 1;
        }
        assert(all.take(i as int) == all);
        shown
    }
}

} // verus!
