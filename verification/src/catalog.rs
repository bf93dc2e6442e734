//! The catalog of billable tasks, and the time accumulated on each.

use vstd::prelude::*;
use crate::entry::{entry_views, text_view, TimeEntry, TimeEntryView};
use crate::error::{Field, ReportError, SchemaError};

verus! {

/// A task as it was fetched: each field is present only if the response
/// carried it as text.
#[derive(Clone, Debug)]
pub struct RawTask {
    /// The task's identifier.
    pub id: Option<String>,
    /// The task's human-facing billing code.
    pub custom_id: Option<String>,
    /// The task's name.
    pub name: Option<String>,
    /// The identifier of the list that owns the task.
    pub list_id: Option<String>,
}

/// What a [`RawTask`] holds.
pub struct RawTaskView {
    pub id: Option<Seq<char>>,
    pub custom_id: Option<Seq<char>>,
    pub name: Option<Seq<char>>,
    pub list_id: Option<Seq<char>>,
}

impl View for RawTask {
    type V = RawTaskView;

    open spec fn view(&self) -> RawTaskView {
        RawTaskView {
            id: text_view(self.id),
            custom_id: text_view(self.custom_id),
            name: text_view(self.name),
            list_id: text_view(self.list_id),
        }
    }
}

/// A billable task and the time tracked on it so far.
#[derive(Clone, Debug)]
pub struct Task {
    /// The task's identifier, by which time entries refer to it.
    pub id: String,
    /// The task's human-facing billing code.
    pub custom_id: String,
    /// The task's name.
    pub name: String,
    /// The identifier of the list that owns the task.
    pub list_id: String,
    /// The time accumulated on the task, in milliseconds.
    pub duration_millis: i64,
}

/// What a [`Task`] holds.
pub struct TaskView {
    pub id: Seq<char>,
    pub custom_id: Seq<char>,
    pub name: Seq<char>,
    pub list_id: Seq<char>,
    pub duration: int,
}

impl View for Task {
    type V = TaskView;

    open spec fn view(&self) -> TaskView {
        TaskView {
            id: self.id@,
            custom_id: self.custom_id@,
            name: self.name@,
            list_id: self.list_id@,
            duration: self.duration_millis as int,
        }
    }
}

/// The views of a list of tasks, in order.
pub open spec fn task_views(tasks: Seq<Task>) -> Seq<TaskView> {
    tasks.map_values(|task: Task| task@)
}

/// The views of a list of fetched tasks, in order.
pub open spec fn raw_task_views(raws: Seq<RawTask>) -> Seq<RawTaskView> {
    raws.map_values(|raw: RawTask| raw@)
}

/// The task that a fetched record states, with no time on it yet, or what
/// is wrong with the record. The fields are looked at in the order
/// identifier, billing code, name, list.
pub open spec fn task_of(raw: RawTaskView) -> Result<TaskView, SchemaError> {
    match (raw.id, raw.custom_id, raw.name, raw.list_id) {
        (None, _, _, _) => Err(SchemaError::Absent(Field::TaskId)),
        (Some(_), None, _, _) => Err(SchemaError::Absent(Field::TaskCustomId)),
        (Some(_), Some(_), None, _) => Err(SchemaError::Absent(Field::TaskName)),
        (Some(_), Some(_), Some(_), None) => Err(SchemaError::Absent(Field::TaskListId)),
        (Some(id), Some(custom_id), Some(name), Some(list_id)) => Ok(
            TaskView { id, custom_id, name, list_id, duration: 0 },
        ),
    }
}

/// Reads a fetched task.
pub fn parse_task(raw: &RawTask) -> (r: Result<Task, SchemaError>)
    ensures
        match r {
            Ok(task) => task_of(raw@) == Ok::<TaskView, SchemaError>(task@),
            Err(e) => task_of(raw@) == Err::<TaskView, SchemaError>(e),
        },
{
    let id = match &raw.id {
        Some(id) => id.clone(),
        None => {
            return Err(SchemaError::Absent(Field::TaskId));
        },
    };
    let custom_id = match &raw.custom_id {
        Some(custom_id) => custom_id.clone(),
        None => {
            return Err(SchemaError::Absent(Field::TaskCustomId));
        },
    };
    let name = match &raw.name {
        Some(name) => name.clone(),
        None => {
            return Err(SchemaError::Absent(Field::TaskName));
        },
    };
    let list_id = match &raw.list_id {
        Some(list_id) => list_id.clone(),
        None => {
            return Err(SchemaError::Absent(Field::TaskListId));
        },
    };
    Ok(Task { id, custom_id, name, list_id, duration_millis: 0 })
}

/// Where the task with identifier `id` stands in `tasks`: the place of the
/// first such task, or nothing where there is none.
pub open spec fn find(tasks: Seq<TaskView>, id: Seq<char>) -> Option<int>
    decreases tasks.len(),
{
    if tasks.len() == 0 {
        None
    } else {
        match find(tasks.drop_last(), id) {
            Some(i) => Some(i),
            None => if tasks.last().id == id {
                Some(tasks.len() - 1)
            } else {
                None
            },
        }
    }
}

/// Whether no two of `tasks` share an identifier.
pub open spec fn distinct_ids(tasks: Seq<TaskView>) -> bool {
    forall|i: int, j: int|
        0 <= i < j < tasks.len() ==> (#[trigger] tasks[i]).id != (#[trigger] tasks[j]).id
}

/// The identifiers of `tasks`.
pub open spec fn ids_of(tasks: Seq<TaskView>) -> Set<Seq<char>> {
    Set::new(|id: Seq<char>| find(tasks, id) is Some)
}

/// [`find`] returns the first place at which the identifier stands, and
/// nothing exactly when it stands nowhere.
pub proof fn lemma_find(tasks: Seq<TaskView>, id: Seq<char>)
    ensures
        match find(tasks, id) {
            Some(i) => 0 <= i < tasks.len() && tasks[i].id == id && forall|j: int|
                0 <= j < i ==> (#[trigger] tasks[j]).id != id,
            None => forall|j: int| 0 <= j < tasks.len() ==> (#[trigger] tasks[j]).id != id,
        },
    decreases tasks.len(),
{
    if tasks.len() > 0 {
        lemma_find(tasks.drop_last(), id);
        assert forall|j: int| 0 <= j < tasks.len() - 1 implies tasks.drop_last()[j] == tasks[j] by {}
        match find(tasks.drop_last(), id) {
            Some(i) => {
                assert forall|j: int| 0 <= j < i implies (#[trigger] tasks[j]).id != id by {
                    assert(tasks.drop_last()[j].id != id);
                }
            },
            None => {
                assert forall|j: int| 0 <= j < tasks.len() - 1 implies (#[trigger] tasks[j]).id
                    != id by {
                    assert(tasks.drop_last()[j].id != id);
                }
            },
        }
    }
}

/// `tasks` with `task` put in: in place of the task with the same
/// identifier where there is one, at the end otherwise.
pub open spec fn upsert(tasks: Seq<TaskView>, task: TaskView) -> Seq<TaskView> {
    match find(tasks, task.id) {
        Some(i) => tasks.update(i, task),
        None => tasks.push(task),
    }
}

/// The catalog that a batch of tasks makes, put in one after the other: each
/// identifier once, with the data of the last task that has it.
pub open spec fn catalog_of(tasks: Seq<TaskView>) -> Seq<TaskView>
    decreases tasks.len(),
{
    if tasks.len() == 0 {
        Seq::empty()
    } else {
        upsert(catalog_of(tasks.drop_last()), tasks.last())
    }
}

/// Putting a task into a list without repeated identifiers leaves it
/// without them, and makes the task the one found under its identifier.
pub proof fn lemma_upsert(tasks: Seq<TaskView>, task: TaskView)
    requires
        distinct_ids(tasks),
    ensures
        distinct_ids(upsert(tasks, task)),
        find(upsert(tasks, task), task.id) is Some,
        upsert(tasks, task)[find(upsert(tasks, task), task.id).unwrap()] == task,
        forall|id: Seq<char>|
            id != task.id ==> #[trigger] find(upsert(tasks, task), id) == find(tasks, id),
        forall|id: Seq<char>|
            id != task.id ==> (#[trigger] find(tasks, id) matches Some(i) ==> upsert(
                tasks,
                task,
            )[i] == tasks[i]),
{
    let after = upsert(tasks, task);
    lemma_find(tasks, task.id);
    lemma_find(after, task.id);
    match find(tasks, task.id) {
        Some(i) => {
            assert(after[i] == task);
        },
        None => {
            assert(after[tasks.len() as int] == task);
        },
    }
    assert forall|id: Seq<char>| id != task.id implies #[trigger] find(after, id) == find(
        tasks,
        id,
    ) by {
        lemma_find(tasks, id);
        lemma_find(after, id);
        match find(tasks, id) {
            Some(i) => {
                assert(after[i].id == id);
            },
            None => {},
        }
    }
    assert forall|id: Seq<char>| id != task.id implies (#[trigger] find(tasks, id) matches Some(
        i,
    ) ==> after[i] == tasks[i]) by {
        lemma_find(tasks, id);
    }
}

/// The last of `tasks` that has identifier `id`, or nothing where none has.
pub open spec fn latest(tasks: Seq<TaskView>, id: Seq<char>) -> Option<TaskView>
    decreases tasks.len(),
{
    if tasks.len() == 0 {
        None
    } else if tasks.last().id == id {
        Some(tasks.last())
    } else {
        latest(tasks.drop_last(), id)
    }
}

/// The catalog of a batch has no identifier twice, and holds under each
/// identifier of the batch the last task that has it, and nothing under any
/// other.
pub proof fn law_catalog_holds_latest(tasks: Seq<TaskView>, id: Seq<char>)
    ensures
        distinct_ids(catalog_of(tasks)),
        match latest(tasks, id) {
            Some(task) => find(catalog_of(tasks), id) matches Some(i) && catalog_of(tasks)[i]
                == task,
            None => find(catalog_of(tasks), id) is None,
        },
    decreases tasks.len(),
{
    if tasks.len() > 0 {
        law_catalog_holds_latest(tasks.drop_last(), id);
        lemma_upsert(catalog_of(tasks.drop_last()), tasks.last());
    }
}

/// The time that `entries` hold for the tasks whose identifier is in `ids`:
/// the sum of the durations of the entries that refer to one of them.
pub open spec fn duration_in(entries: Seq<TimeEntryView>, ids: Set<Seq<char>>) -> int
    decreases entries.len(),
{
    if entries.len() == 0 {
        0
    } else {
        duration_in(entries.drop_last(), ids) + if ids.contains(entries.last().task_id) {
            entries.last().duration
        } else {
            0
        }
    }
}

/// The time that `entries` hold in all: the sum of their durations.
pub open spec fn total_duration(entries: Seq<TimeEntryView>) -> int {
    duration_in(entries, Set::full())
}

/// The time that `entries` hold for the tasks of a catalog.
pub open spec fn billable_duration(entries: Seq<TimeEntryView>, tasks: Seq<TaskView>) -> int {
    duration_in(entries, ids_of(tasks))
}

/// The time that `entries` hold for the task with identifier `id`.
pub open spec fn task_duration(entries: Seq<TimeEntryView>, id: Seq<char>) -> int {
    duration_in(entries, set![id])
}

/// `tasks` after `entries` were counted: each task's time grown by what the
/// entries hold for it, and nothing else changed.
pub open spec fn accumulate(tasks: Seq<TaskView>, entries: Seq<TimeEntryView>) -> Seq<TaskView> {
    Seq::new(
        tasks.len(),
        |i: int|
            TaskView {
                duration: tasks[i].duration + task_duration(entries, tasks[i].id),
                ..tasks[i]
            },
    )
}

/// Whether `n` fits in an `i64`.
pub open spec fn in_i64(n: int) -> bool {
    i64::MIN <= n <= i64::MAX
}

/// Whether counting `entries` into `tasks` stays within 64 bits: the two
/// totals of the entries and every task's time afterwards.
pub open spec fn countable(tasks: Seq<TaskView>, entries: Seq<TimeEntryView>) -> bool {
    &&& in_i64(total_duration(entries))
    &&& in_i64(billable_duration(entries, tasks))
    &&& forall|i: int|
        0 <= i < tasks.len() ==> in_i64(
            (#[trigger] tasks[i]).duration + task_duration(entries, tasks[i].id),
        )
}

/// Whether every duration in `entries` fits in an `i64`.
pub open spec fn bounded(entries: Seq<TimeEntryView>) -> bool {
    forall|i: int| 0 <= i < entries.len() ==> in_i64((#[trigger] entries[i]).duration)
}

/// The time that `n` entries hold for any tasks is at most `n` times the
/// largest `i64` away from zero.
pub proof fn lemma_duration_in_bounds(entries: Seq<TimeEntryView>, ids: Set<Seq<char>>)
    requires
        bounded(entries),
    ensures
        -entries.len() * 0x8000_0000_0000_0000 <= duration_in(entries, ids) <= entries.len()
            * 0x8000_0000_0000_0000,
    decreases entries.len(),
{
    if entries.len() > 0 {
        assert(in_i64(entries[entries.len() - 1].duration));
        assert forall|i: int| 0 <= i < entries.len() - 1 implies in_i64(
            (#[trigger] entries.drop_last()[i]).duration,
        ) by {
            assert(in_i64(entries[i].duration));
        }
        lemma_duration_in_bounds(entries.drop_last(), ids);
    }
}

/// The totals of one batch of time entries.
#[derive(Clone, Copy, Debug, PartialEq, Eq, Structural)]
pub struct Totals {
    /// The time of all entries, in milliseconds.
    pub total: i64,
    /// The time of the entries that refer to a task of the catalog, in
    /// milliseconds.
    pub billable: i64,
}

/// Whether `e` is what is wrong with the first of `raws` that is no task.
pub open spec fn first_bad_task(raws: Seq<RawTaskView>, e: SchemaError) -> bool {
    exists|i: int|
        0 <= i < raws.len() && #[trigger] task_of(raws[i]) == Err::<TaskView, SchemaError>(e)
            && forall|j: int| 0 <= j < i ==> (#[trigger] task_of(raws[j])) is Ok
}

/// The tasks that well-formed fetched records state, in order.
pub open spec fn stated_tasks(raws: Seq<RawTaskView>) -> Seq<TaskView> {
    raws.map_values(|raw: RawTaskView| task_of(raw)->Ok_0)
}

/// The billable tasks of one run, each under its identifier, in the order
/// in which they were first fetched.
#[derive(Debug)]
pub struct TaskCatalog {
    tasks: Vec<Task>,
}

impl View for TaskCatalog {
    type V = Seq<TaskView>;

    closed spec fn view(&self) -> Seq<TaskView> {
        task_views(self.tasks@)
    }
}

impl TaskCatalog {
    /// Whether the catalog is well formed: no identifier occurs twice.
    pub open spec fn wf(&self) -> bool {
        distinct_ids(self@)
    }

    /// A catalog without tasks.
    pub fn new() -> (catalog: TaskCatalog)
        ensures
            catalog@ == Seq::<TaskView>::empty(),
            catalog.wf(),
    {
        let catalog = TaskCatalog { tasks: Vec::new() };
        assert(catalog@ =~= Seq::<TaskView>::empty());
        catalog
    }

    /// The number of tasks.
    pub fn len(&self) -> (n: usize)
        ensures
            n == self@.len(),
    {
        self.tasks.len()
    }

    /// The task at place `i`.
    pub fn get(&self, i: usize) -> (task: &Task)
        requires
            i < self@.len(),
        ensures
            task@ == self@[i as int],
    {
        &self.tasks[i]
    }

    /// Where the task with identifier `id` stands, if the catalog has it.
    pub fn position(&self, id: &String) -> (r: Option<usize>)
        ensures
            match r {
                Some(i) => find(self@, id@) == Some(i as int),
                None => find(self@, id@) is None,
            },
    {
        let mut i: usize = 0;
        while i < self.tasks.len()
            invariant
                i <= self.tasks@.len(),
                forall|j: int| 0 <= j < i ==> (#[trigger] self@[j]).id != id@,
            decreases self.tasks@.len() - i,
        {
            if self.tasks[i].id == *id {
                proof {
                    lemma_find(self@, id@);
                    assert(self@[i as int].id == id@);
                }
                return Some(i);
            }
            i = i + 1;
        }
        proof {
            lemma_find(self@, id@);
        }
        None
    }

    /// Whether the catalog has a task with identifier `id`.
    pub fn contains(&self, id: &String) -> (r: bool)
        ensures
            r == ids_of(self@).contains(id@),
    {
        self.position(id).is_some()
    }

    /// Puts `task` into the catalog: in place of the task with the same
    /// identifier where there is one, at the end otherwise.
    pub fn insert(&mut self, task: Task)
        requires
            old(self).wf(),
        ensures
            final(self).wf(),
            final(self)@ == upsert(old(self)@, task@),
    {
        proof {
            lemma_upsert(self@, task@);
            lemma_find(self@, task@.id);
        }
        match self.position(&task.id) {
            Some(i) => {
                self.tasks.set(i, task);
                assert(self@ =~= upsert(old(self)@, task@));
            },
            None => {
                self.tasks.push(task);
                assert(self@ =~= upsert(old(self)@, task@));
            },
        }
    }

    /// Builds the catalog from a fetched batch of tasks, none of them with
    /// any time on it yet.
    ///
    /// `data` is the batch, or `None` where the response carried no list of
    /// tasks. The first malformed record fails the batch. Where an
    /// identifier comes twice, the later record replaces the earlier one.
    pub fn build(data: &Option<Vec<RawTask>>) -> (r: Result<TaskCatalog, SchemaError>)
        ensures
            match r {
                Ok(catalog) => data matches Some(raws) && catalog.wf() && (forall|i: int|
                    0 <= i < raws@.len() ==> (#[trigger] task_of(raws@[i]@)) is Ok) && catalog@
                    == catalog_of(stated_tasks(raw_task_views(raws@))),
                Err(e) => match data {
                    None => e == SchemaError::Absent(Field::Tasks),
                    Some(raws) => first_bad_task(raw_task_views(raws@), e),
                },
            },
    {
        let raws = match data {
            None => {
                return Err(SchemaError::Absent(Field::Tasks));
            },
            Some(raws) => raws,
        };
        let ghost views = raw_task_views(raws@);
        let mut catalog = TaskCatalog::new();
        let mut i: usize = 0;
        while i < raws.len()
            invariant
                *data == Some(*raws),
                views == raw_task_views(raws@),
                i <= raws@.len(),
                catalog.wf(),
                forall|j: int| 0 <= j < i ==> (#[trigger] task_of(raws@[j]@)) is Ok,
                catalog@ == catalog_of(stated_tasks(views).take(i as int)),
            decreases raws@.len() - i,
        {
            match parse_task(&raws[i]) {
                Ok(task) => {
                    proof {
                        let stated = stated_tasks(views);
                        assert(stated.take(i + 1).drop_last() =~= stated.take(i as int));
                        assert(stated[i as int] == task@);
                    }
                    catalog.insert(task);
                },
                Err(e) => {
                    proof {
                        assert(task_of(views[i as int]) == Err::<TaskView, SchemaError>(e));
                        assert forall|j: int| 0 <= j < i implies (#[trigger] task_of(
                            views[j],
                        )) is Ok by {
                            assert(views[j] == raws@[j]@);
                        }
                        assert(first_bad_task(views, e));
                    }
                    return Err(e);
                },
            }
            i = i + 1;
        }
        proof {
            assert(stated_tasks(views).take(i as int) =~= stated_tasks(views));
        }
        Ok(catalog)
    }

    /// Counts a batch of time entries: adds each entry's duration to the
    /// task it refers to, where the catalog has that task, and returns the
    /// totals of the batch.
    ///
    /// Fails, leaving the catalog as it was, where a total or a task's time
    /// would not fit in 64 bits.
    pub fn record(&mut self, entries: &Vec<TimeEntry>) -> (r: Result<Totals, ReportError>)
        requires
            old(self).wf(),
        ensures
            final(self).wf(),
            match r {
                Ok(totals) => {
                    &&& countable(old(self)@, entry_views(entries@))
                    &&& totals.total == total_duration(entry_views(entries@))
                    &&& totals.billable == billable_duration(entry_views(entries@), old(self)@)
                    &&& final(self)@ == accumulate(old(self)@, entry_views(entries@))
                },
                Err(e) => {
                    &&& e == ReportError::Overflow
                    &&& !countable(old(self)@, entry_views(entries@))
                    &&& final(self)@ == old(self)@
                },
            },
    {
        let ghost views = entry_views(entries@);
        let ghost tasks = self@;
        let n = self.tasks.len();
        let mut added: Vec<i128> = Vec::new();
        while added.len() < n
            invariant
                added@.len() <= n,
                forall|j: int| 0 <= j < added@.len() ==> added@[j] == 0,
            decreases n - added@.len(),
        {
            added.push(0);
        }
        let mut total: i128 = 0;
        let mut billable: i128 = 0;
        let mut k: usize = 0;
        while k < entries.len()
            invariant
                views == entry_views(entries@),
                tasks == self@,
                self.wf(),
                n == self.tasks@.len(),
                added@.len() == n,
                k <= entries@.len(),
                total == total_duration(views.take(k as int)),
                billable == billable_duration(views.take(k as int), tasks),
                forall|j: int|
                    0 <= j < n ==> #[trigger] added@[j] == task_duration(
                        views.take(k as int),
                        tasks[j].id,
                    ),
            decreases entries@.len() - k,
        {
            let entry = &entries[k];
            let millis = entry.duration_millis as i128;
            proof {
                let seen = views.take(k as int);
                assert(views.take(k + 1).drop_last() =~= seen);
                assert(views.take(k + 1).last() == entry@);
                assert(bounded(seen)) by {
                    assert forall|i: int| 0 <= i < seen.len() implies in_i64(
                        (#[trigger] seen[i]).duration,
                    ) by {
                        assert(seen[i] == entries@[i]@);
                    }
                }
                lemma_duration_in_bounds(seen, Set::full());
                lemma_duration_in_bounds(seen, ids_of(tasks));
                assert forall|j: int| 0 <= j < n implies -k * 0x8000_0000_0000_0000
                    <= #[trigger] added@[j] <= k * 0x8000_0000_0000_0000 by {
                    lemma_duration_in_bounds(seen, set![tasks[j].id]);
                }
                lemma_find(tasks, entry@.task_id);
            }
            total = total + millis;
            match self.position(&entry.task_id) {
                Some(j) => {
                    billable = billable + millis;
                    let grown: i128 = added[j] + millis;
                    added.set(j, grown);
                },
                None => {},
            }
            k = k + 1;
        }
        proof {
            assert(views.take(k as int) =~= views);
            assert(bounded(views)) by {
                assert forall|i: int| 0 <= i < views.len() implies in_i64(
                    (#[trigger] views[i]).duration,
                ) by {
                    assert(views[i] == entries@[i]@);
                }
            }
            assert forall|i: int| 0 <= i < n implies -views.len() * 0x8000_0000_0000_0000
                <= #[trigger] added@[i] <= views.len() * 0x8000_0000_0000_0000 by {
                lemma_duration_in_bounds(views, set![tasks[i].id]);
            }
        }
        if total < i64::MIN as i128 || total > i64::MAX as i128 || billable < i64::MIN as i128
            || billable > i64::MAX as i128 {
            return Err(ReportError::Overflow);
        }
        let mut j: usize = 0;
        while j < n
            invariant
                views == entry_views(entries@),
                tasks == self@,
                *self == *old(self),
                self.wf(),
                n == self.tasks@.len(),
                added@.len() == n,
                j <= n,
                views.len() <= usize::MAX,
                forall|i: int|
                    0 <= i < n ==> -views.len() * 0x8000_0000_0000_0000 <= #[trigger] added@[i]
                        <= views.len() * 0x8000_0000_0000_0000,
                forall|i: int|
                    0 <= i < n ==> #[trigger] added@[i] == task_duration(views, tasks[i].id),
                forall|i: int|
                    0 <= i < j ==> in_i64(
                        (#[trigger] tasks[i]).duration + task_duration(views, tasks[i].id),
                    ),
            decreases n - j,
        {
            let grown: i128 = self.tasks[j].duration_millis as i128 + added[j];
            if grown < i64::MIN as i128 || grown > i64::MAX as i128 {
                proof {
                    assert(!in_i64(
                        tasks[j as int].duration + task_duration(views, tasks[j as int].id),
                    ));
                    assert(!countable(tasks, views));
                }
                return Err(ReportError::Overflow);
            }
            j = j + 1;
        }
        j = 0;
        while j < n
            invariant
                views == entry_views(entries@),
                tasks == old(self)@,
                tasks.len() == n,
                n == self.tasks@.len(),
                added@.len() == n,
                j <= n,
                forall|i: int|
                    0 <= i < n ==> #[trigger] added@[i] == task_duration(views, tasks[i].id),
                forall|i: int|
                    0 <= i < n ==> in_i64(
                        (#[trigger] tasks[i]).duration + task_duration(views, tasks[i].id),
                    ),
                forall|i: int| 0 <= i < j ==> #[trigger] self@[i] == accumulate(tasks, views)[i],
                forall|i: int| j <= i < n ==> #[trigger] self@[i] == tasks[i],
            decreases n - j,
        {
            assert(self@[j as int] == tasks[j as int]);
            assert(in_i64(tasks[j as int].duration + task_duration(views, tasks[j as int].id)));
            let ghost before = self.tasks@;
            let grown: i64 = (self.tasks[j].duration_millis as i128 + added[j]) as i64;
            self.tasks[j].duration_millis = grown;
            proof {
                assert forall|i: int| 0 <= i < n && i != j implies self.tasks@[i] == before[i] by {}
                assert forall|i: int| 0 <= i < j + 1 implies #[trigger] self@[i] == accumulate(
                    tasks,
                    views,
                )[i] by {
                    if i < j {
                        assert(task_views(before)[i] == accumulate(tasks, views)[i]);
                    }
                }
                assert forall|i: int| j + 1 <= i < n implies #[trigger] self@[i] == tasks[i] by {
                    assert(task_views(before)[i] == tasks[i]);
                }
            }
            j = j + 1;
        }
        proof {
            assert(self@ =~= accumulate(tasks, views));
            lemma_accumulate_keeps_ids(tasks, views);
        }
        Ok(Totals { total: total as i64, billable: billable as i64 })
    }
}

/// Counting entries changes no task's identifier or place.
pub proof fn lemma_accumulate_keeps_ids(tasks: Seq<TaskView>, entries: Seq<TimeEntryView>)
    ensures
        accumulate(tasks, entries).len() == tasks.len(),
        forall|i: int|
            0 <= i < tasks.len() ==> (#[trigger] accumulate(tasks, entries)[i]).id == tasks[i].id,
        distinct_ids(tasks) ==> distinct_ids(accumulate(tasks, entries)),
{
}

/// The time that entries hold for two sets of tasks with no task in common
/// is the sum of what they hold for each.
pub proof fn lemma_duration_in_union(
    entries: Seq<TimeEntryView>,
    a: Set<Seq<char>>,
    b: Set<Seq<char>>,
)
    requires
        a.disjoint(b),
    ensures
        duration_in(entries, a.union(b)) == duration_in(entries, a) + duration_in(entries, b),
    decreases entries.len(),
{
    if entries.len() > 0 {
        lemma_duration_in_union(entries.drop_last(), a, b);
    }
}

/// The time that two batches hold, one after the other, is the sum of what
/// each holds.
pub proof fn lemma_duration_in_concat(
    first: Seq<TimeEntryView>,
    second: Seq<TimeEntryView>,
    ids: Set<Seq<char>>,
)
    ensures
        duration_in(first + second, ids) == duration_in(first, ids) + duration_in(second, ids),
    decreases second.len(),
{
    if second.len() == 0 {
        assert(first + second =~= first);
    } else {
        assert((first + second).drop_last() =~= first + second.drop_last());
        lemma_duration_in_concat(first, second.drop_last(), ids);
    }
}

/// The total of a batch is its billable time plus the time of the entries
/// that refer to no task of the catalog.
pub proof fn law_total_is_billable_plus_rest(entries: Seq<TimeEntryView>, tasks: Seq<TaskView>)
    ensures
        total_duration(entries) == billable_duration(entries, tasks) + duration_in(
            entries,
            ids_of(tasks).complement(),
        ),
{
    let ids = ids_of(tasks);
    lemma_duration_in_union(entries, ids, ids.complement());
    assert(ids.union(ids.complement()) =~= Set::<Seq<char>>::full());
}

/// The billable time of a batch is at most its total, unless the entries
/// that refer to no task of the catalog add up to less than nothing.
pub proof fn law_billable_within_total(entries: Seq<TimeEntryView>, tasks: Seq<TaskView>)
    requires
        duration_in(entries, ids_of(tasks).complement()) >= 0,
    ensures
        billable_duration(entries, tasks) <= total_duration(entries),
{
    law_total_is_billable_plus_rest(entries, tasks);
}

/// Where no entry has a negative duration, the billable time of a batch is
/// at most its total.
pub proof fn law_billable_within_total_of_positive(
    entries: Seq<TimeEntryView>,
    tasks: Seq<TaskView>,
)
    requires
        forall|i: int| 0 <= i < entries.len() ==> (#[trigger] entries[i]).duration >= 0,
    ensures
        billable_duration(entries, tasks) <= total_duration(entries),
{
    lemma_duration_in_nonnegative(entries, ids_of(tasks).complement());
    law_billable_within_total(entries, tasks);
}

/// Entries without a negative duration hold no negative time for any tasks.
pub proof fn lemma_duration_in_nonnegative(entries: Seq<TimeEntryView>, ids: Set<Seq<char>>)
    requires
        forall|i: int| 0 <= i < entries.len() ==> (#[trigger] entries[i]).duration >= 0,
    ensures
        duration_in(entries, ids) >= 0,
    decreases entries.len(),
{
    if entries.len() > 0 {
        assert(entries[entries.len() - 1].duration >= 0);
        assert forall|i: int| 0 <= i < entries.len() - 1 implies (#[trigger] entries.drop_last()[i]).duration
            >= 0 by {
            assert(entries[i].duration >= 0);
        }
        lemma_duration_in_nonnegative(entries.drop_last(), ids);
    }
}

/// Time accumulates over batches: counting one batch and then another
/// leaves each task with what counting both at once would, the sum of its
/// time in each.
pub proof fn law_accumulate_is_cumulative(
    tasks: Seq<TaskView>,
    first: Seq<TimeEntryView>,
    second: Seq<TimeEntryView>,
)
    ensures
        accumulate(accumulate(tasks, first), second) == accumulate(tasks, first + second),
        forall|i: int|
            0 <= i < tasks.len() ==> (#[trigger] accumulate(
                accumulate(tasks, first),
                second,
            )[i]).duration == tasks[i].duration + task_duration(first, tasks[i].id)
                + task_duration(second, tasks[i].id),
{
    assert forall|i: int| 0 <= i < tasks.len() implies (#[trigger] accumulate(
        accumulate(tasks, first),
        second,
    )[i]) == accumulate(tasks, first + second)[i] by {
        lemma_duration_in_concat(first, second, set![tasks[i].id]);
    }
    assert(accumulate(accumulate(tasks, first), second) =~= accumulate(tasks, first + second));
    assert forall|i: int| 0 <= i < tasks.len() implies (#[trigger] accumulate(
        accumulate(tasks, first),
        second,
    )[i]).duration == tasks[i].duration + task_duration(first, tasks[i].id) + task_duration(
        second,
        tasks[i].id,
    ) by {
        lemma_duration_in_concat(first, second, set![tasks[i].id]);
    }
}

} // verus!
