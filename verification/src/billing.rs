//! Bills: the billable time of a catalog, grouped by list.

use vstd::prelude::*;
use vstd::string::StringExecFns;
use crate::catalog::{Task, TaskCatalog, TaskView};

verus! {

/// One line of a bill: a task and the time to charge for it.
#[derive(Clone, Debug)]
pub struct BillLine {
    /// The task's billing code and name.
    pub description: String,
    /// The time accumulated on the task, in milliseconds; more than zero.
    pub duration_millis: i64,
}

/// What a [`BillLine`] holds.
pub struct BillLineView {
    pub description: Seq<char>,
    pub duration: int,
}

impl View for BillLine {
    type V = BillLineView;

    open spec fn view(&self) -> BillLineView {
        BillLineView { description: self.description@, duration: self.duration_millis as int }
    }
}

/// The views of the lines of a bill, in order.
pub open spec fn line_views(lines: Seq<BillLine>) -> Seq<BillLineView> {
    lines.map_values(|line: BillLine| line@)
}

/// The billed tasks of one list.
#[derive(Clone, Debug)]
pub struct Bill {
    /// The identifier of the list.
    pub list_id: String,
    /// A line for each task of the list that has time on it, in the order
    /// of the catalog.
    pub lines: Vec<BillLine>,
}

/// What a [`Bill`] holds.
pub struct BillView {
    pub list_id: Seq<char>,
    pub lines: Seq<BillLineView>,
}

impl View for Bill {
    type V = BillView;

    open spec fn view(&self) -> BillView {
        BillView { list_id: self.list_id@, lines: line_views(self.lines@) }
    }
}

/// The views of a list of bills, in order.
pub open spec fn bill_views(bills: Seq<Bill>) -> Seq<BillView> {
    bills.map_values(|bill: Bill| bill@)
}

/// Whether a task is charged for: it has more than no time on it.
pub open spec fn billed(task: TaskView) -> bool {
    task.duration > 0
}

/// How a task is described on a bill: its billing code, a dash between
/// spaces, its name.
pub open spec fn description_of(task: TaskView) -> Seq<char> {
    task.custom_id + " - "@ + task.name
}

/// The bill line of a task.
pub open spec fn line_of(task: TaskView) -> BillLineView {
    BillLineView { description: description_of(task), duration: task.duration }
}

/// The lines of the bill of list `list_id`: one for each billed task of that
/// list, in the order of `tasks`.
pub open spec fn lines_for(tasks: Seq<TaskView>, list_id: Seq<char>) -> Seq<BillLineView>
    decreases tasks.len(),
{
    if tasks.len() == 0 {
        Seq::empty()
    } else if billed(tasks.last()) && tasks.last().list_id == list_id {
        lines_for(tasks.drop_last(), list_id).push(line_of(tasks.last()))
    } else {
        lines_for(tasks.drop_last(), list_id)
    }
}

/// The lists that have a billed task among `tasks`, each once, in the order
/// in which their first billed task stands.
pub open spec fn billed_lists(tasks: Seq<TaskView>) -> Seq<Seq<char>>
    decreases tasks.len(),
{
    if tasks.len() == 0 {
        Seq::empty()
    } else if billed(tasks.last()) && !billed_lists(tasks.drop_last()).contains(
        tasks.last().list_id,
    ) {
        billed_lists(tasks.drop_last()).push(tasks.last().list_id)
    } else {
        billed_lists(tasks.drop_last())
    }
}

/// The bills of `tasks`: one for each list with a billed task.
pub open spec fn bills_of(tasks: Seq<TaskView>) -> Seq<BillView> {
    billed_lists(tasks).map_values(
        |list_id: Seq<char>| BillView { list_id, lines: lines_for(tasks, list_id) },
    )
}

/// Writes the bill line of a task.
pub fn bill_line(task: &Task) -> (line: BillLine)
    ensures
        line@ == line_of(task@),
{
    let mut description = task.custom_id.clone();
    description.append(" - ");
    description.append(task.name.as_str());
    BillLine { description, duration_millis: task.duration_millis }
}

/// Whether `lists` holds `list_id`.
fn holds(lists: &Vec<String>, list_id: &String) -> (r: bool)
    ensures
        r == lists@.map_values(|s: String| s@).contains(list_id@),
{
    let ghost views = lists@.map_values(|s: String| s@);
    let mut i: usize = 0;
    while i < lists.len()
        invariant
            views == lists@.map_values(|s: String| s@),
            i <= lists@.len(),
            forall|j: int| 0 <= j < i ==> views[j] != list_id@,
        decreases lists@.len() - i,
    {
        if lists[i] == *list_id {
            assert(views[i as int] == list_id@);
            return true;
        }
        i = i + 1;
    }
    false
}

/// Finds the lists that have a billed task, in the order of the catalog.
pub fn lists_to_bill(catalog: &TaskCatalog) -> (lists: Vec<String>)
    ensures
        lists@.map_values(|s: String| s@) == billed_lists(catalog@),
{
    let mut lists: Vec<String> = Vec::new();
    let mut i: usize = 0;
    while i < catalog.len()
        invariant
            i <= catalog@.len(),
            lists@.map_values(|s: String| s@) == billed_lists(catalog@.take(i as int)),
        decreases catalog@.len() - i,
    {
        let task = catalog.get(i);
        proof {
            assert(catalog@.take(i + 1).drop_last() =~= catalog@.take(i as int));
        }
        if task.duration_millis > 0 && !holds(&lists, &task.list_id) {
            let ghost before = lists@.map_values(|s: String| s@);
            lists.push(task.list_id.clone());
            assert(lists@.map_values(|s: String| s@) =~= before.push(task@.list_id));
        }
        i = i + 1;
    }
    proof {
        assert(catalog@.take(i as int) =~= catalog@);
    }
    lists
}

/// Writes the bill of one list: a line for each of its billed tasks.
pub fn bill_for(catalog: &TaskCatalog, list_id: &String) -> (bill: Bill)
    ensures
        bill@ == (BillView { list_id: list_id@, lines: lines_for(catalog@, list_id@) }),
{
    let mut lines: Vec<BillLine> = Vec::new();
    let mut i: usize = 0;
    while i < catalog.len()
        invariant
            i <= catalog@.len(),
            line_views(lines@) == lines_for(catalog@.take(i as int), list_id@),
        decreases catalog@.len() - i,
    {
        let task = catalog.get(i);
        proof {
            assert(catalog@.take(i + 1).drop_last() =~= catalog@.take(i as int));
        }
        if task.duration_millis > 0 && task.list_id == *list_id {
            let ghost before = line_views(lines@);
            let line = bill_line(task);
            lines.push(line);
            assert(line_views(lines@) =~= before.push(line_of(task@)));
        }
        i = i + 1;
    }
    proof {
        assert(catalog@.take(i as int) =~= catalog@);
    }
    Bill { list_id: list_id.clone(), lines }
}

/// Groups the billed tasks of a catalog by list.
///
/// There is one bill for each list that has a task with time on it; the
/// bills stand in the order in which the catalog first comes to their
/// lists, and the lines of each in the order of the catalog.
pub fn bills(catalog: &TaskCatalog) -> (r: Vec<Bill>)
    ensures
        bill_views(r@) == bills_of(catalog@),
{
    let lists = lists_to_bill(catalog);
    let ghost ids = lists@.map_values(|s: String| s@);
    let mut r: Vec<Bill> = Vec::new();
    let mut i: usize = 0;
    while i < lists.len()
        invariant
            ids == lists@.map_values(|s: String| s@),
            ids == billed_lists(catalog@),
            i <= lists@.len(),
            bill_views(r@) == bills_of(catalog@).take(i as int),
        decreases lists@.len() - i,
    {
        let ghost before = bill_views(r@);
        let bill = bill_for(catalog, &lists[i]);
        r.push(bill);
        proof {
            assert(ids[i as int] == lists@[i as int]@);
            assert(bill_views(r@) =~= before.push(bill@));
            assert(bills_of(catalog@).take(i + 1) =~= bills_of(catalog@).take(i as int).push(
                bills_of(catalog@)[i as int],
            ));
        }
        i = i + 1;
    }
    proof {
        assert(bills_of(catalog@).take(i as int) =~= bills_of(catalog@));
    }
    r
}

/// Whether `line` is the bill line of a billed task of list `list_id` among
/// `tasks`.
pub open spec fn charges_a_task(tasks: Seq<TaskView>, list_id: Seq<char>, line: BillLineView) -> bool {
    exists|i: int|
        0 <= i < tasks.len() && billed(#[trigger] tasks[i]) && tasks[i].list_id == list_id
            && line_of(tasks[i]) == line
}

/// Whether some task of list `list_id` among `tasks` is billed.
pub open spec fn has_billed_task(tasks: Seq<TaskView>, list_id: Seq<char>) -> bool {
    exists|i: int| 0 <= i < tasks.len() && billed(#[trigger] tasks[i]) && tasks[i].list_id == list_id
}

/// Every line of a list's bill is that of a billed task of the list, with
/// more than no time on it; the bill has a line exactly when the list has a
/// billed task.
pub proof fn lemma_lines_for(tasks: Seq<TaskView>, list_id: Seq<char>)
    ensures
        forall|k: int|
            0 <= k < lines_for(tasks, list_id).len() ==> charges_a_task(
                tasks,
                list_id,
                #[trigger] lines_for(tasks, list_id)[k],
            ) && lines_for(tasks, list_id)[k].duration > 0,
        lines_for(tasks, list_id).len() > 0 <==> has_billed_task(tasks, list_id),
    decreases tasks.len(),
{
    if tasks.len() > 0 {
        let rest = tasks.drop_last();
        let last = tasks.last();
        lemma_lines_for(rest, list_id);
        assert forall|k: int| 0 <= k < lines_for(tasks, list_id).len() implies charges_a_task(
            tasks,
            list_id,
            #[trigger] lines_for(tasks, list_id)[k],
        ) && lines_for(tasks, list_id)[k].duration > 0 by {
            let line = lines_for(tasks, list_id)[k];
            if k < lines_for(rest, list_id).len() {
                assert(line == lines_for(rest, list_id)[k]);
                assert(charges_a_task(rest, list_id, line));
                let i = choose|i: int|
                    0 <= i < rest.len() && billed(#[trigger] rest[i]) && rest[i].list_id == list_id
                        && line_of(rest[i]) == line;
                assert(tasks[i] == rest[i]);
            } else {
                assert(tasks[tasks.len() - 1] == last);
            }
        }
        if has_billed_task(tasks, list_id) {
            let i = choose|i: int|
                0 <= i < tasks.len() && billed(#[trigger] tasks[i]) && tasks[i].list_id == list_id;
            if i < rest.len() {
                assert(rest[i] == tasks[i]);
                assert(has_billed_task(rest, list_id));
            }
        }
        if lines_for(tasks, list_id).len() > 0 {
            if billed(last) && last.list_id == list_id {
                assert(tasks[tasks.len() - 1] == last);
            } else {
                let i = choose|i: int|
                    0 <= i < rest.len() && billed(#[trigger] rest[i]) && rest[i].list_id == list_id;
                assert(tasks[i] == rest[i]);
            }
        }
    }
}

/// The lists to bill are those with a billed task, each named once.
pub proof fn lemma_billed_lists(tasks: Seq<TaskView>)
    ensures
        billed_lists(tasks).no_duplicates(),
        forall|list_id: Seq<char>| #[trigger]
            billed_lists(tasks).contains(list_id) <==> has_billed_task(tasks, list_id),
    decreases tasks.len(),
{
    if tasks.len() > 0 {
        let rest = tasks.drop_last();
        let last = tasks.last();
        lemma_billed_lists(rest);
        assert forall|list_id: Seq<char>| #[trigger]
            billed_lists(tasks).contains(list_id) <==> has_billed_task(tasks, list_id) by {
            if billed_lists(tasks).contains(list_id) {
                if billed_lists(rest).contains(list_id) {
                    let i = choose|i: int|
                        0 <= i < rest.len() && billed(#[trigger] rest[i]) && rest[i].list_id
                            == list_id;
                    assert(tasks[i] == rest[i]);
                } else {
                    assert(tasks[tasks.len() - 1] == last);
                }
            }
            if has_billed_task(tasks, list_id) {
                let i = choose|i: int|
                    0 <= i < tasks.len() && billed(#[trigger] tasks[i]) && tasks[i].list_id
                        == list_id;
                if i < rest.len() {
                    assert(rest[i] == tasks[i]);
                    assert(has_billed_task(rest, list_id));
                    assert(billed_lists(rest).contains(list_id));
                    let k = choose|k: int|
                        0 <= k < billed_lists(rest).len() && billed_lists(rest)[k] == list_id;
                    assert(billed_lists(tasks)[k] == list_id);
                } else if billed_lists(rest).contains(list_id) {
                    let k = choose|k: int|
                        0 <= k < billed_lists(rest).len() && billed_lists(rest)[k] == list_id;
                    assert(billed_lists(tasks)[k] == list_id);
                } else {
                    assert(billed_lists(tasks)[billed_lists(rest).len() as int] == list_id);
                }
            }
        }
    }
}

/// What the bills of any tasks are like: no two are for the same list; each
/// has at least one line; each line is that of a task of the bill's list with
/// more than no time on it. A task without time is on no bill.
pub proof fn law_bills_charge_billed_tasks(tasks: Seq<TaskView>)
    ensures
        forall|a: int, b: int|
            0 <= a < b < bills_of(tasks).len() ==> (#[trigger] bills_of(tasks)[a]).list_id != (
            #[trigger] bills_of(tasks)[b]).list_id,
        forall|b: int|
            0 <= b < bills_of(tasks).len() ==> (#[trigger] bills_of(tasks)[b]).lines.len() > 0,
        forall|b: int, k: int|
            0 <= b < bills_of(tasks).len() && 0 <= k < bills_of(tasks)[b].lines.len() ==> {
                let line = #[trigger] bills_of(tasks)[b].lines[k];
                line.duration > 0 && charges_a_task(tasks, bills_of(tasks)[b].list_id, line)
            },
{
    lemma_billed_lists(tasks);
    let lists = billed_lists(tasks);
    assert forall|b: int| 0 <= b < bills_of(tasks).len() implies (#[trigger] bills_of(
        tasks,
    )[b]).lines.len() > 0 by {
        assert(lists.contains(lists[b]));
        lemma_lines_for(tasks, lists[b]);
    }
    assert forall|b: int, k: int|
        0 <= b < bills_of(tasks).len() && 0 <= k < bills_of(tasks)[b].lines.len() implies {
        let line = #[trigger] bills_of(tasks)[b].lines[k];
        line.duration > 0 && charges_a_task(tasks, bills_of(tasks)[b].list_id, line)
    } by {
        lemma_lines_for(tasks, lists[b]);
    }
}

/// Where no task has time on it, there is no bill.
pub proof fn law_no_time_no_bill(tasks: Seq<TaskView>)
    requires
        forall|i: int| 0 <= i < tasks.len() ==> !billed(#[trigger] tasks[i]),
    ensures
        bills_of(tasks) == Seq::<BillView>::empty(),
{
    lemma_billed_lists(tasks);
    if billed_lists(tasks).len() > 0 {
        assert(billed_lists(tasks).contains(billed_lists(tasks)[0]));
    }
    assert(bills_of(tasks) =~= Seq::<BillView>::empty());
}

/// Two billed tasks of one list make one bill of two lines, the first
/// task's line first.
pub proof fn law_same_list_one_bill(first: TaskView, second: TaskView)
    requires
        billed(first),
        billed(second),
        first.list_id == second.list_id,
    ensures
        bills_of(seq![first, second]) == seq![
            BillView { list_id: first.list_id, lines: seq![line_of(first), line_of(second)] },
        ],
{
    let tasks = seq![first, second];
    let one = seq![first];
    let none = Seq::<TaskView>::empty();
    assert(tasks.drop_last() =~= one);
    assert(one.drop_last() =~= none);
    assert(billed_lists(none) =~= Seq::<Seq<char>>::empty());
    assert(lines_for(none, first.list_id) =~= Seq::<BillLineView>::empty());
    assert(billed_lists(one) =~= seq![first.list_id]);
    assert(billed_lists(one)[0] == first.list_id);
    assert(billed_lists(tasks) =~= seq![first.list_id]);
    assert(lines_for(one, first.list_id) =~= seq![line_of(first)]);
    assert(lines_for(tasks, first.list_id) =~= seq![line_of(first), line_of(second)]);
    assert(bills_of(tasks) =~= seq![
        BillView { list_id: first.list_id, lines: seq![line_of(first), line_of(second)] },
    ]);
}

} // verus!
