//! The Tasks tab: all scheduled tasks, run or deleted from here.

use vstd::prelude::*;

use crate::text::{
    join, join3, joined, less, lex_lt, lemma_lex_irreflexive, lemma_lex_total,
    lemma_lex_transitive, pad, padded,
};
use crate::tui::accounts::{clamp_to, clamped};
use crate::tui::ctx::AppCtx;
use crate::tui::key::{KeyCode, KeyEvent};
use crate::tui::line::{
    line1, line4, no_lines, put_line, sp, span, styled, Line, SpanV,
};
use crate::tui::snapshot::{clock_text, hhmm, Kind, Snapshot, TaskRow};
use crate::tui::theme;
use crate::tui::view::{hint_texts, Action, TabView};

verus! {

/// The task list, its cursor, and the delete prompt.
#[derive(Debug)]
pub struct TasksView {
    pub selected: usize,
    pub confirm_delete: bool,
}

/// `order` with row `i` put in front of the rows whose ids sort after its own.
pub open spec fn placed(order: Seq<usize>, tasks: Seq<TaskRow>, i: usize) -> Seq<usize>
    decreases order.len(),
{
    if order.len() > 0 && lex_lt(tasks[i as int].id@, tasks[order.last() as int].id@) {
        placed(order.drop_last(), tasks, i).push(order.last())
    } else {
        order.push(i)
    }
}

/// The first `k` rows by ascending id; rows with the same id keep their order.
pub open spec fn order_of(tasks: Seq<TaskRow>, k: int) -> Seq<usize>
    decreases k,
{
    if k <= 0 {
        Seq::empty()
    } else {
        placed(order_of(tasks, k - 1), tasks, (k - 1) as usize)
    }
}

/// The rows of `tasks` by ascending id.
pub open spec fn task_order(tasks: Seq<TaskRow>) -> Seq<usize> {
    order_of(tasks, tasks.len() as int)
}

/// The id of the row shown at position `p`.
pub open spec fn shown_id(tasks: Seq<TaskRow>, p: int) -> Seq<char> {
    tasks[task_order(tasks)[p] as int].id@
}

/// No row is followed by one whose id sorts before its own.
pub open spec fn ids_ascend(order: Seq<usize>, tasks: Seq<TaskRow>) -> bool {
    forall|a: int, b: int|
        0 <= a < b < order.len() ==> !lex_lt(
            tasks[#[trigger] order[b] as int].id@,
            tasks[#[trigger] order[a] as int].id@,
        )
}

proof fn lemma_placed(order: Seq<usize>, tasks: Seq<TaskRow>, i: usize)
    requires
        ids_ascend(order, tasks),
    ensures
        ids_ascend(placed(order, tasks, i), tasks),
        placed(order, tasks, i).len() == order.len() + 1,
        forall|x: usize| #[trigger]
            placed(order, tasks, i).contains(x) <==> order.contains(x) || x == i,
    decreases order.len(),
{
    let id = tasks[i as int].id@;
    if order.len() > 0 && lex_lt(id, tasks[order.last() as int].id@) {
        let t = order.drop_last();
        let last = order.last();
        assert(ids_ascend(t, tasks)) by {
            assert forall|a: int, b: int| 0 <= a < b < t.len() implies !lex_lt(
                tasks[#[trigger] t[b] as int].id@,
                tasks[#[trigger] t[a] as int].id@,
            ) by {
                assert(t[a] == order[a] && t[b] == order[b]);
            }
        }
        lemma_placed(t, tasks, i);
        let p = placed(t, tasks, i);
        assert(order =~= t.push(last));
        crate::list::lemma_push_contains(p, last);
        crate::list::lemma_push_contains(t, last);
        assert forall|a: int, b: int| 0 <= a < b < p.push(last).len() implies !lex_lt(
            tasks[#[trigger] p.push(last)[b] as int].id@,
            tasks[#[trigger] p.push(last)[a] as int].id@,
        ) by {
            let q = p.push(last);
            if b == p.len() {
                let x = q[a];
                assert(p.contains(x)) by {
                    assert(p[a] == x);
                }
                if x == i {
                    if lex_lt(tasks[last as int].id@, id) {
                        lemma_lex_transitive(id, tasks[last as int].id@, id);
                        lemma_lex_irreflexive(id);
                    }
                } else {
                    assert(t.contains(x));
                    let j = choose|j: int| 0 <= j < t.len() && t[j] == x;
                    assert(order[j] == x);
                    assert(order[order.len() - 1] == last);
                }
            } else {
                assert(q[a] == p[a] && q[b] == p[b]);
            }
        }
    } else {
        let q = order.push(i);
        crate::list::lemma_push_contains(order, i);
        assert forall|a: int, b: int| 0 <= a < b < q.len() implies !lex_lt(
            tasks[#[trigger] q[b] as int].id@,
            tasks[#[trigger] q[a] as int].id@,
        ) by {
            if b == order.len() {
                let l = tasks[order.last() as int].id@;
                let x = tasks[q[a] as int].id@;
                if lex_lt(id, x) {
                    assert(q[a] == order[a]);
                    if a < order.len() - 1 {
                        assert(!lex_lt(tasks[order[order.len() - 1] as int].id@, tasks[order[a] as int].id@));
                        lemma_lex_total(l, x);
                        if lex_lt(x, l) {
                            lemma_lex_transitive(id, x, l);
                        }
                    }
                }
            } else {
                assert(q[a] == order[a] && q[b] == order[b]);
            }
        }
    }
}

/// The list shows every task once, by ascending id.
pub proof fn order_is_sorted_and_complete(tasks: Seq<TaskRow>, k: int)
    requires
        0 <= k <= tasks.len(),
        tasks.len() <= usize::MAX,
    ensures
        order_of(tasks, k).len() == k,
        ids_ascend(order_of(tasks, k), tasks),
        forall|x: usize| #[trigger] order_of(tasks, k).contains(x) <==> x < k,
    decreases k,
{
    if k > 0 {
        order_is_sorted_and_complete(tasks, k - 1);
        lemma_placed(order_of(tasks, k - 1), tasks, (k - 1) as usize);
        assert forall|x: usize| #[trigger] order_of(tasks, k).contains(x) <==> x < k by {
            assert(placed(order_of(tasks, k - 1), tasks, (k - 1) as usize).contains(x)
                <==> order_of(tasks, k - 1).contains(x) || x == (k - 1) as usize);
        }
    }
}

fn place(order: &Vec<usize>, tasks: &Vec<TaskRow>, i: usize) -> (r: Vec<usize>)
    requires
        i < tasks.len(),
        forall|j: int| 0 <= j < order.len() ==> (#[trigger] order[j]) < tasks.len(),
    ensures
        r@ == placed(order@, tasks@, i),
{
    let mut at: usize = order.len();
    let ghost n = order@.len() as int;
    assert(order@.take(n) =~= order@);
    assert(order@.skip(n) =~= Seq::<usize>::empty());
    assert(placed(order@, tasks@, i) =~= placed(order@.take(n), tasks@, i) + order@.skip(n));
    while at > 0 && less(tasks[i].id.as_str(), tasks[order[at - 1]].id.as_str())
        invariant
            i < tasks.len(),
            forall|j: int| 0 <= j < order.len() ==> (#[trigger] order[j]) < tasks.len(),
            at <= order.len(),
            placed(order@, tasks@, i) == placed(order@.take(at as int), tasks@, i) + order@.skip(
                at as int,
            ),
        decreases at,
    {
        proof {
            let t = order@.take(at as int);
            assert(t.drop_last() =~= order@.take(at - 1));
            assert(t.last() == order@[at - 1]);
            assert(placed(t, tasks@, i) == placed(t.drop_last(), tasks@, i).push(t.last()));
            assert(placed(t.drop_last(), tasks@, i).push(t.last()) + order@.skip(at as int)
                =~= placed(t.drop_last(), tasks@, i) + order@.skip(at - 1));
        }
        at -= 1;
    }
    let mut out = order.clone();
    assert(out@ =~= order@);
    out.insert(at, i);
    proof {
        let t = order@.take(at as int);
        if at > 0 {
            assert(t.last() == order@[at - 1]);
        }
        assert(placed(t, tasks@, i) == t.push(i));
        assert(out@ =~= t.push(i) + order@.skip(at as int));
    }
    out
}

/// The rows of the task list by ascending id.
pub fn rows(tasks: &Vec<TaskRow>) -> (r: Vec<usize>)
    ensures
        r@ == task_order(tasks@),
        r.len() == tasks.len(),
        forall|j: int| 0 <= j < r.len() ==> (#[trigger] r[j]) < tasks.len(),
{
    let mut out: Vec<usize> = Vec::new();
    let mut i: usize = 0;
    while i < tasks.len()
        invariant
            i <= tasks.len(),
            out@ == order_of(tasks@, i as int),
            out.len() == i,
            forall|j: int| 0 <= j < out.len() ==> (#[trigger] out[j]) < i,
        decreases tasks.len() - i,
    {
        out = place(&out, tasks, i);
        i += 1;
        proof {
            order_is_sorted_and_complete(tasks@, i as int);
            assert forall|j: int| 0 <= j < out.len() implies (#[trigger] out[j]) < i by {
                assert(order_of(tasks@, i as int).contains(out@[j]));
            }
        }
    }
    out
}

/// The word for a kind of task.
pub open spec fn kind_text(k: Kind) -> Seq<char> {
    match k {
        Kind::Prime => "prime"@,
        Kind::Task => "task"@,
    }
}

/// The row of a task. The kind cell is as wide as its column head.
pub open spec fn task_text(t: TaskRow) -> Seq<char> {
    let next = match t.next_fire {
        Some(f) => clock_text(f),
        None => "—"@,
    };
    let times = if t.times@.len() > 0 {
        joined(t.times.deep_view(), " "@)
    } else {
        "—"@
    };
    let status = match t.last_status {
        Some(s) => s@,
        None => "—"@,
    };
    padded(t.id@, 20) + ("["@ + padded(kind_text(t.kind), 5) + "] "@) + padded(t.account@, 14)
        + padded(next, 8) + padded(times, 18) + status
}

fn task_label(t: &TaskRow) -> (r: String)
    ensures
        r@ == task_text(*t),
{
    let kind = match t.kind {
        Kind::Prime => "prime",
        Kind::Task => "task",
    };
    let next = match t.next_fire {
        Some(f) => hhmm(f),
        None => crate::text::owned("—"),
    };
    let times = if t.times.len() > 0 {
        join(&t.times, " ")
    } else {
        crate::text::owned("—")
    };
    let mut out = pad(t.id.as_str(), 20);
    out.append(join3("[", pad(kind, 5).as_str(), "] ").as_str());
    out.append(pad(t.account.as_str(), 14).as_str());
    out.append(pad(next.as_str(), 8).as_str());
    out.append(pad(times.as_str(), 18).as_str());
    match &t.last_status {
        Some(s) => {
            out.append(s.as_str());
        },
        None => {
            out.append("—");
        },
    }
    out
}

/// The delete prompt for a task.
pub open spec fn delete_prompt(id: Seq<char>) -> Seq<SpanV> {
    seq![
        sp("Delete task '"@ + id + "'? "@, theme::text()),
        sp("y"@, theme::accent()),
        sp(" / "@, theme::faint()),
        sp("n"@, theme::accent()),
    ]
}

/// Everything the Tasks tab draws.
#[derive(Debug)]
pub struct TasksPage {
    /// Shown alone when there are no tasks.
    pub empty: Option<Line>,
    pub header: Line,
    pub rows: Vec<Line>,
    pub selected: Option<usize>,
    pub prompt: Option<Line>,
}

impl TasksView {
    /// The tab as it opens.
    pub fn new() -> (r: TasksView)
        ensures
            r.selected == 0,
            !r.confirm_delete,
    {
        TasksView { selected: 0, confirm_delete: false }
    }

    /// The id under the cursor.
    pub fn selected_id(&self, snap: &Snapshot) -> (r: Option<String>)
        ensures
            match r {
                Some(id) => self.selected < snap.tasks.len() && id@ == shown_id(
                    snap.tasks@,
                    self.selected as int,
                ),
                None => self.selected >= snap.tasks.len(),
            },
    {
        let order = rows(&snap.tasks);
        if self.selected < order.len() {
            Some(snap.tasks[order[self.selected]].id.clone())
        } else {
            None
        }
    }

    /// The page for `snap`.
    pub fn render(&self, snap: &Snapshot) -> (r: TasksPage)
        ensures
            r.empty is Some <==> snap.tasks.len() == 0,
            r.empty matches Some(l) ==> l@ == seq![
                sp("no tasks — add with `cc-loadout task add` or /cc-loadout:schedule"@, theme::dim()),
            ],
            r.header@ == seq![
                sp(
                    "  id                  kind    account       next    times             status"@,
                    theme::dim(),
                ),
            ],
            r.rows.deep_view() == Seq::new(
                snap.tasks.len() as nat,
                |p: int|
                    seq![sp(task_text(snap.tasks[task_order(snap.tasks@)[p] as int]), theme::text())],
            ),
            snap.tasks.len() == 0 ==> r.selected is None && r.prompt is None,
            snap.tasks.len() > 0 ==> {
                let c = clamped(self.selected as int, snap.tasks.len() as int);
                &&& r.selected == Some(c as usize)
                &&& r.prompt is Some <==> self.confirm_delete
                &&& r.prompt matches Some(l) ==> l@ == delete_prompt(shown_id(snap.tasks@, c))
            },
    {
        let order = rows(&snap.tasks);
        let n: usize = order.len();
        let header = line1(
            styled(
                "  id                  kind    account       next    times             status",
                theme::dim(),
            ),
        );
        let ghost all = Seq::new(
            n as nat,
            |p: int|
                seq![sp(task_text(snap.tasks[task_order(snap.tasks@)[p] as int]), theme::text())],
        );
        let mut out = no_lines();
        let mut i: usize = 0;
        while i < n
            invariant
                i <= n,
                n == order.len(),
                order@ == task_order(snap.tasks@),
                forall|j: int| 0 <= j < order.len() ==> (#[trigger] order[j]) < snap.tasks.len(),
                all == Seq::new(
                    n as nat,
                    |p: int|
                        seq![
                            sp(
                                task_text(snap.tasks[task_order(snap.tasks@)[p] as int]),
                                theme::text(),
                            ),
                        ],
                ),
                out.deep_view() =~= all.take(i as int),
            decreases n - i,
        {
            put_line(
                &mut out,
                line1(span(task_label(&snap.tasks[order[i]]), theme::text())),
            );
            i += 1;
        }
        assert(all.take(i as int) =~= all);
        if n == 0 {
            let l = line1(
                styled(
                    "no tasks — add with `cc-loadout task add` or /cc-loadout:schedule",
                    theme::dim(),
                ),
            );
            return TasksPage {
                empty: Some(l),
                header,
                rows: out,
                selected: None,
                prompt: None,
            };
        }
        let c: usize = clamp_to(self.selected, n);
        let prompt = if self.confirm_delete {
            Some(
                line4(
                    span(
                        join3("Delete task '", snap.tasks[order[c]].id.as_str(), "'? "),
                        theme::text(),
                    ),
                    styled("y", theme::accent()),
                    styled(" / ", theme::faint()),
                    styled("n", theme::accent()),
                ),
            )
        } else {
            None
        };
        TasksPage { empty: None, header, rows: out, selected: Some(c), prompt }
    }
}

/// A task is removed only once the prompt is up and y has confirmed.
pub proof fn removing_a_task_asks_first(
    pre: TasksView,
    post: TasksView,
    code: KeyCode,
    ctx: AppCtx,
    snap: Snapshot,
    id: String,
)
    requires
        pre.steps(post, code, ctx, snap, Some(Action::RemoveTask(id))),
    ensures
        pre.confirm_delete,
        code == KeyCode::Char('y'),
{
}

impl TabView for TasksView {
    open spec fn name(&self) -> Seq<char> {
        "Tasks"@
    }

    open spec fn ok(&self) -> bool {
        true
    }

    /// While confirming a delete, y, n and Esc belong to the prompt.
    open spec fn claims(&self, code: KeyCode) -> bool {
        if self.confirm_delete {
            code == KeyCode::Char('y') || code == KeyCode::Char('n') || code == KeyCode::Esc
        } else {
            code == KeyCode::Up || code == KeyCode::Down || code == KeyCode::Char('r') || code
                == KeyCode::Char('d')
        }
    }

    open spec fn hints(&self) -> Seq<(Seq<char>, Seq<char>)> {
        if self.confirm_delete {
            seq![("y"@, "confirm delete"@), ("n/Esc"@, "cancel"@)]
        } else {
            seq![
                ("↑↓"@, "select"@),
                ("r"@, "run now"@),
                ("d"@, "delete"@),
                ("·"@, "resume a run with: cc-loadout task resume <id>"@),
            ]
        }
    }

    open spec fn steps(
        self,
        post: Self,
        code: KeyCode,
        ctx: AppCtx,
        snap: Snapshot,
        r: Option<Action>,
    ) -> bool {
        let n = snap.tasks.len() as int;
        let c = clamped(self.selected as int, n);
        if self.confirm_delete {
            &&& post.selected == c
            &&& if code == KeyCode::Char('y') {
                &&& !post.confirm_delete
                &&& if n > 0 {
                    r matches Some(Action::RemoveTask(id)) && id@ == shown_id(
                        snap.tasks@,
                        c,
                    )
                } else {
                    r is None
                }
            } else if code == KeyCode::Char('n') || code == KeyCode::Esc {
                !post.confirm_delete && r is None
            } else {
                post.confirm_delete && r is None
            }
        } else if code == KeyCode::Up {
            &&& r is None
            &&& !post.confirm_delete
            &&& post.selected == if c > 0 {
                c - 1
            } else {
                0
            }
        } else if code == KeyCode::Down {
            &&& r is None
            &&& !post.confirm_delete
            &&& post.selected == clamped(c + 1, n)
        } else {
            &&& post.selected == c
            &&& if code == KeyCode::Char('r') && n > 0 {
                !post.confirm_delete && (r matches Some(Action::RunTask(id)) && id@
                    == shown_id(snap.tasks@, c))
            } else {
                r is None && post.confirm_delete == (code == KeyCode::Char('d') && n
                    > 0)
            }
        }
    }

    fn title(&self) -> (r: &'static str) {
        "Tasks"
    }

    fn claims_key(&self, code: KeyCode) -> (r: bool) {
        if self.confirm_delete {
            code == KeyCode::Char('y') || code == KeyCode::Char('n') || code == KeyCode::Esc
        } else {
            code == KeyCode::Up || code == KeyCode::Down || code == KeyCode::Char('r') || code
                == KeyCode::Char('d')
        }
    }

    fn footer_hints(&self) -> (r: Vec<(&'static str, &'static str)>) {
        let r = if self.confirm_delete {
            vec![("y", "confirm delete"), ("n/Esc", "cancel")]
        } else {
            vec![
                ("↑↓", "select"),
                ("r", "run now"),
                ("d", "delete"),
                ("·", "resume a run with: cc-loadout task resume <id>"),
            ]
        };
        assert(hint_texts(r) =~= self.hints());
        r
    }

    /// Up and Down select without wrapping, r runs, d asks before deleting.
    fn on_key(&mut self, key: KeyEvent, ctx: &AppCtx, snap: &Snapshot) -> (r: Option<Action>) {
        let n: usize = snap.tasks.len();
        self.selected = clamp_to(self.selected, n);
        if self.confirm_delete {
            match key.code {
                KeyCode::Char('y') => {
                    self.confirm_delete = false;
                    return match self.selected_id(snap) {
                        Some(id) => Some(Action::RemoveTask(id)),
                        None => None,
                    };
                },
                KeyCode::Char('n') | KeyCode::Esc => {
                    self.confirm_delete = false;
                },
                _ => {},
            }
            return None;
        }
        match key.code {
            KeyCode::Up => {
                if self.selected > 0 {
                    self.selected = self.selected - 1;
                }
                None
            },
            KeyCode::Down => {
                if n > 0 && self.selected < n - 1 {
                    self.selected = self.selected + 1;
                }
                None
            },
            KeyCode::Char('r') => match self.selected_id(snap) {
                Some(id) => Some(Action::RunTask(id)),
                None => None,
            },
            KeyCode::Char('d') => {
                if n > 0 {
                    self.confirm_delete = true;
                }
                None
            },
            _ => None,
        }
    }
}

/// Tasks with one id keep their order.
pub proof fn equal_ids_keep_their_order(tasks: Seq<TaskRow>, k: int)
    requires
        0 <= k <= tasks.len(),
        tasks.len() <= usize::MAX,
    ensures
        forall|a: int, b: int|
            0 <= a < b < order_of(tasks, k).len() && tasks[#[trigger] order_of(
                tasks,
                k,
            )[a] as int].id@ == tasks[#[trigger] order_of(tasks, k)[b] as int].id@ ==> order_of(
                tasks,
                k,
            )[a] < order_of(tasks, k)[b],
    decreases k,
{
    if k > 0 {
        equal_ids_keep_their_order(tasks, k - 1);
        order_is_sorted_and_complete(tasks, k - 1);
        let before = order_of(tasks, k - 1);
        let i = (k - 1) as usize;
        assert forall|a: int| 0 <= a < before.len() implies (#[trigger] before[a]) < i by {
            assert(before.contains(before[a]));
        }
        lemma_placed_at(before, tasks, i);
        let p = choose|p: int|
            {
                &&& 0 <= p <= before.len()
                &&& placed(before, tasks, i) == #[trigger] before.insert(p, i)
                &&& forall|b: int|
                    p <= b < before.len() ==> lex_lt(
                        tasks[i as int].id@,
                        tasks[#[trigger] before[b] as int].id@,
                    )
            };
        let after = before.insert(p, i);
        assert forall|a: int, b: int|
            0 <= a < b < after.len() && tasks[#[trigger] after[a] as int].id@
                == tasks[#[trigger] after[b] as int].id@ implies after[a] < after[b] by {
            if a == p {
                assert(after[b] == before[b - 1]);
                lemma_lex_irreflexive(tasks[i as int].id@);
            } else if b == p {
                assert(after[a] == before[a]);
            } else {
                let x = if a < p {
                    a
                } else {
                    a - 1
                };
                let y = if b < p {
                    b
                } else {
                    b - 1
                };
                assert(after[a] == before[x] && after[b] == before[y]);
            }
        }
    }
}

proof fn lemma_placed_at(order: Seq<usize>, tasks: Seq<TaskRow>, i: usize)
    ensures
        exists|p: int|
            {
                &&& 0 <= p <= order.len()
                &&& placed(order, tasks, i) == #[trigger] order.insert(p, i)
                &&& forall|b: int|
                    p <= b < order.len() ==> lex_lt(
                        tasks[i as int].id@,
                        tasks[#[trigger] order[b] as int].id@,
                    )
            },
    decreases order.len(),
{
    if order.len() > 0 && lex_lt(tasks[i as int].id@, tasks[order.last() as int].id@) {
        let t = order.drop_last();
        lemma_placed_at(t, tasks, i);
        let p = choose|p: int|
            {
                &&& 0 <= p <= t.len()
                &&& placed(t, tasks, i) == #[trigger] t.insert(p, i)
                &&& forall|b: int|
                    p <= b < t.len() ==> lex_lt(
                        tasks[i as int].id@,
                        tasks[#[trigger] t[b] as int].id@,
                    )
            };
        assert(t.insert(p, i).push(order.last()) =~= order.insert(p, i));
        assert forall|b: int| p <= b < order.len() implies lex_lt(
            tasks[i as int].id@,
            tasks[#[trigger] order[b] as int].id@,
        ) by {
            if b < t.len() {
                assert(t[b] == order[b]);
            }
        }
    } else {
        assert(order.push(i) =~= order.insert(order.len() as int, i));
    }
}

/// The row at a place of the list is that of a task, and each task has a place.
pub proof fn every_task_has_a_place(tasks: Seq<TaskRow>)
    requires
        tasks.len() <= usize::MAX,
    ensures
        task_order(tasks).len() == tasks.len(),
        forall|p: int| 0 <= p < tasks.len() ==> (#[trigger] task_order(tasks)[p]) < tasks.len(),
        forall|i: int|
            0 <= i < tasks.len() ==> exists|p: int|
                0 <= p < tasks.len() && #[trigger] shown_id(tasks, p) == (
                #[trigger] tasks[i]).id@,
        forall|p: int, q: int|
            0 <= p < q < tasks.len() ==> !lex_lt(
                #[trigger] shown_id(tasks, q),
                #[trigger] shown_id(tasks, p),
            ),
{
    let n = tasks.len() as int;
    order_is_sorted_and_complete(tasks, n);
    let order = task_order(tasks);
    assert forall|p: int| 0 <= p < n implies (#[trigger] order[p]) < n by {
        assert(order.contains(order[p]));
    }
    assert forall|i: int| 0 <= i < n implies exists|p: int|
        0 <= p < n && #[trigger] shown_id(tasks, p) == (#[trigger] tasks[i]).id@ by {
        assert(order.contains(i as usize));
        let p = choose|p: int| 0 <= p < order.len() && order[p] == i as usize;
        assert(shown_id(tasks, p) == tasks[i].id@);
    }
}

/// With no prompt open, r runs the task under the cursor, and d asks whether to delete it; in
/// the prompt, y removes it, and n and Esc close the prompt. Up and Down go one row, and stop
/// at the ends.
pub proof fn keys_act_on_the_task_under_the_cursor(
    pre: TasksView,
    post: TasksView,
    code: KeyCode,
    ctx: AppCtx,
    snap: Snapshot,
    r: Option<Action>,
)
    requires
        pre.steps(post, code, ctx, snap, r),
        pre.selected < snap.tasks.len(),
    ensures
        ({
            let n = snap.tasks.len() as int;
            let at = pre.selected as int;
            let id = shown_id(snap.tasks@, at);
            &&& !pre.confirm_delete ==> {
                &&& code == KeyCode::Char('r') ==> (r matches Some(Action::RunTask(x)) && x@ == id)
                &&& code != KeyCode::Char('r') ==> r is None
                &&& post.confirm_delete <==> code == KeyCode::Char('d')
                &&& code == KeyCode::Up ==> post.selected == if at > 0 {
                    at - 1
                } else {
                    0
                }
                &&& code == KeyCode::Down ==> post.selected == if at + 1 < n {
                    at + 1
                } else {
                    at
                }
                &&& code != KeyCode::Up && code != KeyCode::Down ==> post.selected == at
            }
            &&& pre.confirm_delete ==> {
                &&& post.selected == at
                &&& code == KeyCode::Char('y') ==> !post.confirm_delete && (r matches Some(
                    Action::RemoveTask(x),
                ) && x@ == id)
                &&& code == KeyCode::Char('n') || code == KeyCode::Esc ==> !post.confirm_delete
                    && r is None
                &&& code != KeyCode::Char('y') && code != KeyCode::Char('n') && code
                    != KeyCode::Esc ==> post.confirm_delete && r is None
            }
        }),
{
}

/// A row shows the task: its id, kind, account, next time, times and last status, each in its
/// column, and a dash for what is not there.
pub proof fn a_row_shows_the_task(t: TaskRow)
    ensures
        ({
            let next = match t.next_fire {
                Some(f) => clock_text(f),
                None => "—"@,
            };
            let times = if t.times@.len() > 0 {
                joined(t.times.deep_view(), " "@)
            } else {
                "—"@
            };
            let kind = if t.kind is Prime {
                "prime"@
            } else {
                "task"@
            };
            task_text(t) == padded(t.id@, 20) + ("["@ + padded(kind, 5) + "] "@) + padded(
                t.account@,
                14,
            ) + padded(next, 8) + padded(times, 18) + match t.last_status {
                Some(s) => s@,
                None => "—"@,
            }
        }),
{
}

/// An open prompt keeps its answers to itself, so that Esc closes it and does not quit.
pub proof fn the_prompt_keeps_its_answers(v: TasksView)
    requires
        v.confirm_delete,
    ensures
        v.claims(KeyCode::Char('y')),
        v.claims(KeyCode::Char('n')),
        v.claims(KeyCode::Esc),
        !v.claims(KeyCode::Tab),
{
}

} // verus!
