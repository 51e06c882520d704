//! Background tasks shown to the user: the board of running tasks, and the message announced
//! when one finishes.
use vstd::prelude::*;
use vstd::multiset::Multiset;
use crate::keyed::{lists, lemma_lists_absent, lemma_lists_push, lemma_lists_remove};
use crate::path_utils::{opt_text, text_eq};

verus! {

broadcast use vstd::seq_lib::group_to_multiset_ensures;

/// A background task and its progress.
#[derive(Clone, Debug)]
pub struct BackgroundTask {
    pub id: String,
    pub task_type: String,
    pub status: String,
    pub message: Option<String>,
    pub progress: i64,
    pub total: i64,
    pub updated_at: i64,
}

/// The value of a task.
pub struct TaskView {
    pub id: Seq<char>,
    pub task_type: Seq<char>,
    pub status: Seq<char>,
    pub message: Option<Seq<char>>,
    pub progress: i64,
    pub total: i64,
    pub updated_at: i64,
}

impl View for BackgroundTask {
    type V = TaskView;

    open spec fn view(&self) -> TaskView {
        TaskView {
            id: self.id@,
            task_type: self.task_type@,
            status: self.status@,
            message: opt_text(self.message),
            progress: self.progress,
            total: self.total,
            updated_at: self.updated_at,
        }
    }
}

/// The values of a list of tasks.
pub open spec fn tasks_view(v: Seq<BackgroundTask>) -> Seq<TaskView> {
    v.map_values(|t: BackgroundTask| t@)
}

/// A list of tasks as entries keyed by task id.
pub open spec fn task_entries(v: Seq<BackgroundTask>) -> Seq<(Seq<char>, TaskView)> {
    v.map_values(|t: BackgroundTask| (t.id@, t@))
}

/// Tasks are ordered newest first.
pub open spec fn newest_first(v: Seq<TaskView>) -> bool {
    forall|i: int, j: int| 0 <= i < j < v.len() ==> v[i].updated_at >= v[j].updated_at
}

/// A copy of a task.
pub fn copy_task(t: &BackgroundTask) -> (c: BackgroundTask)
    ensures
        c@ == t@,
{
    BackgroundTask {
        id: t.id.clone(),
        task_type: t.task_type.clone(),
        status: t.status.clone(),
        message: match &t.message {
            Some(m) => Some(m.clone()),
            None => None,
        },
        progress: t.progress,
        total: t.total,
        updated_at: t.updated_at,
    }
}

/// The tasks of a list by id: for each id that a task has, that task.
pub open spec fn tasks_map(v: Seq<BackgroundTask>) -> Map<Seq<char>, TaskView> {
    Map::new(
        |id: Seq<char>| exists|i: int| 0 <= i < v.len() && v[i].id@ == id,
        |id: Seq<char>| v[choose|i: int| 0 <= i < v.len() && v[i].id@ == id]@,
    )
}

/// A list of tasks with distinct ids lists its map, each task once.
proof fn lemma_listed(v: Seq<BackgroundTask>)
    requires
        keys_distinct(v),
    ensures
        lists(task_entries(v), tasks_map(v)),
{
    let e = task_entries(v);
    let m = tasks_map(v);
    assert forall|i: int| 0 <= i < e.len() implies #[trigger] m.contains_key(e[i].0) && m[e[i].0]
        == e[i].1 by {
        assert(e[i] == (v[i].id@, v[i]@));
        assert(v[i].id@ == e[i].0);
        let j = choose|j: int| 0 <= j < v.len() && v[j].id@ == e[i].0;
        assert(j == i);
    }
    assert forall|p: Seq<char>| #[trigger] m.contains_key(p) implies exists|i: int|
        0 <= i < e.len() && e[i].0 == p by {
        let i = choose|i: int| 0 <= i < v.len() && v[i].id@ == p;
        assert(e[i].0 == p);
    }
    assert forall|i: int, j: int| 0 <= i < j < e.len() implies e[i].0 != e[j].0 by {
        assert(e[i].0 == v[i].id@);
        assert(e[j].0 == v[j].id@);
    }
}

/// The index of the task with this id in `tasks`, if any.
fn find_in(tasks: &Vec<BackgroundTask>, id: &str) -> (r: Option<usize>)
    ensures
        r matches Some(k) ==> k < tasks@.len() && tasks@[k as int].id@ == id@,
        r is None ==> forall|i: int| 0 <= i < tasks@.len() ==> tasks@[i].id@ != id@,
{
    let mut i: usize = 0;
    while i < tasks.len()
        invariant
            i <= tasks.len(),
            forall|j: int| 0 <= j < i ==> tasks@[j].id@ != id@,
        decreases tasks.len() - i,
    {
        if text_eq(tasks[i].id.as_str(), id) {
            return Some(i);
        }
        i = i + 1;
    }
    None
}

/// Records a task in a list with distinct ids, replacing the task with the same id.
fn upsert_in(tasks: &mut Vec<BackgroundTask>, task: BackgroundTask)
    requires
        keys_distinct(old(tasks)@),
    ensures
        keys_distinct(final(tasks)@),
        tasks_map(final(tasks)@) == tasks_map(old(tasks)@).insert(task.id@, task@),
{
    proof {
                }
    let ghost tv = task@;
    match find_in(tasks, task.id.as_str()) {
        Some(k) => {
            tasks.set(k, task);
            proof {
                assert(keys_distinct(tasks@)) by {
                    assert forall|i: int, j: int|
                        0 <= i < j < tasks@.len() implies tasks@[i].id@
                        != tasks@[j].id@ by {
                        assert(old(tasks)@[i].id@ != old(tasks)@[j].id@);
                    }
                }
                lemma_listed(tasks@);
                assert(tasks_map(tasks@) =~= tasks_map(old(tasks)@).insert(tv.id, tv)) by {
                    lemma_listed(old(tasks)@);
                    assert forall|p: Seq<char>| tasks_map(tasks@).contains_key(p) implies tasks_map(old(tasks)@).insert(
                        tv.id,
                        tv,
                    ).contains_key(p) && tasks_map(tasks@)[p] == tasks_map(old(tasks)@).insert(tv.id, tv)[p] by {
                        let i = choose|i: int|
                            0 <= i < tasks@.len() && tasks@[i].id@ == p;
                        assert(task_entries(tasks@)[i] == (p, tasks@[i]@));
                        if i != k {
                            assert(task_entries(old(tasks)@)[i] == (
                                p,
                                old(tasks)@[i]@,
                            ));
                            assert(tasks_map(old(tasks)@).contains_key(task_entries(old(tasks)@)[i].0));
                        }
                    }
                    assert forall|p: Seq<char>| tasks_map(old(tasks)@).insert(tv.id, tv).contains_key(
                        p,
                    ) implies tasks_map(tasks@).contains_key(p) by {
                        if p != tv.id {
                            let i = choose|i: int|
                                0 <= i < old(tasks)@.len() && old(tasks)@[i].id@
                                    == p;
                            assert(tasks@[i].id@ == p);
                        } else {
                            assert(tasks@[k as int].id@ == p);
                        }
                    }
                }
            }
        },
        None => {
            tasks.push(task);
            proof {
                assert(keys_distinct(tasks@)) by {
                    assert forall|i: int, j: int|
                        0 <= i < j < tasks@.len() implies tasks@[i].id@
                        != tasks@[j].id@ by {
                        if j < old(tasks)@.len() {
                            assert(old(tasks)@[i].id@ != old(tasks)@[j].id@);
                        } else {
                            assert(tasks@[i] == old(tasks)@[i]);
                        }
                    }
                }
                lemma_listed(tasks@);
                assert(tasks_map(tasks@) =~= tasks_map(old(tasks)@).insert(tv.id, tv)) by {
                    lemma_listed(old(tasks)@);
                    assert forall|p: Seq<char>| tasks_map(tasks@).contains_key(p) implies tasks_map(old(tasks)@).insert(
                        tv.id,
                        tv,
                    ).contains_key(p) && tasks_map(tasks@)[p] == tasks_map(old(tasks)@).insert(tv.id, tv)[p] by {
                        let i = choose|i: int|
                            0 <= i < tasks@.len() && tasks@[i].id@ == p;
                        assert(task_entries(tasks@)[i] == (p, tasks@[i]@));
                        if i < old(tasks)@.len() {
                            assert(tasks@[i] == old(tasks)@[i]);
                            assert(task_entries(old(tasks)@)[i] == (
                                p,
                                old(tasks)@[i]@,
                            ));
                            assert(tasks_map(old(tasks)@).contains_key(task_entries(old(tasks)@)[i].0));
                        }
                    }
                    assert forall|p: Seq<char>| tasks_map(old(tasks)@).insert(tv.id, tv).contains_key(
                        p,
                    ) implies tasks_map(tasks@).contains_key(p) by {
                        if p != tv.id {
                            let i = choose|i: int|
                                0 <= i < old(tasks)@.len() && old(tasks)@[i].id@
                                    == p;
                            assert(tasks@[i].id@ == p);
                        } else {
                            assert(tasks@[old(tasks)@.len() as int].id@ == p);
                        }
                    }
                }
            }
        },
    }
}

/// Takes the task with this id out of a list with distinct ids, if there is one.
fn remove_in(tasks: &mut Vec<BackgroundTask>, id: &str) -> (r: Option<BackgroundTask>)
    requires
        keys_distinct(old(tasks)@),
    ensures
        keys_distinct(final(tasks)@),
        tasks_map(final(tasks)@) == tasks_map(old(tasks)@).remove(id@),
        r matches Some(t) ==> tasks_map(old(tasks)@).contains_key(id@) && t@ == tasks_map(
            old(tasks)@,
        )[id@],
        r is None ==> !tasks_map(old(tasks)@).contains_key(id@),
{
    proof {
                    lemma_listed(tasks@);
    }
    match find_in(tasks, id) {
        Some(k) => {
            let t = tasks.remove(k);
            proof {
                assert(keys_distinct(tasks@)) by {
                    assert forall|i: int, j: int|
                        0 <= i < j < tasks@.len() implies tasks@[i].id@
                        != tasks@[j].id@ by {
                        let oi = if i < k { i } else { i + 1 };
                        let oj = if j < k { j } else { j + 1 };
                        assert(tasks@[i] == old(tasks)@[oi]);
                        assert(tasks@[j] == old(tasks)@[oj]);
                        assert(old(tasks)@[oi].id@ != old(tasks)@[oj].id@);
                    }
                }
                lemma_listed(tasks@);
                assert(task_entries(tasks@) =~= task_entries(old(tasks)@).remove(
                    k as int,
                ));
                assert(task_entries(old(tasks)@)[k as int].0 == id@);
                lemma_lists_remove(task_entries(old(tasks)@), tasks_map(old(tasks)@), k as int);
                crate::keyed::lemma_lists_same_map(
                    task_entries(tasks@),
                    tasks_map(tasks@),
                    tasks_map(old(tasks)@).remove(id@),
                );
                assert(tasks_map(old(tasks)@).contains_key(task_entries(old(tasks)@)[k as int].0));
                assert(task_entries(old(tasks)@)[k as int].1 == t@);
            }
            Some(t)
        },
        None => {
            proof {
                assert forall|i: int| 0 <= i < task_entries(tasks@).len() implies task_entries(
                    tasks@,
                )[i].0 != id@ by {
                    assert(task_entries(tasks@)[i].0 == tasks@[i].id@);
                }
                lemma_lists_absent(task_entries(tasks@), tasks_map(tasks@), id@);
                assert(tasks_map(tasks@).remove(id@) =~= tasks_map(tasks@));
            }
            None
        },
    }
}

/// The running tasks, at most one per id.
pub struct TaskBoard {
    tasks: Vec<BackgroundTask>,
}

impl View for TaskBoard {
    type V = Map<Seq<char>, TaskView>;

    closed spec fn view(&self) -> Map<Seq<char>, TaskView> {
        tasks_map(self.tasks@)
    }
}

impl TaskBoard {
    /// No two of the board's tasks share an id.
    #[verifier::type_invariant]
    closed spec fn ids_distinct(&self) -> bool {
        keys_distinct(self.tasks@)
    }

    /// An empty board.
    pub fn new() -> (b: TaskBoard)
        ensures
            b@ == Map::<Seq<char>, TaskView>::empty(),
    {
        let b = TaskBoard { tasks: Vec::new() };
        proof {
            assert(b@ =~= Map::<Seq<char>, TaskView>::empty());
        }
        b
    }

    /// Records a task, replacing the task with the same id.
    pub fn upsert(&mut self, task: BackgroundTask)
        ensures
            final(self)@ == old(self)@.insert(task.id@, task@),
    {
        proof {
            use_type_invariant(&*self);
        }
        let mut tasks: Vec<BackgroundTask> = Vec::new();
        std::mem::swap(&mut tasks, &mut self.tasks);
        upsert_in(&mut tasks, task);
        self.tasks = tasks;
    }

    /// Takes out the task with this id, if there is one.
    pub fn remove(&mut self, id: &str) -> (r: Option<BackgroundTask>)
        ensures
            final(self)@ == old(self)@.remove(id@),
            r matches Some(t) ==> old(self)@.contains_key(id@) && t@ == old(self)@[id@],
            r is None ==> !old(self)@.contains_key(id@),
    {
        proof {
            use_type_invariant(&*self);
        }
        let mut tasks: Vec<BackgroundTask> = Vec::new();
        std::mem::swap(&mut tasks, &mut self.tasks);
        let r = remove_in(&mut tasks, id);
        self.tasks = tasks;
        r
    }

    /// Removes every task.
    pub fn clear(&mut self)
        ensures
            final(self)@ == Map::<Seq<char>, TaskView>::empty(),
    {
        self.tasks = Vec::new();
        proof {
            assert(self@ =~= Map::<Seq<char>, TaskView>::empty());
        }
    }

    /// The tasks, newest first (by the time of their last update).
    pub fn newest_first(&self) -> (r: Vec<BackgroundTask>)
        ensures
            newest_first(tasks_view(r@)),
            tasks_view(r@).to_multiset() == self.values_multiset(),
            lists_tasks_of(tasks_view(r@), self@),
    {
        proof {
            use_type_invariant(self);
        }
        let mut rest: Vec<BackgroundTask> = Vec::new();
        let mut i: usize = 0;
        while i < self.tasks.len()
            invariant
                i <= self.tasks.len(),
                tasks_view(rest@) == tasks_view(self.tasks@.take(i as int)),
            decreases self.tasks.len() - i,
        {
            let c = copy_task(&self.tasks[i]);
            let ghost before = rest@;
            rest.push(c);
            proof {
                assert(self.tasks@.take(i + 1) == self.tasks@.take(i as int).push(self.tasks@[i as int]));
                assert(rest@ == before.push(c));
                assert(tasks_view(before.push(c)) =~= tasks_view(before).push(c@));
                assert(tasks_view(self.tasks@.take(i as int).push(self.tasks@[i as int])) =~= tasks_view(
                    self.tasks@.take(i as int),
                ).push(self.tasks@[i as int]@));
                assert(tasks_view(rest@) =~= tasks_view(self.tasks@.take(i + 1)));
            }
            i = i + 1;
        }
        proof {
            assert(self.tasks@.take(self.tasks.len() as int) == self.tasks@);
        }
        let ghost all = tasks_view(self.tasks@).to_multiset();
        let mut out: Vec<BackgroundTask> = Vec::new();
        proof {
            assert(tasks_view(out@) =~= Seq::<TaskView>::empty());
        }
        while rest.len() > 0
            invariant
                newest_first(tasks_view(out@)),
                forall|a: int, b: int|
                    0 <= a < out@.len() && 0 <= b < rest@.len() ==> out@[a].updated_at
                        >= rest@[b].updated_at,
                tasks_view(out@).to_multiset().add(tasks_view(rest@).to_multiset()) == all,
            decreases rest.len(),
        {
            let mut best: usize = 0;
            let mut j: usize = 1;
            while j < rest.len()
                invariant
                    best < rest.len(),
                    1 <= j <= rest.len(),
                    best < j,
                    forall|b: int| 0 <= b < j ==> rest@[best as int].updated_at >= rest@[b].updated_at,
                decreases rest.len() - j,
            {
                if rest[j].updated_at > rest[best].updated_at {
                    best = j;
                }
                j = j + 1;
            }
            let ghost rv = tasks_view(rest@);
            let ghost ov = tasks_view(out@);
            let t = rest.remove(best);
            proof {
                assert(tasks_view(rest@) =~= rv.remove(best as int));
                assert(rv[best as int] == t@);
            }
            out.push(t);
            proof {
                assert(tasks_view(out@) =~= ov.push(t@));
                assert forall|a: int, b: int|
                    0 <= a < out@.len() && 0 <= b < rest@.len() implies out@[a].updated_at
                    >= rest@[b].updated_at by {
                    let ob = if b < best { b } else { b + 1 };
                    assert(tasks_view(rest@)[b] == rv[ob]);
                }
                assert(tasks_view(out@).to_multiset().add(tasks_view(rest@).to_multiset()) =~= all);
            }
        }
        proof {
            assert(tasks_view(rest@) =~= Seq::<TaskView>::empty());
            assert(tasks_view(out@).to_multiset() =~= all);
            lemma_listing_from_multiset(self.tasks@, tasks_view(out@));
        }
        out
    }

    /// The tasks of the board, as a multiset of values.
    pub closed spec fn values_multiset(&self) -> Multiset<TaskView> {
        tasks_view(self.tasks@).to_multiset()
    }
}

/// `v` lists the tasks of `m`: each entry is the task of its id, every task of `m` is listed,
/// and no id is listed twice.
pub open spec fn lists_tasks_of(v: Seq<TaskView>, m: Map<Seq<char>, TaskView>) -> bool {
    &&& forall|i: int| 0 <= i < v.len() ==> m.contains_key(#[trigger] v[i].id) && m[v[i].id] == v[i]
    &&& forall|id: Seq<char>| #[trigger] m.contains_key(id) ==> exists|i: int|
        0 <= i < v.len() && v[i].id == id
    &&& forall|i: int, j: int| 0 <= i < j < v.len() ==> v[i].id != v[j].id
}

/// A list with the same tasks, counted with repetition, as a list of tasks with distinct ids
/// lists the map of those tasks.
proof fn lemma_listing_from_multiset(tasks: Seq<BackgroundTask>, rv: Seq<TaskView>)
    requires
        keys_distinct(tasks),
        rv.to_multiset() == tasks_view(tasks).to_multiset(),
    ensures
        lists_tasks_of(rv, tasks_map(tasks)),
{
    let tv = tasks_view(tasks);
    let m = tasks_map(tasks);
    lemma_listed(tasks);
    assert(tv.no_duplicates()) by {
        assert forall|i: int, j: int| 0 <= i < tv.len() && 0 <= j < tv.len() && i != j implies tv[i]
            != tv[j] by {
            assert(tv[i].id == tasks[i].id@);
            assert(tv[j].id == tasks[j].id@);
        }
    }
    tv.lemma_multiset_has_no_duplicates();
    rv.lemma_multiset_has_no_duplicates_conv();
    assert forall|i: int| 0 <= i < rv.len() implies m.contains_key(#[trigger] rv[i].id) && m[rv[i].id]
        == rv[i] by {
        assert(rv.contains(rv[i]));
        assert(rv.to_multiset().count(rv[i]) > 0);
        assert(tv.contains(rv[i]));
        let j = choose|j: int| 0 <= j < tv.len() && tv[j] == rv[i];
        assert(task_entries(tasks)[j] == (tasks[j].id@, tasks[j]@));
    }
    assert forall|id: Seq<char>| #[trigger] m.contains_key(id) implies exists|i: int|
        0 <= i < rv.len() && rv[i].id == id by {
        let j = choose|j: int| 0 <= j < tasks.len() && tasks[j].id@ == id;
        assert(tv[j] == tasks[j]@);
        assert(tv.contains(tv[j]));
        assert(rv.to_multiset().count(tv[j]) > 0);
        assert(rv.contains(tv[j]));
    }
    assert forall|i: int, j: int| 0 <= i < j < rv.len() implies rv[i].id != rv[j].id by {
        if rv[i].id == rv[j].id {
            assert(m.contains_key(rv[i].id) && m[rv[i].id] == rv[i]);
            assert(m.contains_key(rv[j].id) && m[rv[j].id] == rv[j]);
        }
    }
}

/// No two tasks share an id.
pub open spec fn keys_distinct(v: Seq<BackgroundTask>) -> bool {
    forall|i: int, j: int| 0 <= i < j < v.len() ==> v[i].id@ != v[j].id@
}

/// What `heck::ToTitleCase::to_title_case` returns for a text.
pub uninterp spec fn spec_title_case(s: Seq<char>) -> Seq<char>;

/// Calls `heck::ToTitleCase::to_title_case`: the words of the text, split at case changes,
/// spaces, dashes and underscores, each capitalized and joined by spaces. A function of the text
/// alone; named here and not written out.
#[verifier::external_body]
fn title_case(s: &str) -> (r: String)
    ensures
        r@ == spec_title_case(s@),
{
    heck::ToTitleCase::to_title_case(s)
}

/// The message announced when a task finishes: the given one, else "<Task Type> completed" for a
/// task that was running, else none.
pub open spec fn finish_message_spec(message: Option<Seq<char>>, removed: Option<TaskView>) -> Option<
    Seq<char>,
> {
    match message {
        Some(m) => Some(m),
        None => match removed {
            Some(t) => Some(spec_title_case(t.task_type) + " completed"@),
            None => None,
        },
    }
}

/// The message announced when a task finishes.
pub fn finish_message(message: Option<&str>, removed: &Option<BackgroundTask>) -> (r: Option<String>)
    ensures
        opt_text(r) == finish_message_spec(
            match message {
                Some(m) => Some(m@),
                None => None,
            },
            match removed {
                Some(t) => Some(t@),
                None => None,
            },
        ),
{
    match message {
        Some(m) => Some(m.to_string()),
        None => match removed {
            Some(t) => {
                let mut s = title_case(t.task_type.as_str());
                s.append(" completed");
                Some(s)
            },
            None => None,
        },
    }
}

} // verus!
