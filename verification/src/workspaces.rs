//! Workspaces: named sets of boards (source folders), and the edits made to them.
use vstd::prelude::*;
use crate::error::{AppError, AppResult, not_found};
use crate::path_utils::text_eq;
use crate::ai_config::AiConfig;
use crate::state_manager::AppConfig;
use crate::tasks::BackgroundTask;
use rand::seq::IndexedRandom;

verus! {

/// A workspace: its id, its name, the ids of its boards and the paths of their folders.
#[derive(Clone, Debug)]
pub struct Workspace {
    pub id: String,
    pub name: String,
    pub board_ids: Vec<i32>,
    pub folder_paths: Vec<String>,
}

/// The value of a workspace.
pub struct WorkspaceView {
    pub id: Seq<char>,
    pub name: Seq<char>,
    pub board_ids: Seq<i32>,
    pub folder_paths: Seq<Seq<char>>,
}

/// The texts of a list of strings.
pub open spec fn texts(v: Seq<String>) -> Seq<Seq<char>> {
    v.map_values(|s: String| s@)
}

impl View for Workspace {
    type V = WorkspaceView;

    open spec fn view(&self) -> WorkspaceView {
        WorkspaceView {
            id: self.id@,
            name: self.name@,
            board_ids: self.board_ids@,
            folder_paths: texts(self.folder_paths@),
        }
    }
}

/// The texts after a push are the texts before, and the new text.
pub proof fn lemma_texts_push(v: Seq<String>, x: String)
    ensures
        texts(v.push(x)) == texts(v).push(x@),
{
    assert(texts(v.push(x)) =~= texts(v).push(x@));
}

/// The values of a list of workspaces.
pub open spec fn workspaces_view(v: Seq<Workspace>) -> Seq<WorkspaceView> {
    v.map_values(|w: Workspace| w@)
}

/// One row of the join of workspaces with their boards: the workspace, and one of its boards
/// with that board's folder, when it has any.
#[derive(Clone, Debug)]
pub struct WorkspaceRow {
    pub id: String,
    pub name: String,
    pub board_id: Option<i32>,
    pub path: Option<String>,
}

/// The value of a row.
pub struct WorkspaceRowView {
    pub id: Seq<char>,
    pub name: Seq<char>,
    pub board_id: Option<i32>,
    pub path: Option<Seq<char>>,
}

impl View for WorkspaceRow {
    type V = WorkspaceRowView;

    open spec fn view(&self) -> WorkspaceRowView {
        WorkspaceRowView {
            id: self.id@,
            name: self.name@,
            board_id: self.board_id,
            path: match self.path {
                Some(p) => Some(p@),
                None => None,
            },
        }
    }
}

/// The values of a list of rows.
pub open spec fn rows_view(v: Seq<WorkspaceRow>) -> Seq<WorkspaceRowView> {
    v.map_values(|r: WorkspaceRow| r@)
}

/// The index of the first workspace with this id, or -1.
pub open spec fn index_of_id(ws: Seq<WorkspaceView>, id: Seq<char>) -> int
    decreases ws.len(),
{
    if ws.len() == 0 {
        -1
    } else {
        let k = index_of_id(ws.drop_last(), id);
        if k >= 0 {
            k
        } else if ws.last().id == id {
            ws.len() - 1
        } else {
            -1
        }
    }
}

/// A workspace with the row's board and folder added, when the row has them.
pub open spec fn extend_with_row(w: WorkspaceView, r: WorkspaceRowView) -> WorkspaceView {
    WorkspaceView {
        board_ids: match r.board_id {
            Some(b) => w.board_ids.push(b),
            None => w.board_ids,
        },
        folder_paths: match r.path {
            Some(p) => w.folder_paths.push(p),
            None => w.folder_paths,
        },
        ..w
    }
}

/// The list after one more row: the row extends the workspace with its id, or starts a new one
/// at the end.
pub open spec fn add_row(ws: Seq<WorkspaceView>, r: WorkspaceRowView) -> Seq<WorkspaceView> {
    let k = index_of_id(ws, r.id);
    if k >= 0 {
        ws.update(k, extend_with_row(ws[k], r))
    } else {
        ws.push(
            extend_with_row(
                WorkspaceView {
                    id: r.id,
                    name: r.name,
                    board_ids: Seq::empty(),
                    folder_paths: Seq::empty(),
                },
                r,
            ),
        )
    }
}

/// The workspaces that a list of rows describes, in the order their ids first appear.
pub open spec fn group_rows(rows: Seq<WorkspaceRowView>) -> Seq<WorkspaceView>
    decreases rows.len(),
{
    if rows.len() == 0 {
        Seq::empty()
    } else {
        add_row(group_rows(rows.drop_last()), rows.last())
    }
}

/// No two workspaces share an id.
pub open spec fn ids_unique(ws: Seq<WorkspaceView>) -> bool {
    forall|i: int, j: int| 0 <= i < j < ws.len() ==> ws[i].id != ws[j].id
}

proof fn lemma_index_of_id(ws: Seq<WorkspaceView>, id: Seq<char>)
    ensures
        -1 <= index_of_id(ws, id) < ws.len(),
        index_of_id(ws, id) >= 0 ==> ws[index_of_id(ws, id)].id == id,
        index_of_id(ws, id) == -1 ==> forall|i: int| 0 <= i < ws.len() ==> ws[i].id != id,
    decreases ws.len(),
{
    if ws.len() > 0 {
        lemma_index_of_id(ws.drop_last(), id);
        assert forall|i: int| 0 <= i < ws.len() - 1 implies ws[i] == ws.drop_last()[i] by {}
    }
}

/// The index of an id after one more workspace is appended.
proof fn lemma_index_of_id_push(ws: Seq<WorkspaceView>, w: WorkspaceView, id: Seq<char>)
    ensures
        index_of_id(ws.push(w), id) == if index_of_id(ws, id) >= 0 {
            index_of_id(ws, id)
        } else if w.id == id {
            ws.len() as int
        } else {
            -1
        },
{
    assert(ws.push(w).drop_last() == ws);
}

/// The index of an id depends only on the ids of the list.
proof fn lemma_index_of_id_same_ids(a: Seq<WorkspaceView>, b: Seq<WorkspaceView>, id: Seq<char>)
    requires
        a.len() == b.len(),
        forall|i: int| 0 <= i < a.len() ==> #[trigger] a[i].id == b[i].id,
    ensures
        index_of_id(a, id) == index_of_id(b, id),
    decreases a.len(),
{
    if a.len() > 0 {
        assert forall|i: int| 0 <= i < a.len() - 1 implies #[trigger] a.drop_last()[i].id
            == b.drop_last()[i].id by {
            assert(a.drop_last()[i] == a[i]);
            assert(b.drop_last()[i] == b[i]);
        }
        lemma_index_of_id_same_ids(a.drop_last(), b.drop_last(), id);
    }
}

proof fn lemma_add_row_unique(ws: Seq<WorkspaceView>, r: WorkspaceRowView)
    requires
        ids_unique(ws),
    ensures
        ids_unique(add_row(ws, r)),
        add_row(ws, r)[index_of_id(add_row(ws, r), r.id)].id == r.id,
        index_of_id(add_row(ws, r), r.id) >= 0,
        forall|i: int| 0 <= i < ws.len() ==> #[trigger] add_row(ws, r)[i].id == ws[i].id,
        add_row(ws, r).len() == ws.len() || add_row(ws, r).len() == ws.len() + 1,
        add_row(ws, r).len() == ws.len() + 1 ==> add_row(ws, r)[ws.len() as int].id == r.id,
{
    lemma_index_of_id(ws, r.id);
    let k = index_of_id(ws, r.id);
    let a = add_row(ws, r);
    if k >= 0 {
        assert forall|i: int| 0 <= i < ws.len() implies #[trigger] ws[i].id == a[i].id by {}
        lemma_index_of_id_same_ids(ws, a, r.id);
    } else {
        lemma_index_of_id_push(
            ws,
            extend_with_row(
                WorkspaceView {
                    id: r.id,
                    name: r.name,
                    board_ids: Seq::empty(),
                    folder_paths: Seq::empty(),
                },
                r,
            ),
            r.id,
        );
    }
    lemma_index_of_id(a, r.id);
}

/// The workspaces that rows describe have distinct ids, and every row's workspace is among
/// them.
pub proof fn lemma_group_rows_ids(rows: Seq<WorkspaceRowView>)
    ensures
        ids_unique(group_rows(rows)),
        forall|i: int| 0 <= i < rows.len() ==> index_of_id(group_rows(rows), #[trigger] rows[i].id)
            >= 0,
        forall|k: int|
            0 <= k < group_rows(rows).len() ==> exists|i: int|
                0 <= i < rows.len() && #[trigger] rows[i].id == (#[trigger] group_rows(rows)[k]).id,
    decreases rows.len(),
{
    if rows.len() > 0 {
        let prev = rows.drop_last();
        lemma_group_rows_ids(prev);
        let g = group_rows(prev);
        lemma_add_row_unique(g, rows.last());
        lemma_index_of_id(group_rows(rows), rows.last().id);
        assert forall|i: int| 0 <= i < rows.len() implies index_of_id(
            group_rows(rows),
            #[trigger] rows[i].id,
        ) >= 0 by {
            lemma_index_of_id(group_rows(rows), rows[i].id);
            if i < rows.len() - 1 {
                assert(prev[i] == rows[i]);
                lemma_index_of_id(g, prev[i].id);
                let k = index_of_id(g, prev[i].id);
                assert(group_rows(rows)[k].id == rows[i].id);
            }
        }
        assert forall|k: int| 0 <= k < group_rows(rows).len() implies exists|i: int|
            0 <= i < rows.len() && #[trigger] rows[i].id == (
            #[trigger] group_rows(rows)[k]).id by {
            if k < g.len() {
                let i = choose|i: int| 0 <= i < prev.len() && #[trigger] prev[i].id == g[k].id;
                assert(rows[i] == prev[i]);
                assert(rows[i].id == group_rows(rows)[k].id);
            } else {
                assert(rows[rows.len() - 1].id == group_rows(rows)[k].id);
            }
        }
    }
}

/// The board ids that the rows of workspace `id` carry, in row order.
pub open spec fn row_board_ids(rows: Seq<WorkspaceRowView>, id: Seq<char>) -> Seq<i32>
    decreases rows.len(),
{
    if rows.len() == 0 {
        Seq::empty()
    } else {
        let prev = row_board_ids(rows.drop_last(), id);
        match rows.last().board_id {
            Some(b) if rows.last().id == id => prev.push(b),
            _ => prev,
        }
    }
}

/// The folder paths that the rows of workspace `id` carry, in row order.
pub open spec fn row_paths(rows: Seq<WorkspaceRowView>, id: Seq<char>) -> Seq<Seq<char>>
    decreases rows.len(),
{
    if rows.len() == 0 {
        Seq::empty()
    } else {
        let prev = row_paths(rows.drop_last(), id);
        match rows.last().path {
            Some(p) if rows.last().id == id => prev.push(p),
            _ => prev,
        }
    }
}

/// Grouping gives back each workspace as its rows wrote it: a workspace is listed exactly when
/// some row carries its id; it has the name of one of its rows, and the board ids and folder
/// paths of its rows, in row order.
pub proof fn lemma_group_rows_workspace(rows: Seq<WorkspaceRowView>, id: Seq<char>)
    ensures
        ({
            let ws = group_rows(rows);
            let k = index_of_id(ws, id);
            &&& (k >= 0 <==> exists|i: int| 0 <= i < rows.len() && #[trigger] rows[i].id == id)
            &&& k >= 0 ==> ws[k].board_ids == row_board_ids(rows, id) && ws[k].folder_paths
                == row_paths(rows, id) && exists|i: int|
                0 <= i < rows.len() && #[trigger] rows[i].id == id && rows[i].name == ws[k].name
            &&& k < 0 ==> row_board_ids(rows, id) == Seq::<i32>::empty() && row_paths(rows, id)
                == Seq::<Seq<char>>::empty()
        }),
    decreases rows.len(),
{
    if rows.len() > 0 {
        let prev = rows.drop_last();
        let r = rows.last();
        lemma_group_rows_workspace(prev, id);
        lemma_group_rows_ids(prev);
        let g = group_rows(prev);
        let ws = group_rows(rows);
        assert(ws == add_row(g, r));
        lemma_index_of_id(g, r.id);
        lemma_index_of_id(g, id);
        let kr = index_of_id(g, r.id);
        let kw = index_of_id(g, id);
        lemma_add_row_unique(g, r);
        if kr >= 0 {
            assert forall|i: int| 0 <= i < g.len() implies #[trigger] g[i].id == ws[i].id by {}
            lemma_index_of_id_same_ids(g, ws, id);
        } else {
            lemma_index_of_id_push(
                g,
                extend_with_row(
                    WorkspaceView {
                        id: r.id,
                        name: r.name,
                        board_ids: Seq::empty(),
                        folder_paths: Seq::empty(),
                    },
                    r,
                ),
                id,
            );
        }
        let k = index_of_id(ws, id);
        if exists|i: int| 0 <= i < prev.len() && #[trigger] prev[i].id == id {
            let i = choose|i: int| 0 <= i < prev.len() && #[trigger] prev[i].id == id;
            assert(rows[i] == prev[i]);
        }
        if r.id == id {
            assert(rows[rows.len() - 1].id == id);
        }
        assert forall|i: int| 0 <= i < rows.len() && #[trigger] rows[i].id == id && i
            < rows.len() - 1 implies prev[i].id == id by {
            assert(prev[i] == rows[i]);
        }
        if k >= 0 && kw >= 0 {
            let i = choose|i: int|
                0 <= i < prev.len() && #[trigger] prev[i].id == id && prev[i].name == g[kw].name;
            assert(rows[i] == prev[i]);
        }
    }
}

/// The index of the first workspace with this id, if any.
pub fn find_workspace(ws: &Vec<Workspace>, id: &str) -> (r: Option<usize>)
    ensures
        r is None ==> index_of_id(workspaces_view(ws@), id@) == -1,
        r matches Some(k) ==> index_of_id(workspaces_view(ws@), id@) == k as int && k < ws.len(),
{
    let ghost wv = workspaces_view(ws@);
    let mut i: usize = 0;
    while i < ws.len()
        invariant
            i <= ws.len(),
            wv == workspaces_view(ws@),
            index_of_id(wv.take(i as int), id@) == -1,
        decreases ws.len() - i,
    {
        proof {
            assert(wv.take(i + 1).drop_last() == wv.take(i as int));
        }
        if text_eq(ws[i].id.as_str(), id) {
            proof {
                lemma_prefix_index(wv, id@, i as int);
            }
            return Some(i);
        }
        i = i + 1;
    }
    proof {
        assert(wv.take(ws.len() as int) == wv);
    }
    None
}

proof fn lemma_prefix_index(ws: Seq<WorkspaceView>, id: Seq<char>, i: int)
    requires
        0 <= i < ws.len(),
        index_of_id(ws.take(i), id) == -1,
        ws[i].id == id,
    ensures
        index_of_id(ws, id) == i,
    decreases ws.len(),
{
    if i < ws.len() - 1 {
        assert(ws.drop_last().take(i) == ws.take(i));
        lemma_prefix_index(ws.drop_last(), id, i);
    } else {
        assert(ws.drop_last() == ws.take(i));
    }
}

/// A copy of a workspace.
pub fn copy_workspace(w: &Workspace) -> (c: Workspace)
    ensures
        c@ == w@,
{
    Workspace {
        id: w.id.clone(),
        name: w.name.clone(),
        board_ids: w.board_ids.clone(),
        folder_paths: copy_strings(&w.folder_paths),
    }
}

/// A copy of a list of strings.
pub fn copy_strings(v: &Vec<String>) -> (c: Vec<String>)
    ensures
        texts(c@) == texts(v@),
{
    let mut c: Vec<String> = Vec::new();
    let mut i: usize = 0;
    while i < v.len()
        invariant
            i <= v.len(),
            texts(c@) == texts(v@.take(i as int)),
        decreases v.len() - i,
    {
        let x = v[i].clone();
        let ghost prev = c@;
        c.push(x);
        proof {
            assert(v@.take(i + 1) == v@.take(i as int).push(v@[i as int]));
            lemma_texts_push(prev, x);
            lemma_texts_push(v@.take(i as int), v@[i as int]);
            assert(texts(c@) =~= texts(v@.take(i + 1)));
        }
        i = i + 1;
    }
    assert(v@.take(v.len() as int) == v@);
    c
}

/// Groups joined rows into workspaces, in the order their ids first appear; each workspace
/// collects, in row order, the boards and folders of its rows.
pub fn group_workspace_rows(rows: &Vec<WorkspaceRow>) -> (ws: Vec<Workspace>)
    ensures
        workspaces_view(ws@) == group_rows(rows_view(rows@)),
        ids_unique(workspaces_view(ws@)),
{
    let ghost rv = rows_view(rows@);
    let mut ws: Vec<Workspace> = Vec::new();
    let mut i: usize = 0;
    while i < rows.len()
        invariant
            i <= rows.len(),
            rv == rows_view(rows@),
            workspaces_view(ws@) == group_rows(rv.take(i as int)),
        decreases rows.len() - i,
    {
        let row = &rows[i];
        proof {
            assert(rv.take(i + 1).drop_last() == rv.take(i as int));
            assert(rv.take(i + 1).last() == row@);
            lemma_index_of_id(workspaces_view(ws@), row@.id);
        }
        let ghost before = workspaces_view(ws@);
        let found = find_workspace(&ws, row.id.as_str());
        let mut w = match found {
            Some(k) => copy_workspace(&ws[k]),
            None => {
                let fresh = Workspace {
                    id: row.id.clone(),
                    name: row.name.clone(),
                    board_ids: Vec::new(),
                    folder_paths: Vec::new(),
                };
                proof {
                    assert(texts(fresh.folder_paths@) =~= Seq::<Seq<char>>::empty());
                    assert(fresh@ =~~= WorkspaceView {
                        id: row@.id,
                        name: row@.name,
                        board_ids: Seq::empty(),
                        folder_paths: Seq::empty(),
                    });
                }
                fresh
            },
        };
        let ghost base = w@;
        match row.board_id {
            Some(b) => {
                w.board_ids.push(b);
            },
            None => {},
        }
        match &row.path {
            Some(p) => {
                let ghost prev = w.folder_paths@;
                let pc = p.clone();
                w.folder_paths.push(pc);
                proof {
                    lemma_texts_push(prev, pc);
                }
            },
            None => {},
        }
        proof {
            assert(w@ =~= extend_with_row(base, row@));
        }
        match found {
            Some(k) => {
                let ghost wv = w@;
                ws[k] = w;
                proof {
                    assert(base == before[k as int]);
                    assert(workspaces_view(ws@) =~= before.update(k as int, wv));
                }
            },
            None => {
                let ghost wv = w@;
                ws.push(w);
                proof {
                    assert(base =~~= WorkspaceView {
                        id: row@.id,
                        name: row@.name,
                        board_ids: Seq::empty(),
                        folder_paths: Seq::empty(),
                    });
                    assert(workspaces_view(ws@) =~= before.push(wv));
                }
            },
        }
        i = i + 1;
    }
    proof {
        assert(rv.take(rows.len() as int) == rv);
        lemma_group_rows_ids(rv);
    }
    ws
}

/// The board ids after adding `b`: unchanged when it is already there, else `b` at the end.
pub open spec fn add_board_spec(ids: Seq<i32>, b: i32) -> Seq<i32> {
    if ids.contains(b) {
        ids
    } else {
        ids.push(b)
    }
}

/// The board ids after removing every occurrence of `b`.
pub open spec fn remove_board_spec(ids: Seq<i32>, b: i32) -> Seq<i32> {
    ids.filter(other_than(b))
}

/// The predicate "is not `b`".
pub open spec fn other_than(b: i32) -> spec_fn(i32) -> bool {
    |x: i32| x != b
}

/// Whether `ids` holds `b`.
pub fn contains_id(ids: &Vec<i32>, b: i32) -> (r: bool)
    ensures
        r == ids@.contains(b),
{
    let mut i: usize = 0;
    while i < ids.len()
        invariant
            i <= ids.len(),
            forall|k: int| 0 <= k < i ==> ids@[k] != b,
        decreases ids.len() - i,
    {
        if ids[i] == b {
            return true;
        }
        i = i + 1;
    }
    false
}

/// Adds board `b` to a workspace's boards unless it is there already; returns whether it
/// was added.
pub fn add_board_id(ids: &mut Vec<i32>, b: i32) -> (added: bool)
    ensures
        added == !old(ids)@.contains(b),
        final(ids)@ == add_board_spec(old(ids)@, b),
{
    if contains_id(ids, b) {
        false
    } else {
        ids.push(b);
        true
    }
}

/// Removes board `b` from a workspace's boards, keeping the others in order; returns whether
/// it was there.
pub fn remove_board_id(ids: &mut Vec<i32>, b: i32) -> (removed: bool)
    ensures
        removed == old(ids)@.contains(b),
        final(ids)@ == remove_board_spec(old(ids)@, b),
{
    broadcast use vstd::seq_lib::group_filter_ensures;

    let ghost orig = ids@;
    let mut kept: Vec<i32> = Vec::new();
    let mut i: usize = 0;
    while i < ids.len()
        invariant
            i <= ids.len(),
            ids@ == orig,
            kept@ == remove_board_spec(orig.take(i as int), b),
        decreases ids.len() - i,
    {
        let x = ids[i];
        proof {
            assert(orig.take(i + 1) == orig.take(i as int).push(x));
            orig.take(i as int).lemma_filter_push(x, other_than(b));
        }
        if x != b {
            kept.push(x);
        }
        i = i + 1;
    }
    proof {
        assert(orig.take(orig.len() as int) == orig);
    }
    let removed = kept.len() != ids.len();
    proof {
        if orig.contains(b) {
            let k = choose|k: int| 0 <= k < orig.len() && orig[k] == b;
            if kept@.len() == orig.len() {
                lemma_filter_full(orig, b);
            }
        } else {
            lemma_filter_none_removed(orig, b);
        }
    }
    *ids = kept;
    removed
}

proof fn lemma_filter_full(s: Seq<i32>, b: i32)
    requires
        remove_board_spec(s, b).len() == s.len(),
    ensures
        !s.contains(b),
    decreases s.len(),
{
    if s.len() > 0 {
        let p = s.drop_last();
        assert(s == p.push(s.last()));
        p.lemma_filter_push(s.last(), other_than(b));
        p.lemma_filter_len(other_than(b));
        if s.last() == b {
            assert(false);
        }
        lemma_filter_full(p, b);
        assert forall|k: int| 0 <= k < s.len() implies s[k] != b by {
            if k < p.len() {
                assert(s[k] == p[k]);
            }
        }
    }
}

proof fn lemma_filter_none_removed(s: Seq<i32>, b: i32)
    requires
        !s.contains(b),
    ensures
        remove_board_spec(s, b) == s,
    decreases s.len(),
{
    if s.len() > 0 {
        let p = s.drop_last();
        assert(s == p.push(s.last()));
        assert(!p.contains(b)) by {
            if p.contains(b) {
                let k = choose|k: int| 0 <= k < p.len() && p[k] == b;
                assert(s[k] == b);
            }
        }
        p.lemma_filter_push(s.last(), other_than(b));
        lemma_filter_none_removed(p, b);
    } else {
        assert(remove_board_spec(s, b) =~= s);
    }
}

/// Adding a board that the workspace does not hold and then removing it gives back the
/// boards it had before.
pub proof fn lemma_remove_undoes_add(ids: Seq<i32>, b: i32)
    requires
        !ids.contains(b),
    ensures
        remove_board_spec(add_board_spec(ids, b), b) == ids,
{
    ids.lemma_filter_push(b, other_than(b));
    lemma_filter_none_removed(ids, b);
}

/// Adding a board twice is the same as adding it once, and after adding it the workspace holds
/// it; after removing it, the workspace does not.
pub proof fn lemma_board_edits(ids: Seq<i32>, b: i32)
    ensures
        add_board_spec(add_board_spec(ids, b), b) == add_board_spec(ids, b),
        add_board_spec(ids, b).contains(b),
        !remove_board_spec(ids, b).contains(b),
{
    broadcast use vstd::seq_lib::group_filter_ensures;

    assert(ids.push(b)[ids.len() as int] == b);
    if remove_board_spec(ids, b).contains(b) {
        let k = choose|k: int|
            0 <= k < remove_board_spec(ids, b).len() && remove_board_spec(ids, b)[k] == b;
        ids.lemma_filter_pred(other_than(b), k);
    }
}

/// The board ids after adding each of `news` in turn.
pub open spec fn add_boards_spec(ids: Seq<i32>, news: Seq<i32>) -> Seq<i32>
    decreases news.len(),
{
    if news.len() == 0 {
        ids
    } else {
        add_board_spec(add_boards_spec(ids, news.drop_last()), news.last())
    }
}

/// Adds each of `news` to a workspace's boards, skipping those it holds; returns how many
/// were added.
pub fn add_board_ids(ids: &mut Vec<i32>, news: &Vec<i32>) -> (added: usize)
    ensures
        final(ids)@ == add_boards_spec(old(ids)@, news@),
        added == final(ids)@.len() - old(ids)@.len(),
{
    let ghost orig = ids@;
    let mut added: usize = 0;
    let mut i: usize = 0;
    while i < news.len()
        invariant
            i <= news.len(),
            ids@ == add_boards_spec(orig, news@.take(i as int)),
            added == ids@.len() - orig.len(),
            ids@.len() <= orig.len() + i,
        decreases news.len() - i,
    {
        proof {
            assert(news@.take(i + 1).drop_last() == news@.take(i as int));
        }
        if add_board_id(ids, news[i]) {
            added = added + 1;
        }
        i = i + 1;
    }
    proof {
        assert(news@.take(news.len() as int) == news@);
    }
    added
}

/// The workspace to act on: the one named, else the active one.
pub fn resolve_target_workspace(id: Option<String>, active: Option<String>) -> (r: AppResult<String>)
    ensures
        id matches Some(i) ==> (r matches Ok(t) && t@ == i@),
        id is None && active is Some ==> (r matches Ok(t) && t@ == active->0@),
        id is None && active is None ==> (r matches Err(AppError::NotFound(m)) && m@
            == "No active workspace"@),
{
    match id {
        Some(i) => Ok(i),
        None => match active {
            Some(a) => Ok(a),
            None => Err(not_found("No active workspace")),
        },
    }
}

/// The boards of the active workspace; an error when no workspace is active or when the active
/// one is not among `workspaces`.
pub fn active_board_ids(active_id: &Option<String>, workspaces: &Vec<Workspace>) -> (r: AppResult<
    Vec<i32>,
>)
    ensures
        active_id is None ==> (r matches Err(AppError::NotFound(m)) && m@
            == "No active workspace"@),
        active_id matches Some(a) ==> (index_of_id(workspaces_view(workspaces@), a@) == -1 ==> (
        r matches Err(AppError::NotFound(m)) && m@ == "Active workspace not found in config"@)),
        active_id matches Some(a) ==> (index_of_id(workspaces_view(workspaces@), a@) >= 0 ==> (
        r matches Ok(ids) && ids@ == workspaces@[index_of_id(
            workspaces_view(workspaces@),
            a@,
        )].board_ids@)),
{
    match active_id {
        None => Err(not_found("No active workspace")),
        Some(a) => match find_workspace(workspaces, a.as_str()) {
            Some(k) => Ok(workspaces[k].board_ids.clone()),
            None => Err(not_found("Active workspace not found in config")),
        },
    }
}

/// Renames the workspace with this id; an error when there is none.
pub fn rename_workspace(workspaces: &Vec<Workspace>, id: &str, new_name: String) -> (r: AppResult<
    Workspace,
>)
    ensures
        index_of_id(workspaces_view(workspaces@), id@) == -1 ==> (r matches Err(
            AppError::NotFound(m),
        ) && m@ == "Workspace not found"@),
        index_of_id(workspaces_view(workspaces@), id@) >= 0 ==> (r matches Ok(w) && w@ == (
        WorkspaceView {
            name: new_name@,
            ..workspaces@[index_of_id(workspaces_view(workspaces@), id@)]@
        })),
{
    match find_workspace(workspaces, id) {
        Some(k) => {
            let mut w = copy_workspace(&workspaces[k]);
            w.name = new_name;
            Ok(w)
        },
        None => Err(not_found("Workspace not found")),
    }
}

/// Whether opening workspace `id` switches away from the active one.
pub fn is_switch(active: &Option<String>, id: &str) -> (r: bool)
    ensures
        r == !(active matches Some(a) && a@ == id@),
{
    match active {
        Some(a) => !text_eq(a.as_str(), id),
        None => true,
    }
}

/// The payload announcing that the active workspace changed.
#[derive(Clone, Debug)]
pub struct WorkspaceChangedPayload {
    pub id: String,
    pub is_switch: bool,
}

/// Whether the active workspace is being scanned, and how many images it holds.
#[derive(Clone, Debug)]
pub struct WorkspaceStatus {
    pub is_scanning: bool,
    pub total_images: i32,
}

impl WorkspaceStatus {
    /// The status reported when there is no active workspace: not scanning, no images.
    pub fn idle() -> (s: WorkspaceStatus)
        ensures
            !s.is_scanning,
            s.total_images == 0,
    {
        WorkspaceStatus { is_scanning: false, total_images: 0 }
    }
}

/// The status of the active workspace: whether it is being scanned, and its image count (the
/// count narrowed to 32 bits as `as` does).
pub fn workspace_status_from(is_scanning: bool, total: i64) -> (s: WorkspaceStatus)
    ensures
        s.is_scanning == is_scanning,
        s.total_images == total as i32,
{
    WorkspaceStatus { is_scanning, total_images: total as i32 }
}

/// The boards whose images the status counts: those of the active workspace; none (the idle
/// status) when no workspace is active or the active one is unknown.
pub fn status_board_ids(active_id: &Option<String>, workspaces: &Vec<Workspace>) -> (r: Option<
    Vec<i32>,
>)
    ensures
        active_id is None ==> r is None,
        active_id matches Some(a) ==> (index_of_id(workspaces_view(workspaces@), a@) == -1
            ==> r is None),
        active_id matches Some(a) ==> (index_of_id(workspaces_view(workspaces@), a@) >= 0 ==> (
        r matches Some(ids) && ids@ == workspaces@[index_of_id(
            workspaces_view(workspaces@),
            a@,
        )].board_ids@)),
{
    match active_board_ids(active_id, workspaces) {
        Ok(ids) => Some(ids),
        Err(_) => None,
    }
}

/// The name of a board added from a folder: the folder's name, or "Untitled Board".
pub fn folder_board_name(file_name: Option<String>) -> (name: String)
    ensures
        file_name matches Some(n) ==> name@ == n@,
        file_name is None ==> name@ == "Untitled Board"@,
{
    match file_name {
        Some(n) => n,
        None => "Untitled Board".to_string(),
    }
}

/// The workspace `target` after adding the boards of the added folders (each once); none when
/// there is no such workspace. The count tells how many boards were new.
pub fn add_boards_to_workspace(workspaces: &Vec<Workspace>, target: &str, board_ids: &Vec<i32>) -> (r:
    Option<(Workspace, usize)>)
    ensures
        index_of_id(workspaces_view(workspaces@), target@) == -1 ==> r is None,
        index_of_id(workspaces_view(workspaces@), target@) >= 0 ==> (r matches Some(p) && {
            let w = workspaces@[index_of_id(workspaces_view(workspaces@), target@)];
            &&& p.0@ == (WorkspaceView {
                board_ids: add_boards_spec(w.board_ids@, board_ids@),
                ..w@
            })
            &&& p.1 == add_boards_spec(w.board_ids@, board_ids@).len() - w.board_ids@.len()
        }),
{
    match find_workspace(workspaces, target) {
        None => None,
        Some(k) => {
            let mut w = copy_workspace(&workspaces[k]);
            let added = add_board_ids(&mut w.board_ids, board_ids);
            Some((w, added))
        },
    }
}

/// The workspace `target` after removing board `board_id`; none when there is no such
/// workspace or it does not hold the board.
pub fn remove_board_from_workspace(workspaces: &Vec<Workspace>, target: &str, board_id: i32) -> (r:
    Option<Workspace>)
    ensures
        index_of_id(workspaces_view(workspaces@), target@) == -1 ==> r is None,
        index_of_id(workspaces_view(workspaces@), target@) >= 0 ==> ({
            let w = workspaces@[index_of_id(workspaces_view(workspaces@), target@)];
            &&& !w.board_ids@.contains(board_id) ==> r is None
            &&& w.board_ids@.contains(board_id) ==> (r matches Some(nw) && nw@ == (WorkspaceView {
                board_ids: remove_board_spec(w.board_ids@, board_id),
                ..w@
            }))
        }),
{
    match find_workspace(workspaces, target) {
        None => None,
        Some(k) => {
            let mut w = copy_workspace(&workspaces[k]);
            if remove_board_id(&mut w.board_ids, board_id) {
                Some(w)
            } else {
                None
            }
        },
    }
}

/// After the boards of a workspace changed, it is opened again when it is the open one.
pub fn needs_reopen(changed: bool, open_id: &Option<String>, target: &str) -> (r: bool)
    ensures
        r == (changed && (open_id matches Some(o) && o@ == target@)),
{
    changed && match open_id {
        Some(o) => text_eq(o.as_str(), target),
        None => false,
    }
}

/// The settings as the user interface reads them: the active workspace, the workspaces, the AI
/// settings, whether logging is on, and the running tasks.
#[derive(Clone, Debug)]
pub struct ConfigDto {
    pub active: Option<String>,
    pub workspaces: Vec<Workspace>,
    pub ai: AiConfig,
    pub logging_enabled: bool,
    pub active_tasks: Vec<BackgroundTask>,
}

/// The settings view built from the settings, the stored workspaces and the running tasks.
pub fn config_dto(config: AppConfig, workspaces: Vec<Workspace>, active_tasks: Vec<BackgroundTask>) -> (d:
    ConfigDto)
    ensures
        d.active == config.active_workspace_id,
        d.workspaces == workspaces,
        d.ai == config.ai_config,
        d.logging_enabled == config.logging_enabled,
        d.active_tasks == active_tasks,
{
    ConfigDto {
        active: config.active_workspace_id,
        workspaces,
        ai: config.ai_config,
        logging_enabled: config.logging_enabled,
        active_tasks,
    }
}

/// Totals of the active workspace's library.
#[derive(Clone, Debug)]
pub struct StorageStats {
    pub total_images: i64,
    pub total_size_bytes: i64,
    pub total_boards: i64,
}

/// `rand::rngs::StdRng`, the standard seedable generator.
#[verifier::external_type_specification]
#[verifier::external_body]
pub struct ExStdRng(rand::rngs::StdRng);

/// Calls `rand::SeedableRng::try_from_os_rng` for a `StdRng`: a generator seeded from the
/// operating system's random source, or nothing when that source fails. Which seed comes back
/// is random; nothing more is stated.
#[verifier::external_body]
fn seeded_rng() -> (r: Option<rand::rngs::StdRng>) {
    let seeded: Option<rand::rngs::StdRng> = rand::SeedableRng::try_from_os_rng().ok();
    seeded
}

/// Calls `rand::Rng::random` for sixteen bytes from the generator. Which bytes come back is
/// random; nothing is stated of them.
#[verifier::external_body]
fn random_bytes16(rng: &mut rand::rngs::StdRng) -> (b: [u8; 16]) {
    rand::Rng::random(rng)
}

/// The hyphenated lowercase text of the version-4 UUID made of sixteen random bytes.
pub uninterp spec fn spec_uuid_v4_text(bytes: Seq<u8>) -> Seq<char>;

/// Calls `uuid::Builder::from_random_bytes` and formats the UUID (`to_string`): the bytes with
/// the version and variant bits set, as 36 characters with hyphens at 8, 13, 18 and 23 and the
/// version digit `4` at 14. A function of the bytes alone, named here; the hexadecimal digits are
/// not written out.
#[verifier::external_body]
fn uuid_v4_text(bytes: [u8; 16]) -> (s: String)
    ensures
        s@ == spec_uuid_v4_text(bytes@),
        s@.len() == 36,
        s@[8] == '-' && s@[13] == '-' && s@[18] == '-' && s@[23] == '-',
        s@[14] == '4',
{
    uuid::Builder::from_random_bytes(bytes).into_uuid().to_string()
}

/// Calls `rand::seq::IndexedRandom::choose` with the generator: one of the words, picked at
/// random (`choose` gives `None` only for an empty list, which `requires` rules out).
#[verifier::external_body]
fn choose_word(rng: &mut rand::rngs::StdRng, words: &[&str]) -> (word: String)
    requires
        words@.len() > 0,
    ensures
        words@.map_values(|w: &str| w@).contains(word@),
{
    words.choose(rng).unwrap().to_string()
}

/// The error given when the operating system's random source fails.
pub fn random_source_error() -> (e: AppError)
    ensures
        e matches AppError::Internal(m) && m@ == "the system random source failed"@,
{
    let e = AppError::Internal("the system random source failed".to_string());
    proof {
        reveal_strlit("the system random source failed");
    }
    e
}

/// The adjectives of generated workspace names.
pub const ADJECTIVES: [&'static str; 10] = [
    "Vibrant",
    "Silent",
    "Golden",
    "Mystic",
    "Ethereal",
    "Urban",
    "Wild",
    "Serene",
    "Cosmic",
    "Lush",
];

/// The nouns of generated workspace names.
pub const NOUNS: [&'static str; 10] = [
    "Gallery",
    "Collection",
    "Archive",
    "Vault",
    "Harbor",
    "Studio",
    "Canvas",
    "Spectrum",
    "Vista",
    "Nexus",
];

/// A workspace name made of an adjective and a noun, separated by a space.
pub fn workspace_name_from(adjective: &str, noun: &str) -> (name: String)
    ensures
        name@ == adjective@ + seq![' '] + noun@,
{
    let mut name = adjective.to_string();
    name.push(' ');
    name.append(noun);
    name
}

impl Workspace {
    /// A new workspace with a random id; without a name it gets a random "Adjective Noun" one.
    /// It fails only when the operating system's random source does.
    pub fn new(name: Option<String>, board_ids: Vec<i32>, folder_paths: Vec<String>) -> (r:
        AppResult<Workspace>)
        ensures
            r matches Err(e) ==> e matches AppError::Internal(m) && m@
                == "the system random source failed"@,
            r matches Ok(w) ==> {
                &&& w.id@.len() == 36
                &&& name matches Some(n) ==> w.name@ == n@
                &&& name is None ==> exists|a: int, b: int|
                    0 <= a < 10 && 0 <= b < 10 && w.name@ == ADJECTIVES@[a]@ + seq![' ']
                        + NOUNS@[b]@
                &&& w.board_ids@ == board_ids@
                &&& w.folder_paths@ == folder_paths@
            },
    {
        let seeded = seeded_rng();
        let mut rng = match seeded {
            Some(g) => g,
            None => {
                return Err(random_source_error());
            },
        };
        let bytes = random_bytes16(&mut rng);
        let id = uuid_v4_text(bytes);
        let name = match name {
            Some(n) => n,
            None => Self::random_name_with(&mut rng),
        };
        Ok(Workspace { id, name, board_ids, folder_paths })
    }

    /// A random name made of one of the adjectives and one of the nouns, or nothing when the
    /// operating system's random source fails.
    pub fn generate_random_name() -> (name: Option<String>)
        ensures
            name matches Some(n) ==> exists|a: int, b: int|
                0 <= a < 10 && 0 <= b < 10 && n@ == ADJECTIVES@[a]@ + seq![' '] + NOUNS@[b]@,
    {
        let seeded = seeded_rng();
        match seeded {
            Some(g) => {
                let mut rng = g;
                Some(Self::random_name_with(&mut rng))
            },
            None => None,
        }
    }

    /// A name made of an adjective and a noun that the generator picks.
    fn random_name_with(rng: &mut rand::rngs::StdRng) -> (name: String)
        ensures
            exists|a: int, b: int|
                0 <= a < 10 && 0 <= b < 10 && name@ == ADJECTIVES@[a]@ + seq![' ']
                    + NOUNS@[b]@,
    {
        let adjectives: [&'static str; 10] = ADJECTIVES;
        let nouns: [&'static str; 10] = NOUNS;
        let adjective = choose_word(rng, adjectives.as_slice());
        let noun = choose_word(rng, nouns.as_slice());
        workspace_name_from(adjective.as_str(), noun.as_str())
    }
}

} // verus!
