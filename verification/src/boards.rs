//! Boards that no workspace holds any more, and how they are removed.
use vstd::prelude::*;
use crate::error::{AppError, AppResult};
use crate::images::{placeholders, placeholders_spec};
use crate::workspaces::{Workspace, WorkspaceView, contains_id, texts, workspaces_view};

verus! {

/// Boards are made by adding folders to a workspace; creating one by hand is refused.
pub fn create_board() -> (r: AppResult<()>)
    ensures
        r matches Err(AppError::WorkspaceError(m)) && m@
            == "Please use 'Add Folder' to create new boards"@,
{
    Err(AppError::WorkspaceError("Please use 'Add Folder' to create new boards".to_string()))
}

/// Whether some workspace holds board `id`.
pub open spec fn held_by_some(ws: Seq<WorkspaceView>, id: i32) -> bool {
    exists|w: int| 0 <= w < ws.len() && (#[trigger] ws[w]).board_ids.contains(id)
}

/// The boards (id and path) that no workspace holds, in order.
pub open spec fn orphans(ws: Seq<WorkspaceView>, boards: Seq<(i32, Seq<char>)>) -> Seq<(i32, Seq<char>)>
    decreases boards.len(),
{
    if boards.len() == 0 {
        Seq::empty()
    } else {
        let rest = orphans(ws, boards.drop_last());
        if held_by_some(ws, boards.last().0) {
            rest
        } else {
            rest.push(boards.last())
        }
    }
}

/// The orphans are exactly the boards that no workspace holds, in their order: each orphan is
/// such a board, and each such board is an orphan.
pub proof fn lemma_orphans(ws: Seq<WorkspaceView>, boards: Seq<(i32, Seq<char>)>)
    ensures
        forall|k: int|
            0 <= k < orphans(ws, boards).len() ==> boards.contains(#[trigger] orphans(ws, boards)[k])
                && !held_by_some(ws, orphans(ws, boards)[k].0),
        forall|i: int|
            0 <= i < boards.len() && !held_by_some(ws, (#[trigger] boards[i]).0) ==> orphans(
                ws,
                boards,
            ).contains(boards[i]),
        orphans(ws, boards).len() <= boards.len(),
    decreases boards.len(),
{
    if boards.len() > 0 {
        let pre = boards.drop_last();
        lemma_orphans(ws, pre);
        let o = orphans(ws, boards);
        let op = orphans(ws, pre);
        assert forall|k: int| 0 <= k < o.len() implies boards.contains(#[trigger] o[k])
            && !held_by_some(ws, o[k].0) by {
            if k < op.len() {
                assert(o[k] == op[k]);
                let j = choose|j: int| 0 <= j < pre.len() && pre[j] == op[k];
                assert(boards[j] == pre[j]);
            } else {
                assert(o[k] == boards.last());
                assert(boards[boards.len() - 1] == boards.last());
            }
        }
        assert forall|i: int| 0 <= i < boards.len() && !held_by_some(ws, (#[trigger] boards[i]).0)
            implies o.contains(boards[i]) by {
            if i < boards.len() - 1 {
                assert(boards[i] == pre[i]);
                let k = choose|k: int| 0 <= k < op.len() && op[k] == pre[i];
                assert(o[k] == op[k]);
            } else {
                assert(o[o.len() - 1] == boards[i]);
            }
        }
    }
}

/// Whether some workspace in `ws` holds board `id`.
fn held_by_any(ws: &Vec<Workspace>, id: i32) -> (r: bool)
    ensures
        r == held_by_some(workspaces_view(ws@), id),
{
    let ghost wv = workspaces_view(ws@);
    let mut i: usize = 0;
    while i < ws.len()
        invariant
            i <= ws@.len(),
            wv == workspaces_view(ws@),
            forall|w: int| 0 <= w < i ==> !(#[trigger] wv[w]).board_ids.contains(id),
        decreases ws@.len() - i,
    {
        if contains_id(&ws[i].board_ids, id) {
            assert(wv[i as int].board_ids.contains(id));
            return true;
        }
        i = i + 1;
    }
    false
}

/// The ids and paths of the boards that no workspace holds, in the order of `boards`.
pub fn orphaned_boards(workspaces: &Vec<Workspace>, boards: &Vec<(i32, String)>) -> (r: (
    Vec<i32>,
    Vec<String>,
))
    ensures
        r.0@.len() == r.1@.len(),
        r.0@.len() == orphans(
            workspaces_view(workspaces@),
            boards@.map_values(|b: (i32, String)| (b.0, b.1@)),
        ).len(),
        forall|i: int|
            0 <= i < r.0@.len() ==> (r.0@[i], #[trigger] texts(r.1@)[i]) == orphans(
                workspaces_view(workspaces@),
                boards@.map_values(|b: (i32, String)| (b.0, b.1@)),
            )[i],
{
    let ghost wv = workspaces_view(workspaces@);
    let ghost bv = boards@.map_values(|b: (i32, String)| (b.0, b.1@));
    let mut ids: Vec<i32> = Vec::new();
    let mut paths: Vec<String> = Vec::new();
    let mut i: usize = 0;
    while i < boards.len()
        invariant
            i <= boards@.len(),
            wv == workspaces_view(workspaces@),
            bv == boards@.map_values(|b: (i32, String)| (b.0, b.1@)),
            ids@.len() == paths@.len(),
            ids@.len() == orphans(wv, bv.take(i as int)).len(),
            forall|k: int|
                0 <= k < ids@.len() ==> (ids@[k], #[trigger] texts(paths@)[k]) == orphans(
                    wv,
                    bv.take(i as int),
                )[k],
        decreases boards@.len() - i,
    {
        proof {
            assert(bv.take(i + 1).drop_last() =~= bv.take(i as int));
        }
        let id = boards[i].0;
        if !held_by_any(workspaces, id) {
            let ghost old_paths = paths@;
            ids.push(id);
            paths.push(boards[i].1.clone());
            proof {
                assert(texts(paths@) =~= texts(old_paths).push(boards@[i as int].1@));
            }
        }
        i = i + 1;
    }
    proof {
        assert(bv.take(boards@.len() as int) =~= bv);
    }
    (ids, paths)
}

/// The most ids deleted by one statement.
pub const DELETE_CHUNK: usize = 999;

/// The ids cut into consecutive chunks of at most `size`, in order.
pub open spec fn chunks_of(ids: Seq<i32>, size: nat) -> Seq<Seq<i32>>
    decreases ids.len(),
{
    if ids.len() == 0 || size == 0 {
        Seq::empty()
    } else if ids.len() <= size {
        seq![ids]
    } else {
        seq![ids.take(size as int)] + chunks_of(ids.skip(size as int), size)
    }
}

/// Cuts the ids into consecutive chunks of at most `size` ids.
pub fn chunk_ids(ids: &Vec<i32>, size: usize) -> (r: Vec<Vec<i32>>)
    requires
        size > 0,
    ensures
        r@.map_values(|c: Vec<i32>| c@) == chunks_of(ids@, size as nat),
{
    let mut r: Vec<Vec<i32>> = Vec::new();
    let mut start: usize = 0;
    let ghost total = ids@;
    proof {
        assert(total.skip(0) =~= total);
        assert(r@.map_values(|c: Vec<i32>| c@) + chunks_of(total.skip(0), size as nat) =~= chunks_of(
            total,
            size as nat,
        ));
    }
    while start < ids.len()
        invariant
            size > 0,
            start <= ids@.len(),
            total == ids@,
            r@.map_values(|c: Vec<i32>| c@) + chunks_of(total.skip(start as int), size as nat)
                == chunks_of(total, size as nat),
        decreases ids@.len() - start,
    {
        let rest = ids.len() - start;
        let take = if rest <= size {
            rest
        } else {
            size
        };
        let mut chunk: Vec<i32> = Vec::new();
        let mut k: usize = 0;
        while k < take
            invariant
                k <= take,
                start + take <= ids.len(),
                chunk@ == total.subrange(start as int, start + k),
                total == ids@,
            decreases take - k,
        {
            chunk.push(ids[start + k]);
            proof {
                assert(chunk@ =~= total.subrange(start as int, start + k + 1));
            }
            k = k + 1;
        }
        let ghost before = r@.map_values(|c: Vec<i32>| c@);
        let ghost tail = total.skip(start as int);
        proof {
            assert(chunk@ =~= tail.take(take as int));
            if rest <= size {
                assert(tail.take(take as int) =~= tail);
                assert(total.skip(start + take) =~= Seq::<i32>::empty());
            } else {
                assert(tail.skip(size as int) =~= total.skip(start + size));
            }
        }
        r.push(chunk);
        proof {
            assert(r@.map_values(|c: Vec<i32>| c@) =~= before.push(tail.take(take as int)));
            assert(chunks_of(tail, size as nat) =~= seq![tail.take(take as int)] + chunks_of(
                total.skip(start + take),
                size as nat,
            ));
            assert(before.push(tail.take(take as int)) + chunks_of(
                total.skip(start + take),
                size as nat,
            ) =~= before + chunks_of(tail, size as nat));
        }
        start = start + take;
    }
    proof {
        assert(total.skip(start as int) =~= Seq::<i32>::empty());
        assert(r@.map_values(|c: Vec<i32>| c@) + Seq::<Seq<i32>>::empty() =~= r@.map_values(
            |c: Vec<i32>| c@,
        ));
    }
    r
}

/// The statement deleting `n` boards by id.
pub open spec fn delete_boards_sql_spec(n: nat) -> Seq<char> {
    "DELETE FROM boards WHERE id IN ("@ + placeholders_spec(n) + ")"@
}

/// The statement deleting `n` boards by id.
pub fn delete_boards_sql(n: usize) -> (sql: String)
    ensures
        sql@ == delete_boards_sql_spec(n as nat),
{
    let mut sql = "DELETE FROM boards WHERE id IN (".to_string();
    let p = placeholders(n);
    sql.append(p.as_str());
    sql.append(")");
    sql
}

/// The chunks laid end to end.
pub open spec fn concat_all(cs: Seq<Seq<i32>>) -> Seq<i32>
    decreases cs.len(),
{
    if cs.len() == 0 {
        Seq::empty()
    } else {
        cs[0] + concat_all(cs.skip(1))
    }
}

/// Chunking keeps every id, in order, and no chunk is empty or larger than the size.
pub proof fn lemma_chunks_of(ids: Seq<i32>, size: nat)
    requires
        size > 0,
    ensures
        concat_all(chunks_of(ids, size)) == ids,
        forall|i: int|
            0 <= i < chunks_of(ids, size).len() ==> 0 < (#[trigger] chunks_of(ids, size)[i]).len()
                <= size,
    decreases ids.len(),
{
    let cs = chunks_of(ids, size);
    if ids.len() == 0 {
        assert(cs =~= Seq::<Seq<i32>>::empty());
        assert(ids =~= Seq::<i32>::empty());
    } else if ids.len() <= size {
        assert(cs == seq![ids]);
        assert(cs.skip(1) =~= Seq::<Seq<i32>>::empty());
        assert(ids + Seq::<i32>::empty() =~= ids);
        assert(concat_all(cs) == cs[0] + concat_all(cs.skip(1)));
    } else {
        let rest = ids.skip(size as int);
        lemma_chunks_of(rest, size);
        let head = ids.take(size as int);
        let rc = chunks_of(rest, size);
        assert(cs == seq![head] + rc);
        assert(cs.skip(1) =~= rc);
        assert(cs[0] == head);
        assert(head + rest =~= ids);
        assert(concat_all(cs) == cs[0] + concat_all(cs.skip(1)));
        assert forall|i: int| 0 <= i < cs.len() implies 0 < (#[trigger] cs[i]).len() <= size by {
            if i > 0 {
                assert(cs[i] == rc[i - 1]);
            }
        }
    }
}

} // verus!
