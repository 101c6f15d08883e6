use vstd::prelude::*;
use crate::table::{
    after_update, deleted, find, has_task, ids_increasing, index_of, inserted, lemma_find_at,
    lemma_inserted_wf, table_wf, TableModel, MAX_TASK_ID,
};
use crate::task::TaskModel;

verus! {

/// A created task reads back with the name and priority it was created with,
/// under the key the create returned.
pub proof fn lemma_create_then_get(m: TableModel, name: Seq<char>, priority: Option<i32>)
    requires
        table_wf(m),
        m.next_id <= MAX_TASK_ID as int,
    ensures
        find(inserted(m, name, priority).rows, m.next_id as i32)
            == Some(TaskModel { task_id: m.next_id as i32, name, priority }),
{
    let n = inserted(m, name, priority);
    lemma_inserted_wf(m, name, priority);
    lemma_find_at(n.rows, m.rows.len() as int);
}

/// After a delete of a key, no task has that key, whether or not one had it
/// before.
pub proof fn lemma_delete_then_get(m: TableModel, task_id: i32)
    requires
        table_wf(m),
    ensures
        find(deleted(m, task_id).rows, task_id) is None,
{
    if has_task(m.rows, task_id) {
        let k = index_of(m.rows, task_id);
        let n = deleted(m, task_id).rows;
        assert forall|j: int| 0 <= j < n.len() implies #[trigger] n[j].task_id != task_id by {
            if j < k {
                assert(n[j] == m.rows[j]);
                assert(m.rows[j].task_id < m.rows[k].task_id);
            } else {
                assert(n[j] == m.rows[j + 1]);
                assert(m.rows[k].task_id < m.rows[j + 1].task_id);
            }
        }
    }
}

/// An update that supplies neither a name nor a priority leaves the table as
/// it was.
pub proof fn lemma_empty_update_keeps_table(m: TableModel, task_id: i32)
    requires
        table_wf(m),
    ensures
        after_update(m, task_id, None, None) == m,
{
    if has_task(m.rows, task_id) {
        let k = index_of(m.rows, task_id);
        assert(m.rows.update(k, m.rows[k]) =~= m.rows);
    }
}

/// The rows of a well-formed table, as a listing returns them, come in
/// non-decreasing key order.
pub proof fn lemma_rows_in_key_order(m: TableModel)
    requires
        table_wf(m),
    ensures
        forall|i: int, j: int| 0 <= i <= j < m.rows.len() ==> #[trigger] m.rows[i].task_id <= #[trigger] m.rows[j].task_id,
{
    assert forall|i: int, j: int| 0 <= i <= j < m.rows.len() implies #[trigger] m.rows[i].task_id <= #[trigger] m.rows[j].task_id by {
        if i < j {
            assert(ids_increasing(m.rows));
        }
    }
}

/// The table after `items` (name and priority) are inserted into `m` in turn.
pub open spec fn insert_all(m: TableModel, items: Seq<(Seq<char>, Option<i32>)>) -> TableModel
    decreases items.len(),
{
    if items.len() == 0 {
        m
    } else {
        let before = insert_all(m, items.drop_last());
        inserted(before, items.last().0, items.last().1)
    }
}

/// Whatever sequence of inserts (with a key left for each) is made into a
/// well-formed table, the table stays well formed and its rows come in
/// non-decreasing key order.
pub proof fn lemma_inserts_keep_key_order(m: TableModel, items: Seq<(Seq<char>, Option<i32>)>)
    requires
        table_wf(m),
        m.next_id + items.len() <= MAX_TASK_ID as int + 1,
    ensures
        table_wf(insert_all(m, items)),
        insert_all(m, items).next_id == m.next_id + items.len(),
        forall|i: int, j: int| 0 <= i <= j < insert_all(m, items).rows.len()
            ==> #[trigger] insert_all(m, items).rows[i].task_id <= #[trigger] insert_all(m, items).rows[j].task_id,
    decreases items.len(),
{
    if items.len() > 0 {
        lemma_inserts_keep_key_order(m, items.drop_last());
        let before = insert_all(m, items.drop_last());
        lemma_inserted_wf(before, items.last().0, items.last().1);
    }
    lemma_rows_in_key_order(insert_all(m, items));
}

} // verus!
