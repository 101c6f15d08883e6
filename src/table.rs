use vstd::prelude::*;
use crate::json::{task_id_json, task_json};
use crate::reply::{
    error_body, not_found_body, outcome_view, success_body, Reply, STATUS_INTERNAL_SERVER_ERROR,
    STATUS_NOT_FOUND, STATUS_OK,
};
use crate::service::{created_reply, list_body, task_reply, tasks_reply, update_plan, write_reply};
use crate::task::{merged, opt_name, rows_view, CreateTaskReq, TaskModel, TaskRow, UpdateTaskReq};

verus! {

/// The largest key a table can assign.
pub const MAX_TASK_ID: i32 = 2147483647;

/// The value of a table: its rows in key order, and the key the next insert
/// is given.
pub struct TableModel {
    pub rows: Seq<TaskModel>,
    pub next_id: int,
}

/// Keys strictly increase along the rows.
pub open spec fn ids_increasing(rows: Seq<TaskModel>) -> bool {
    forall|i: int, j: int| 0 <= i < j < rows.len() ==> #[trigger] rows[i].task_id < #[trigger] rows[j].task_id
}

/// A table is well formed: its keys increase, and each is below the next key
/// to assign, which lies in `1..=MAX_TASK_ID + 1`.
pub open spec fn table_wf(m: TableModel) -> bool {
    &&& 1 <= m.next_id <= MAX_TASK_ID as int + 1
    &&& ids_increasing(m.rows)
    &&& forall|i: int| 0 <= i < m.rows.len() ==> (#[trigger] m.rows[i].task_id as int) < m.next_id
}

/// Some row has key `task_id`.
pub open spec fn has_task(rows: Seq<TaskModel>, task_id: i32) -> bool {
    exists|i: int| 0 <= i < rows.len() && #[trigger] rows[i].task_id == task_id
}

/// The position of the row with key `task_id`, where there is one.
pub open spec fn index_of(rows: Seq<TaskModel>, task_id: i32) -> int {
    choose|i: int| 0 <= i < rows.len() && #[trigger] rows[i].task_id == task_id
}

/// The row with key `task_id`, if any.
pub open spec fn find(rows: Seq<TaskModel>, task_id: i32) -> Option<TaskModel> {
    if has_task(rows, task_id) {
        Some(rows[index_of(rows, task_id)])
    } else {
        None
    }
}

/// The table after an insert of `name` and `priority` under the next key.
pub open spec fn inserted(m: TableModel, name: Seq<char>, priority: Option<i32>) -> TableModel {
    TableModel {
        rows: m.rows.push(TaskModel { task_id: m.next_id as i32, name, priority }),
        next_id: m.next_id + 1,
    }
}

/// The table after `row` is written over the row with its key, if there is one.
pub open spec fn updated(m: TableModel, row: TaskModel) -> TableModel {
    if has_task(m.rows, row.task_id) {
        TableModel { rows: m.rows.update(index_of(m.rows, row.task_id), row), next_id: m.next_id }
    } else {
        m
    }
}

/// The table after the row with key `task_id`, if there is one, is removed.
pub open spec fn deleted(m: TableModel, task_id: i32) -> TableModel {
    if has_task(m.rows, task_id) {
        TableModel { rows: m.rows.remove(index_of(m.rows, task_id)), next_id: m.next_id }
    } else {
        m
    }
}

/// The table after an update of `task_id` with the optional `name` and
/// `priority`: the merged row written back when the key has a row, else the
/// table as it was.
pub open spec fn after_update(m: TableModel, task_id: i32, name: Option<Seq<char>>, priority: Option<i32>) -> TableModel {
    match find(m.rows, task_id) {
        Some(t) => updated(m, merged(t, name, priority)),
        None => m,
    }
}

/// Where keys increase, the row at `i` is the one that `find` gives for its key.
pub proof fn lemma_find_at(rows: Seq<TaskModel>, i: int)
    requires
        ids_increasing(rows),
        0 <= i < rows.len(),
    ensures
        has_task(rows, rows[i].task_id),
        index_of(rows, rows[i].task_id) == i,
        find(rows, rows[i].task_id) == Some(rows[i]),
{
    let id = rows[i].task_id;
    assert(0 <= i < rows.len() && rows[i].task_id == id);
    let k = index_of(rows, id);
    if k < i {
        assert(rows[k].task_id < rows[i].task_id);
    } else if k > i {
        assert(rows[i].task_id < rows[k].task_id);
    }
}

/// The store's text when no key is left to assign.
pub open spec fn keys_exhausted() -> Seq<char> {
    "nextval: reached maximum value of sequence \"tasks_task_id_seq\" (2147483647)"@
}

/// An insert under a key that is still free keeps the table well formed.
pub proof fn lemma_inserted_wf(m: TableModel, name: Seq<char>, priority: Option<i32>)
    requires
        table_wf(m),
        m.next_id <= MAX_TASK_ID as int,
    ensures
        table_wf(inserted(m, name, priority)),
{
    let n = inserted(m, name, priority);
    assert(n.rows[m.rows.len() as int].task_id as int == m.next_id);
    assert forall|i: int, j: int| 0 <= i < j < n.rows.len() implies #[trigger] n.rows[i].task_id < #[trigger] n.rows[j].task_id by {
        if j < m.rows.len() {
            assert(m.rows[i].task_id < m.rows[j].task_id);
        } else {
            assert((m.rows[i].task_id as int) < m.next_id);
        }
    }
    assert forall|i: int| 0 <= i < n.rows.len() implies (#[trigger] n.rows[i].task_id as int) < n.next_id by {
        if i < m.rows.len() {
            assert((m.rows[i].task_id as int) < m.next_id);
        }
    }
}

/// Writing a row over the row with its key keeps the table well formed.
pub proof fn lemma_updated_wf(m: TableModel, row: TaskModel)
    requires
        table_wf(m),
    ensures
        table_wf(updated(m, row)),
{
    if has_task(m.rows, row.task_id) {
        let k = index_of(m.rows, row.task_id);
        let n = updated(m, row);
        assert forall|i: int| 0 <= i < n.rows.len() implies #[trigger] n.rows[i].task_id == m.rows[i].task_id by {}
        assert forall|i: int, j: int| 0 <= i < j < n.rows.len() implies #[trigger] n.rows[i].task_id < #[trigger] n.rows[j].task_id by {
            assert(n.rows[i].task_id == m.rows[i].task_id);
            assert(n.rows[j].task_id == m.rows[j].task_id);
            assert(m.rows[i].task_id < m.rows[j].task_id);
        }
        assert forall|i: int| 0 <= i < n.rows.len() implies (#[trigger] n.rows[i].task_id as int) < n.next_id by {
            assert(n.rows[i].task_id == m.rows[i].task_id);
            assert((m.rows[i].task_id as int) < m.next_id);
        }
    }
}

/// Removing the row with a key keeps the table well formed.
pub proof fn lemma_deleted_wf(m: TableModel, task_id: i32)
    requires
        table_wf(m),
    ensures
        table_wf(deleted(m, task_id)),
{
    if has_task(m.rows, task_id) {
        let k = index_of(m.rows, task_id);
        let n = deleted(m, task_id);
        assert forall|i: int, j: int| 0 <= i < j < n.rows.len() implies #[trigger] n.rows[i].task_id < #[trigger] n.rows[j].task_id by {
            let oi = if i < k { i } else { i + 1 };
            let oj = if j < k { j } else { j + 1 };
            assert(n.rows[i] == m.rows[oi]);
            assert(n.rows[j] == m.rows[oj]);
            assert(m.rows[oi].task_id < m.rows[oj].task_id);
        }
        assert forall|i: int| 0 <= i < n.rows.len() implies (#[trigger] n.rows[i].task_id as int) < n.next_id by {
            let oi = if i < k { i } else { i + 1 };
            assert(n.rows[i] == m.rows[oi]);
            assert((m.rows[oi].task_id as int) < m.next_id);
        }
    }
}

/// An in-memory task table: rows kept in ascending key order, each new row
/// given the next key of a counter that starts at 1.
pub struct TaskTable {
    rows: Vec<TaskRow>,
    next_id: i64,
}

impl View for TaskTable {
    type V = TableModel;

    closed spec fn view(&self) -> TableModel {
        TableModel { rows: rows_view(self.rows@), next_id: self.next_id as int }
    }
}

impl TaskTable {
    /// An empty table whose first key is 1.
    pub fn new() -> (t: TaskTable)
        ensures
            t@ == (TableModel { rows: Seq::empty(), next_id: 1 }),
            table_wf(t@),
    {
        let t = TaskTable { rows: Vec::new(), next_id: 1 };
        assert(t@.rows =~= Seq::<TaskModel>::empty());
        t
    }

    /// The row with key `task_id`, if any.
    pub fn load_task_by_id(&self, task_id: i32) -> (r: Option<TaskRow>)
        requires
            table_wf(self@),
        ensures
            match r {
                Some(t) => find(self@.rows, task_id) == Some(t@),
                None => find(self@.rows, task_id) is None,
            },
    {
        let ghost rows = self@.rows;
        let mut i: usize = 0;
        while i < self.rows.len()
            invariant
                i <= self.rows.len(),
                rows == rows_view(self.rows@),
                ids_increasing(rows),
                forall|j: int| 0 <= j < i ==> (#[trigger] rows[j]).task_id != task_id,
            decreases self.rows.len() - i,
        {
            if self.rows[i].task_id == task_id {
                proof { lemma_find_at(rows, i as int); }
                return Some(self.rows[i].copy());
            }
            i = i + 1;
        }
        None
    }

    /// The position of the row with key `task_id`, if any.
    fn position_of(&self, task_id: i32) -> (r: Option<usize>)
        requires
            table_wf(self@),
        ensures
            match r {
                Some(i) => i < self.rows.len() && has_task(self@.rows, task_id) && index_of(self@.rows, task_id) == i,
                None => !has_task(self@.rows, task_id),
            },
    {
        let ghost rows = self@.rows;
        let mut i: usize = 0;
        while i < self.rows.len()
            invariant
                i <= self.rows.len(),
                rows == rows_view(self.rows@),
                ids_increasing(rows),
                forall|j: int| 0 <= j < i ==> (#[trigger] rows[j]).task_id != task_id,
            decreases self.rows.len() - i,
        {
            if self.rows[i].task_id == task_id {
                proof { lemma_find_at(rows, i as int); }
                return Some(i);
            }
            i = i + 1;
        }
        None
    }

    /// Inserts a row with `name` and `priority` under the next key, and
    /// returns that key; fails, changing nothing, when no key is left.
    pub fn insert_row(&mut self, name: String, priority: Option<i32>) -> (r: Result<i32, String>)
        requires
            table_wf(old(self)@),
        ensures
            table_wf(final(self)@),
            old(self)@.next_id <= MAX_TASK_ID as int ==> r == Ok::<i32, String>(old(self)@.next_id as i32)
                && final(self)@ == inserted(old(self)@, name@, priority),
            old(self)@.next_id > MAX_TASK_ID as int ==> r is Err && r->Err_0@ == keys_exhausted()
                && final(self)@ == old(self)@,
    {
        if self.next_id > MAX_TASK_ID as i64 {
            return Err(String::from_str("nextval: reached maximum value of sequence \"tasks_task_id_seq\" (2147483647)"));
        }
        let task_id = self.next_id as i32;
        let ghost before = self@;
        self.rows.push(TaskRow { task_id, name, priority });
        self.next_id = self.next_id + 1;
        proof {
            assert(self@.rows =~= inserted(before, name@, priority).rows);
            lemma_inserted_wf(before, name@, priority);
        }
        Ok(task_id)
    }

    /// Writes `row` over the row with its key; changes nothing when there is
    /// no such row.
    pub fn update_row(&mut self, row: TaskRow)
        requires
            table_wf(old(self)@),
        ensures
            final(self)@ == updated(old(self)@, row@),
            table_wf(final(self)@),
    {
        let ghost before = self@;
        proof { lemma_updated_wf(before, row@); }
        match self.position_of(row.task_id) {
            Some(i) => {
                let ghost v = row@;
                let _ = self.rows.remove(i);
                self.rows.insert(i, row);
                assert(self@.rows =~= updated(before, v).rows);
            },
            None => {},
        }
    }

    /// Removes the row with key `task_id`; changes nothing when there is none.
    pub fn delete_row(&mut self, task_id: i32)
        requires
            table_wf(old(self)@),
        ensures
            final(self)@ == deleted(old(self)@, task_id),
            table_wf(final(self)@),
    {
        let ghost before = self@;
        proof { lemma_deleted_wf(before, task_id); }
        match self.position_of(task_id) {
            Some(i) => {
                let _ = self.rows.remove(i);
                assert(self@.rows =~= deleted(before, task_id).rows);
            },
            None => {},
        }
    }

    /// All rows, in ascending key order.
    pub fn list_rows(&self) -> (r: Vec<TaskRow>)
        ensures
            rows_view(r@) == self@.rows,
    {
        let mut out: Vec<TaskRow> = Vec::new();
        let mut i: usize = 0;
        while i < self.rows.len()
            invariant
                i <= self.rows.len(),
                out@.len() == i,
                forall|j: int| 0 <= j < i ==> (#[trigger] out@[j])@ == self.rows@[j]@,
            decreases self.rows.len() - i,
        {
            out.push(self.rows[i].copy());
            i = i + 1;
        }
        assert(rows_view(out@) =~= rows_view(self.rows@));
        out
    }

    /// Lists all tasks in ascending key order.
    pub fn get_tasks(&self) -> (r: Result<Reply, Reply>)
        ensures
            outcome_view(r) == Ok::<(u16, Seq<char>), (u16, Seq<char>)>((STATUS_OK, list_body(self@.rows))),
    {
        tasks_reply(Ok(self.list_rows()))
    }

    /// Reads the task with key `task_id`.
    pub fn get_task(&self, task_id: i32) -> (r: Result<Reply, Reply>)
        requires
            table_wf(self@),
        ensures
            outcome_view(r) == match find(self@.rows, task_id) {
                Some(t) => Ok::<(u16, Seq<char>), (u16, Seq<char>)>((STATUS_OK, success_body(Some(task_json(t))))),
                None => Err((STATUS_NOT_FOUND, not_found_body(task_id))),
            },
    {
        task_reply(task_id, Ok(self.load_task_by_id(task_id)))
    }

    /// Creates a task and answers with the key it was given.
    pub fn create_task(&mut self, req: CreateTaskReq) -> (r: Result<Reply, Reply>)
        requires
            table_wf(old(self)@),
        ensures
            table_wf(final(self)@),
            old(self)@.next_id <= MAX_TASK_ID as int ==> final(self)@ == inserted(old(self)@, req.name@, req.priority)
                && outcome_view(r) == Ok::<(u16, Seq<char>), (u16, Seq<char>)>(
                    (STATUS_OK, success_body(Some(task_id_json(old(self)@.next_id as i32)))),
                ),
            old(self)@.next_id > MAX_TASK_ID as int ==> final(self)@ == old(self)@
                && outcome_view(r) == Err::<(u16, Seq<char>), (u16, Seq<char>)>(
                    (STATUS_INTERNAL_SERVER_ERROR, error_body(keys_exhausted())),
                ),
    {
        created_reply(self.insert_row(req.name, req.priority))
    }

    /// Merges `req` into the task with key `task_id` and writes it back.
    pub fn update_task(&mut self, task_id: i32, req: UpdateTaskReq) -> (r: Result<Reply, Reply>)
        requires
            table_wf(old(self)@),
        ensures
            table_wf(final(self)@),
            final(self)@ == after_update(old(self)@, task_id, opt_name(req.name), req.priority),
            outcome_view(r) == match find(old(self)@.rows, task_id) {
                Some(t) => Ok::<(u16, Seq<char>), (u16, Seq<char>)>((STATUS_OK, success_body(None))),
                None => Err((STATUS_NOT_FOUND, not_found_body(task_id))),
            },
    {
        let loaded = self.load_task_by_id(task_id);
        match update_plan(task_id, req, Ok(loaded)) {
            Ok(row) => {
                self.update_row(row);
                write_reply(Ok(()))
            },
            Err(reply) => Err(reply),
        }
    }

    /// Removes the task with key `task_id`; succeeds whether or not it existed.
    pub fn delete_task(&mut self, task_id: i32) -> (r: Result<Reply, Reply>)
        requires
            table_wf(old(self)@),
        ensures
            table_wf(final(self)@),
            final(self)@ == deleted(old(self)@, task_id),
            outcome_view(r) == Ok::<(u16, Seq<char>), (u16, Seq<char>)>((STATUS_OK, success_body(None))),
    {
        self.delete_row(task_id);
        write_reply(Ok(()))
    }
}

} // verus!
