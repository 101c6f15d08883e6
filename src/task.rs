use vstd::prelude::*;

verus! {

/// A stored task: its key, its name and its optional priority.
pub struct TaskRow {
    pub task_id: i32,
    pub name: String,
    pub priority: Option<i32>,
}

/// The value of a task row.
pub struct TaskModel {
    pub task_id: i32,
    pub name: Seq<char>,
    pub priority: Option<i32>,
}

impl View for TaskRow {
    type V = TaskModel;

    open spec fn view(&self) -> TaskModel {
        TaskModel { task_id: self.task_id, name: self.name@, priority: self.priority }
    }
}

impl TaskRow {
    /// A row with the same value.
    pub fn copy(&self) -> (r: TaskRow)
        ensures
            r@ == self@,
    {
        TaskRow { task_id: self.task_id, name: self.name.clone(), priority: self.priority }
    }
}

/// The views of a vector of rows.
pub open spec fn rows_view(rows: Seq<TaskRow>) -> Seq<TaskModel> {
    rows.map_values(|r: TaskRow| r@)
}

/// The body of a create request: a name and an optional priority.
pub struct CreateTaskReq {
    pub name: String,
    pub priority: Option<i32>,
}

/// The body of an update request: each field, when present, replaces the
/// stored one.
pub struct UpdateTaskReq {
    pub name: Option<String>,
    pub priority: Option<i32>,
}

/// The name and priority that an update with `name` and `priority` writes
/// over `original`: each supplied value, else the stored one.
pub open spec fn merged(original: TaskModel, name: Option<Seq<char>>, priority: Option<i32>) -> TaskModel {
    TaskModel {
        task_id: original.task_id,
        name: match name {
            Some(n) => n,
            None => original.name,
        },
        priority: match priority {
            Some(p) => Some(p),
            None => original.priority,
        },
    }
}

/// The view of an optional name.
pub open spec fn opt_name(name: Option<String>) -> Option<Seq<char>> {
    match name {
        Some(n) => Some(n@),
        None => None,
    }
}

/// Merges an update request into the stored row it applies to.
pub fn merge_update(original: TaskRow, req: UpdateTaskReq) -> (r: TaskRow)
    ensures
        r@ == merged(original@, opt_name(req.name), req.priority),
{
    let name = match req.name {
        Some(n) => n,
        None => original.name,
    };
    let priority = match req.priority {
        Some(p) => Some(p),
        None => original.priority,
    };
    TaskRow { task_id: original.task_id, name, priority }
}

} // verus!
