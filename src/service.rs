use vstd::prelude::*;
use crate::json::{task_id_json, task_id_text, task_json, task_text, tasks_json, tasks_text};
use crate::reply::{
    build_not_found_error, error_body, map_pg_error, map_success, not_found_body, outcome_view,
    success_body, Reply, STATUS_INTERNAL_SERVER_ERROR, STATUS_NOT_FOUND, STATUS_OK,
};
use crate::task::{merge_update, merged, opt_name, rows_view, TaskModel, TaskRow, UpdateTaskReq};

verus! {

/// The body of a listing: the success envelope around the rows, then a newline.
pub open spec fn list_body(rows: Seq<TaskModel>) -> Seq<char> {
    success_body(Some(tasks_json(rows))) + "\n"@
}

/// The reply to a listing, given the rows that the store returned in key
/// order, or the text of its failure.
pub fn tasks_reply(rows: Result<Vec<TaskRow>, String>) -> (r: Result<Reply, Reply>)
    ensures
        outcome_view(r) == match rows {
            Ok(v) => Ok::<(u16, Seq<char>), (u16, Seq<char>)>((STATUS_OK, list_body(rows_view(v@)))),
            Err(m) => Err((STATUS_INTERNAL_SERVER_ERROR, error_body(m@))),
        },
{
    match rows {
        Ok(v) => {
            let data = tasks_text(&v);
            let mut reply = map_success(STATUS_OK, Some(data));
            reply.body.append("\n");
            Ok(reply)
        },
        Err(m) => Err(map_pg_error(m.as_str())),
    }
}

/// The reply to a read of `task_id`, given the row that the store found (if
/// any), or the text of its failure.
pub fn task_reply(task_id: i32, loaded: Result<Option<TaskRow>, String>) -> (r: Result<Reply, Reply>)
    ensures
        outcome_view(r) == match loaded {
            Ok(Some(t)) => Ok::<(u16, Seq<char>), (u16, Seq<char>)>((STATUS_OK, success_body(Some(task_json(t@))))),
            Ok(None) => Err((STATUS_NOT_FOUND, not_found_body(task_id))),
            Err(m) => Err((STATUS_INTERNAL_SERVER_ERROR, error_body(m@))),
        },
{
    match loaded {
        Ok(Some(t)) => Ok(map_success(STATUS_OK, Some(task_text(&t)))),
        Ok(None) => Err(build_not_found_error(task_id)),
        Err(m) => Err(map_pg_error(m.as_str())),
    }
}

/// The reply to a create, given the key that the store assigned, or the text
/// of its failure.
pub fn created_reply(inserted: Result<i32, String>) -> (r: Result<Reply, Reply>)
    ensures
        outcome_view(r) == match inserted {
            Ok(id) => Ok::<(u16, Seq<char>), (u16, Seq<char>)>((STATUS_OK, success_body(Some(task_id_json(id))))),
            Err(m) => Err((STATUS_INTERNAL_SERVER_ERROR, error_body(m@))),
        },
{
    match inserted {
        Ok(id) => Ok(map_success(STATUS_OK, Some(task_id_text(id)))),
        Err(m) => Err(map_pg_error(m.as_str())),
    }
}

/// The first step of an update of `task_id`: given the stored row (if any),
/// or the text of the store's failure, either the row to write back or the
/// reply to give at once.
pub fn update_plan(task_id: i32, req: UpdateTaskReq, loaded: Result<Option<TaskRow>, String>) -> (r: Result<TaskRow, Reply>)
    ensures
        match loaded {
            Ok(Some(t)) => r is Ok && r->Ok_0@ == merged(t@, opt_name(req.name), req.priority),
            Ok(None) => r is Err && r->Err_0@ == (STATUS_NOT_FOUND, not_found_body(task_id)),
            Err(m) => r is Err && r->Err_0@ == (STATUS_INTERNAL_SERVER_ERROR, error_body(m@)),
        },
{
    match loaded {
        Ok(Some(t)) => Ok(merge_update(t, req)),
        Ok(None) => Err(build_not_found_error(task_id)),
        Err(m) => Err(map_pg_error(m.as_str())),
    }
}

/// The reply to a write (an update's write-back, or a delete), given whether
/// the store succeeded.
pub fn write_reply(written: Result<(), String>) -> (r: Result<Reply, Reply>)
    ensures
        outcome_view(r) == match written {
            Ok(()) => Ok::<(u16, Seq<char>), (u16, Seq<char>)>((STATUS_OK, success_body(None))),
            Err(m) => Err((STATUS_INTERNAL_SERVER_ERROR, error_body(m@))),
        },
{
    match written {
        Ok(()) => Ok(map_success(STATUS_OK, None)),
        Err(m) => Err(map_pg_error(m.as_str())),
    }
}

} // verus!
