use vstd::prelude::*;
use crate::json::{decimal_of, json_string, json_string_of, push_decimal};

verus! {

/// HTTP status of a request that succeeded.
pub const STATUS_OK: u16 = 200;

/// HTTP status of a request for a task that does not exist.
pub const STATUS_NOT_FOUND: u16 = 404;

/// HTTP status of a request on which the store failed.
pub const STATUS_INTERNAL_SERVER_ERROR: u16 = 500;

/// An HTTP answer: its status code and its JSON body.
pub struct Reply {
    pub status: u16,
    pub body: String,
}

impl View for Reply {
    type V = (u16, Seq<char>);

    open spec fn view(&self) -> (u16, Seq<char>) {
        (self.status, self.body@)
    }
}

/// The view of a handler's outcome: a reply on success, a reply on failure.
pub open spec fn outcome_view(r: Result<Reply, Reply>) -> Result<(u16, Seq<char>), (u16, Seq<char>)> {
    match r {
        Ok(a) => Ok(a@),
        Err(e) => Err(e@),
    }
}

/// The body that reports a store failure with its message.
pub open spec fn error_body(message: Seq<char>) -> Seq<char> {
    "{\"message\":"@ + json_string_of(message) + ",\"success\":false}"@
}

/// The message for a key that has no task.
pub open spec fn not_found_message(task_id: i32) -> Seq<char> {
    "Task "@ + decimal_of(task_id as int) + " not found"@
}

/// The body for a key that has no task; it carries no `success` field.
pub open spec fn not_found_body(task_id: i32) -> Seq<char> {
    "{\"message\":"@ + json_string_of(not_found_message(task_id)) + "}"@
}

/// The body of a success, with its data when there is any.
pub open spec fn success_body(data: Option<Seq<char>>) -> Seq<char> {
    match data {
        None => "{\"success\":true}"@,
        Some(d) => "{\"data\":"@ + d + ",\"success\":true}"@,
    }
}

/// The view of optional JSON text.
pub open spec fn opt_text(data: Option<String>) -> Option<Seq<char>> {
    match data {
        Some(d) => Some(d@),
        None => None,
    }
}

/// The reply to a store failure: status 500 and the failure's text.
pub fn map_pg_error(message: &str) -> (r: Reply)
    ensures
        r@ == (STATUS_INTERNAL_SERVER_ERROR, error_body(message@)),
{
    let mut body = String::new();
    body.append("{\"message\":");
    let m = json_string(message);
    body.append(m.as_str());
    body.append(",\"success\":false}");
    assert(body@ =~= error_body(message@));
    Reply { status: STATUS_INTERNAL_SERVER_ERROR, body }
}

/// The reply for a key that has no task: status 404.
pub fn build_not_found_error(task_id: i32) -> (r: Reply)
    ensures
        r@ == (STATUS_NOT_FOUND, not_found_body(task_id)),
{
    let mut message = String::new();
    message.append("Task ");
    push_decimal(&mut message, task_id);
    message.append(" not found");
    assert(message@ =~= not_found_message(task_id));
    let mut body = String::new();
    body.append("{\"message\":");
    let m = json_string(message.as_str());
    body.append(m.as_str());
    body.append("}");
    assert(body@ =~= not_found_body(task_id));
    Reply { status: STATUS_NOT_FOUND, body }
}

/// A success reply with `status`, carrying `data` (JSON text) when present.
pub fn map_success(status: u16, data: Option<String>) -> (r: Reply)
    ensures
        r@ == (status, success_body(opt_text(data))),
{
    match data {
        None => {
            let body = String::from_str("{\"success\":true}");
            Reply { status, body }
        },
        Some(d) => {
            let mut body = String::new();
            body.append("{\"data\":");
            body.append(d.as_str());
            body.append(",\"success\":true}");
            assert(body@ =~= success_body(opt_text(Some(d))));
            Reply { status, body }
        },
    }
}

} // verus!
