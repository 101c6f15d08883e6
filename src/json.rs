use vstd::prelude::*;
use crate::task::{rows_view, TaskModel, TaskRow};

verus! {

/// The character of a decimal digit.
pub open spec fn digit_char(d: nat) -> char {
    if d == 0 {
        '0'
    } else if d == 1 {
        '1'
    } else if d == 2 {
        '2'
    } else if d == 3 {
        '3'
    } else if d == 4 {
        '4'
    } else if d == 5 {
        '5'
    } else if d == 6 {
        '6'
    } else if d == 7 {
        '7'
    } else if d == 8 {
        '8'
    } else {
        '9'
    }
}

/// The decimal digits of a natural number, most significant first, without
/// leading zeros.
pub open spec fn digits_of(n: nat) -> Seq<char>
    decreases n,
{
    if n < 10 {
        seq![digit_char(n)]
    } else {
        digits_of(n / 10).push(digit_char(n % 10))
    }
}

/// The decimal text of an integer, with a leading `-` when it is negative.
pub open spec fn decimal_of(n: int) -> Seq<char> {
    if n < 0 {
        seq!['-'] + digits_of((-n) as nat)
    } else {
        digits_of(n as nat)
    }
}

/// What serde_json writes for a JSON string holding `s`: quoted and escaped.
pub uninterp spec fn json_string_of(s: Seq<char>) -> Seq<char>;

/// Relies on serde_json's `Value::String` and its `Display` impl, which write
/// the characters of `s` as one quoted and escaped JSON string.
#[verifier::external_body]
pub(crate) fn json_string(s: &str) -> (r: String)
    ensures
        r@ == json_string_of(s@),
{
    serde_json::Value::String(s.to_owned()).to_string()
}

fn digit_str(d: u32) -> (r: &'static str)
    requires
        d < 10,
    ensures
        r@ == seq![digit_char(d as nat)],
{
    if d == 0 {
        proof { reveal_strlit("0"); }
        "0"
    } else if d == 1 {
        proof { reveal_strlit("1"); }
        "1"
    } else if d == 2 {
        proof { reveal_strlit("2"); }
        "2"
    } else if d == 3 {
        proof { reveal_strlit("3"); }
        "3"
    } else if d == 4 {
        proof { reveal_strlit("4"); }
        "4"
    } else if d == 5 {
        proof { reveal_strlit("5"); }
        "5"
    } else if d == 6 {
        proof { reveal_strlit("6"); }
        "6"
    } else if d == 7 {
        proof { reveal_strlit("7"); }
        "7"
    } else if d == 8 {
        proof { reveal_strlit("8"); }
        "8"
    } else {
        proof { reveal_strlit("9"); }
        "9"
    }
}

fn push_digits(out: &mut String, n: u32)
    ensures
        final(out)@ == old(out)@ + digits_of(n as nat),
    decreases n,
{
    if n >= 10 {
        push_digits(out, n / 10);
    }
    out.append(digit_str(n % 10));
}

/// Appends the decimal text of `n` to `out`.
pub fn push_decimal(out: &mut String, n: i32)
    ensures
        final(out)@ == old(out)@ + decimal_of(n as int),
{
    if n < 0 {
        proof { reveal_strlit("-"); }
        out.append("-");
        let m: u32 = (-(n as i64)) as u32;
        push_digits(out, m);
        assert(final(out)@ =~= old(out)@ + decimal_of(n as int));
    } else {
        push_digits(out, n as u32);
    }
}

/// The JSON text of an optional priority: its decimal text, or `null`.
pub open spec fn priority_json(p: Option<i32>) -> Seq<char> {
    match p {
        Some(v) => decimal_of(v as int),
        None => "null"@,
    }
}

/// The JSON object of a task, its keys in ascending order as serde_json
/// writes an object.
pub open spec fn task_json(t: TaskModel) -> Seq<char> {
    "{\"name\":"@ + json_string_of(t.name) + ",\"priority\":"@ + priority_json(t.priority)
        + ",\"task_id\":"@ + decimal_of(t.task_id as int) + "}"@
}

/// The JSON objects of `rows`, in order, separated by commas.
pub open spec fn rows_json(rows: Seq<TaskModel>) -> Seq<char>
    decreases rows.len(),
{
    if rows.len() == 0 {
        Seq::empty()
    } else if rows.len() == 1 {
        task_json(rows[0])
    } else {
        rows_json(rows.drop_last()) + ","@ + task_json(rows.last())
    }
}

/// The JSON array of `rows`.
pub open spec fn tasks_json(rows: Seq<TaskModel>) -> Seq<char> {
    "["@ + rows_json(rows) + "]"@
}

/// The JSON object that carries a newly assigned key.
pub open spec fn task_id_json(task_id: i32) -> Seq<char> {
    "{\"task_id\":"@ + decimal_of(task_id as int) + "}"@
}

/// Appends the JSON object of `t` to `out`.
pub fn push_task(out: &mut String, t: &TaskRow)
    ensures
        final(out)@ == old(out)@ + task_json(t@),
{
    out.append("{\"name\":");
    let name = json_string(t.name.as_str());
    out.append(name.as_str());
    out.append(",\"priority\":");
    match t.priority {
        Some(v) => push_decimal(out, v),
        None => out.append("null"),
    }
    out.append(",\"task_id\":");
    push_decimal(out, t.task_id);
    out.append("}");
    assert(final(out)@ =~= old(out)@ + task_json(t@));
}

/// The JSON object of a task.
pub fn task_text(t: &TaskRow) -> (r: String)
    ensures
        r@ == task_json(t@),
{
    let mut out = String::new();
    push_task(&mut out, t);
    assert(out@ =~= task_json(t@));
    out
}

/// The JSON array of a sequence of tasks, in their order.
pub fn tasks_text(rows: &Vec<TaskRow>) -> (r: String)
    ensures
        r@ == tasks_json(rows_view(rows@)),
{
    let mut out = String::new();
    out.append("[");
    let mut i: usize = 0;
    while i < rows.len()
        invariant
            i <= rows.len(),
            out@ == "["@ + rows_json(rows_view(rows@.subrange(0, i as int))),
        decreases rows.len() - i,
    {
        let ghost before = out@;
        if i > 0 {
            out.append(",");
        }
        push_task(&mut out, &rows[i]);
        proof {
            let pre = rows_view(rows@.subrange(0, i as int));
            let post = rows_view(rows@.subrange(0, i + 1));
            assert(post.drop_last() =~= pre);
            assert(post.last() == rows@[i as int]@);
            if i == 0 {
                assert(pre.len() == 0);
                assert(rows_json(pre) =~= Seq::<char>::empty());
                assert(out@ =~= "["@ + rows_json(post));
            } else {
                assert(out@ =~= "["@ + rows_json(post));
            }
        }
        i = i + 1;
    }
    assert(rows@.subrange(0, rows.len() as int) =~= rows@);
    out.append("]");
    out
}

/// The JSON object that carries a newly assigned key.
pub fn task_id_text(task_id: i32) -> (r: String)
    ensures
        r@ == task_id_json(task_id),
{
    let mut out = String::new();
    out.append("{\"task_id\":");
    push_decimal(&mut out, task_id);
    out.append("}");
    assert(out@ =~= task_id_json(task_id));
    out
}

} // verus!
