use serde_json::Value;
use task_service::reply::{build_not_found_error, map_pg_error, map_success, Reply};
use task_service::service::{created_reply, task_reply, tasks_reply, update_plan, write_reply};
use task_service::table::TaskTable;
use task_service::task::{merge_update, CreateTaskReq, TaskRow, UpdateTaskReq};

fn json(text: &str) -> Value {
    serde_json::from_str(text).unwrap()
}

fn ok(r: Result<Reply, Reply>) -> Reply {
    match r {
        Ok(reply) => reply,
        Err(reply) => panic!("expected success, got {} {}", reply.status, reply.body),
    }
}

fn err(r: Result<Reply, Reply>) -> Reply {
    match r {
        Ok(reply) => panic!("expected failure, got {} {}", reply.status, reply.body),
        Err(reply) => reply,
    }
}

fn create(table: &mut TaskTable, name: &str, priority: Option<i32>) -> Reply {
    ok(table.create_task(CreateTaskReq { name: name.to_string(), priority }))
}

fn listed_ids(table: &TaskTable) -> Vec<i64> {
    let reply = ok(table.get_tasks());
    let body = json(&reply.body);
    body["data"].as_array().unwrap().iter().map(|t| t["task_id"].as_i64().unwrap()).collect()
}

#[test]
fn post_then_get_scenario() {
    let mut table = TaskTable::new();
    let created = create(&mut table, "write spec", Some(2));
    assert_eq!(created.status, 200);
    assert_eq!(json(&created.body), json(r#"{"success":true,"data":{"task_id":1}}"#));
    let got = ok(table.get_task(1));
    assert_eq!(got.status, 200);
    assert_eq!(
        json(&got.body),
        json(r#"{"success":true,"data":{"task_id":1,"name":"write spec","priority":2}}"#)
    );
}

#[test]
fn get_missing_task_scenario() {
    let table = TaskTable::new();
    let reply = err(table.get_task(999));
    assert_eq!(reply.status, 404);
    assert_eq!(json(&reply.body), json(r#"{"message":"Task 999 not found"}"#));
    assert_eq!(reply.body, r#"{"message":"Task 999 not found"}"#);
}

#[test]
fn patch_priority_scenario() {
    let mut table = TaskTable::new();
    create(&mut table, "write spec", Some(2));
    let patched = ok(table.update_task(1, UpdateTaskReq { name: None, priority: Some(5) }));
    assert_eq!(patched.status, 200);
    assert_eq!(json(&patched.body), json(r#"{"success":true}"#));
    let got = ok(table.get_task(1));
    assert_eq!(json(&got.body)["data"]["name"], json(r#""write spec""#));
    assert_eq!(json(&got.body)["data"]["priority"], json("5"));
}

#[test]
fn delete_scenario() {
    let mut table = TaskTable::new();
    create(&mut table, "write spec", Some(2));
    let deleted = ok(table.delete_task(1));
    assert_eq!(deleted.status, 200);
    assert_eq!(json(&deleted.body), json(r#"{"success":true}"#));
    assert_eq!(err(table.get_task(1)).status, 404);
}

#[test]
fn create_then_get_round_trip() {
    let mut table = TaskTable::new();
    let cases: Vec<(&str, Option<i32>)> =
        vec![("a", None), ("", Some(0)), ("say \"hi\"\n", Some(-7)), ("x", Some(i32::MAX)), ("y", Some(i32::MIN))];
    for (name, priority) in cases {
        let created = json(&create(&mut table, name, priority).body);
        let id = created["data"]["task_id"].as_i64().unwrap() as i32;
        let got = json(&ok(table.get_task(id)).body);
        assert_eq!(got["data"]["name"].as_str().unwrap(), name);
        assert_eq!(got["data"]["priority"].as_i64(), priority.map(|p| p as i64));
        assert_eq!(got["data"]["task_id"].as_i64().unwrap(), id as i64);
    }
}

#[test]
fn delete_then_get_is_not_found() {
    let mut table = TaskTable::new();
    create(&mut table, "one", None);
    create(&mut table, "two", Some(1));
    ok(table.delete_task(2));
    assert_eq!(err(table.get_task(2)).status, 404);
    let missing = ok(table.delete_task(42));
    assert_eq!(missing.body, r#"{"success":true}"#);
    assert_eq!(err(table.get_task(42)).status, 404);
    assert_eq!(ok(table.get_task(1)).status, 200);
}

#[test]
fn empty_update_keeps_row() {
    let mut table = TaskTable::new();
    create(&mut table, "keep", Some(3));
    let before = ok(table.get_task(1)).body;
    ok(table.update_task(1, UpdateTaskReq { name: None, priority: None }));
    assert_eq!(ok(table.get_task(1)).body, before);
}

#[test]
fn update_name_only() {
    let mut table = TaskTable::new();
    create(&mut table, "old", Some(4));
    ok(table.update_task(1, UpdateTaskReq { name: Some("new".to_string()), priority: None }));
    let got = json(&ok(table.get_task(1)).body);
    assert_eq!(got["data"]["name"].as_str().unwrap(), "new");
    assert_eq!(got["data"]["priority"].as_i64(), Some(4));
}

#[test]
fn update_missing_task_is_not_found() {
    let mut table = TaskTable::new();
    create(&mut table, "only", None);
    let reply = err(table.update_task(7, UpdateTaskReq { name: Some("x".to_string()), priority: Some(1) }));
    assert_eq!(reply.status, 404);
    assert_eq!(reply.body, r#"{"message":"Task 7 not found"}"#);
    assert_eq!(listed_ids(&table), vec![1]);
}

#[test]
fn list_in_key_order() {
    let mut table = TaskTable::new();
    for name in ["a", "b", "c", "d"] {
        create(&mut table, name, None);
    }
    ok(table.delete_task(2));
    create(&mut table, "e", Some(9));
    ok(table.update_task(1, UpdateTaskReq { name: Some("z".to_string()), priority: None }));
    assert_eq!(listed_ids(&table), vec![1, 3, 4, 5]);
}

#[test]
fn empty_list_has_empty_data_and_newline() {
    let table = TaskTable::new();
    let reply = ok(table.get_tasks());
    assert_eq!(reply.status, 200);
    assert_eq!(reply.body, "{\"data\":[],\"success\":true}\n");
}

#[test]
fn list_body_text() {
    let mut table = TaskTable::new();
    create(&mut table, "a", Some(2));
    create(&mut table, "b", None);
    let reply = ok(table.get_tasks());
    assert_eq!(
        reply.body,
        "{\"data\":[{\"name\":\"a\",\"priority\":2,\"task_id\":1},{\"name\":\"b\",\"priority\":null,\"task_id\":2}],\"success\":true}\n"
    );
}

#[test]
fn created_body_text() {
    let mut table = TaskTable::new();
    create(&mut table, "a", None);
    let reply = create(&mut table, "b", None);
    assert_eq!(reply.body, r#"{"data":{"task_id":2},"success":true}"#);
}

#[test]
fn name_is_escaped_in_body() {
    let mut table = TaskTable::new();
    create(&mut table, "a\"b\\c", Some(-12));
    let reply = ok(table.get_task(1));
    assert_eq!(reply.body, r#"{"data":{"name":"a\"b\\c","priority":-12,"task_id":1},"success":true}"#);
}

#[test]
fn store_failure_replies() {
    let expected = r#"{"message":"connection \"lost\"","success":false}"#;
    let message = "connection \"lost\"".to_string();
    let r = err(tasks_reply(Err(message.clone())));
    assert_eq!((r.status, r.body.as_str()), (500, expected));
    let r = err(task_reply(3, Err(message.clone())));
    assert_eq!((r.status, r.body.as_str()), (500, expected));
    let r = err(created_reply(Err(message.clone())));
    assert_eq!((r.status, r.body.as_str()), (500, expected));
    let r = err(write_reply(Err(message.clone())));
    assert_eq!((r.status, r.body.as_str()), (500, expected));
    let plan = update_plan(3, UpdateTaskReq { name: None, priority: None }, Err(message.clone()));
    match plan {
        Err(r) => assert_eq!((r.status, r.body.as_str()), (500, expected)),
        Ok(_) => panic!("expected failure"),
    }
    let r = map_pg_error(&message);
    assert_eq!((r.status, r.body.as_str()), (500, expected));
}

#[test]
fn decisions_on_store_results() {
    let row = TaskRow { task_id: 5, name: "n".to_string(), priority: None };
    let got = ok(task_reply(5, Ok(Some(row))));
    assert_eq!(got.body, r#"{"data":{"name":"n","priority":null,"task_id":5},"success":true}"#);
    let missing = err(task_reply(-3, Ok(None)));
    assert_eq!(missing.body, r#"{"message":"Task -3 not found"}"#);
    let created = ok(created_reply(Ok(2147483647)));
    assert_eq!(created.body, r#"{"data":{"task_id":2147483647},"success":true}"#);
    let listed = ok(tasks_reply(Ok(vec![])));
    assert_eq!(listed.body, "{\"data\":[],\"success\":true}\n");
    let written = ok(write_reply(Ok(())));
    assert_eq!((written.status, written.body.as_str()), (200, r#"{"success":true}"#));
}

#[test]
fn update_plan_merges_or_refuses() {
    let row = TaskRow { task_id: 8, name: "old".to_string(), priority: Some(1) };
    let plan = update_plan(8, UpdateTaskReq { name: Some("new".to_string()), priority: None }, Ok(Some(row)));
    match plan {
        Ok(t) => {
            assert_eq!((t.task_id, t.name.as_str(), t.priority), (8, "new", Some(1)));
        }
        Err(_) => panic!("expected a row to write"),
    }
    let plan = update_plan(8, UpdateTaskReq { name: None, priority: Some(2) }, Ok(None));
    match plan {
        Err(r) => assert_eq!((r.status, r.body.as_str()), (404, r#"{"message":"Task 8 not found"}"#)),
        Ok(_) => panic!("expected not found"),
    }
}

#[test]
fn merge_keeps_unsupplied_fields() {
    let original = TaskRow { task_id: 1, name: "a".to_string(), priority: Some(3) };
    let merged = merge_update(original, UpdateTaskReq { name: None, priority: Some(9) });
    assert_eq!((merged.task_id, merged.name.as_str(), merged.priority), (1, "a", Some(9)));
    let original = TaskRow { task_id: 2, name: "b".to_string(), priority: None };
    let merged = merge_update(original, UpdateTaskReq { name: Some("c".to_string()), priority: None });
    assert_eq!((merged.task_id, merged.name.as_str(), merged.priority), (2, "c", None));
}

#[test]
fn envelope_builders() {
    let r = build_not_found_error(i32::MIN);
    assert_eq!((r.status, r.body.as_str()), (404, r#"{"message":"Task -2147483648 not found"}"#));
    let r = map_success(201, Some("[1]".to_string()));
    assert_eq!((r.status, r.body.as_str()), (201, r#"{"data":[1],"success":true}"#));
    let r = map_success(200, None);
    assert_eq!((r.status, r.body.as_str()), (200, r#"{"success":true}"#));
}
