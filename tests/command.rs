use todo_store::command::{
    add_failure, add_todo, collect_todos, create_schema, delete_failure, delete_todo, get_todos,
    list_failure, todo_from_row, todos_from_rows, update_failure, update_todo, RawTodo, RowError,
    SqlValue, Statement,
};
use todo_store::todo::{Todo, TodoStatus};

fn texts(s: &Statement) -> Vec<String> {
    s.params
        .iter()
        .map(|p| match p {
            SqlValue::Text(t) => format!("T:{}", t),
            SqlValue::Integer(n) => format!("I:{}", n),
        })
        .collect()
}

fn raw(id: i64, description: &str, status: &str) -> RawTodo {
    RawTodo { id, description: description.to_string(), status: status.to_string() }
}

#[test]
fn schema_statement() {
    let s = create_schema();
    assert!(s.sql.starts_with("CREATE TABLE IF NOT EXISTS todos"));
    assert!(s.params.is_empty());
}

#[test]
fn add_statement_binds_description_and_incomplete() {
    let s = add_todo("buy milk");
    assert_eq!(s.sql, "INSERT INTO todos (description, status) VALUES (?1, ?2)");
    assert_eq!(texts(&s), vec!["T:buy milk", "T:Incomplete"]);
}

#[test]
fn get_statement_selects_all() {
    let s = get_todos();
    assert_eq!(s.sql, "SELECT id, description, status FROM todos");
    assert!(s.params.is_empty());
}

#[test]
fn update_statement_binds_fields_and_id() {
    let t = Todo::new(4, "done".to_string(), TodoStatus::Complete);
    let s = update_todo(&t);
    assert_eq!(s.sql, "UPDATE todos SET description = ?1, status = ?2 WHERE id = ?3");
    assert_eq!(texts(&s), vec!["T:done", "T:Complete", "I:4"]);
}

#[test]
fn delete_statement_binds_id() {
    let s = delete_todo(65535);
    assert_eq!(s.sql, "DELETE FROM todos WHERE id = ?1");
    assert_eq!(texts(&s), vec!["I:65535"]);
}

#[test]
fn failure_messages() {
    assert_eq!(add_failure("disk full"), "Error saving todo: disk full");
    assert_eq!(list_failure("locked"), "Failed to get todos locked");
    assert_eq!(update_failure("x"), "could not update todo x");
    assert_eq!(delete_failure(""), "could not delete todo ");
}

#[test]
fn status_names_round_trip() {
    for s in [TodoStatus::Incomplete, TodoStatus::Complete] {
        assert_eq!(TodoStatus::from_name(&s.name()), Some(s));
    }
    assert_eq!(TodoStatus::Complete.name(), "Complete");
    assert_eq!(TodoStatus::from_name(&"complete".to_string()), None);
}

#[test]
fn row_decodes() {
    let t = todo_from_row(&raw(3, "read", "Complete")).unwrap();
    assert_eq!((t.id, t.description.as_str(), t.status), (3, "read", TodoStatus::Complete));
}

#[test]
fn row_id_out_of_range() {
    assert_eq!(todo_from_row(&raw(65536, "a", "Complete")).unwrap_err(), RowError::IdOutOfRange);
    assert_eq!(todo_from_row(&raw(-1, "a", "Complete")).unwrap_err(), RowError::IdOutOfRange);
}

#[test]
fn row_unknown_status() {
    assert_eq!(todo_from_row(&raw(1, "a", "Done")).unwrap_err(), RowError::UnknownStatus);
}

#[test]
fn rows_stop_at_first_error() {
    let rows = vec![raw(1, "a", "Incomplete"), raw(2, "b", "?"), raw(70000, "c", "Complete")];
    assert_eq!(todos_from_rows(&rows).unwrap_err(), RowError::UnknownStatus);
    assert_eq!(collect_todos(&rows).unwrap_err(), "Failed to get todos unknown status");
}

#[test]
fn rows_all_decode() {
    let rows = vec![raw(1, "a", "Incomplete"), raw(2, "b", "Complete")];
    let v = collect_todos(&rows).unwrap();
    assert_eq!(v.len(), 2);
    assert_eq!((v[1].id, v[1].description.as_str(), v[1].status), (2, "b", TodoStatus::Complete));
    assert!(collect_todos(&Vec::new()).unwrap().is_empty());
}

#[test]
fn row_error_messages() {
    assert_eq!(RowError::IdOutOfRange.message(), "identifier out of range");
    assert_eq!(RowError::UnknownStatus.message(), "unknown status");
}
