use vstd::prelude::*;

use crate::todo::{parse_status, Todo, TodoStatus, TodoView, status_name};

verus! {

/// The text of a failed insert, with the database's message appended.
pub open spec fn add_failure_text(detail: Seq<char>) -> Seq<char> {
    "Error saving todo: "@ + detail
}

/// The text of a failed read of all rows.
pub open spec fn list_failure_text(detail: Seq<char>) -> Seq<char> {
    "Failed to get todos "@ + detail
}

/// The text of a failed update.
pub open spec fn update_failure_text(detail: Seq<char>) -> Seq<char> {
    "could not update todo "@ + detail
}

/// The text of a failed delete.
pub open spec fn delete_failure_text(detail: Seq<char>) -> Seq<char> {
    "could not delete todo "@ + detail
}

/// The message given when every identifier has been used.
pub open spec fn ids_exhausted_text() -> Seq<char> {
    "no identifier is left"@
}

/// The message for a failed insert.
pub fn add_failure(detail: &str) -> (r: String)
    ensures
        r@ == add_failure_text(detail@),
{
    String::from_str("Error saving todo: ").concat(detail)
}

/// The message for a failed read of all rows.
pub fn list_failure(detail: &str) -> (r: String)
    ensures
        r@ == list_failure_text(detail@),
{
    String::from_str("Failed to get todos ").concat(detail)
}

/// The message for a failed update.
pub fn update_failure(detail: &str) -> (r: String)
    ensures
        r@ == update_failure_text(detail@),
{
    String::from_str("could not update todo ").concat(detail)
}

/// The message for a failed delete.
pub fn delete_failure(detail: &str) -> (r: String)
    ensures
        r@ == delete_failure_text(detail@),
{
    String::from_str("could not delete todo ").concat(detail)
}

/// The message given when every identifier has been used.
pub fn ids_exhausted() -> (r: String)
    ensures
        r@ == ids_exhausted_text(),
{
    String::from_str("no identifier is left")
}

/// A value bound to a placeholder of a statement.
#[derive(Debug)]
pub enum SqlValue {
    Text(String),
    Integer(i64),
}

/// The mathematical value of a [`SqlValue`].
pub enum SqlParam {
    Text(Seq<char>),
    Integer(i64),
}

impl View for SqlValue {
    type V = SqlParam;

    open spec fn view(&self) -> SqlParam {
        match self {
            SqlValue::Text(s) => SqlParam::Text(s@),
            SqlValue::Integer(n) => SqlParam::Integer(*n),
        }
    }
}

/// A parameterised SQL statement: the text, and the values for its
/// placeholders `?1`, `?2`, ... in order.
#[derive(Debug)]
pub struct Statement {
    pub sql: String,
    pub params: Vec<SqlValue>,
}

/// The mathematical value of a [`Statement`].
pub struct StatementView {
    pub sql: Seq<char>,
    pub params: Seq<SqlParam>,
}

impl View for Statement {
    type V = StatementView;

    open spec fn view(&self) -> StatementView {
        StatementView { sql: self.sql@, params: self.params@.map_values(|v: SqlValue| v@) }
    }
}

/// The schema of the store's single table.
pub open spec fn schema_sql() -> Seq<char> {
    "CREATE TABLE IF NOT EXISTS todos (id INTEGER PRIMARY KEY AUTOINCREMENT, description TEXT NOT NULL, status TEXT NOT NULL)"@
}

/// The insert of a new row.
pub open spec fn insert_sql() -> Seq<char> {
    "INSERT INTO todos (description, status) VALUES (?1, ?2)"@
}

/// The read of all rows.
pub open spec fn select_sql() -> Seq<char> {
    "SELECT id, description, status FROM todos"@
}

/// The overwrite of one row by identifier.
pub open spec fn update_sql() -> Seq<char> {
    "UPDATE todos SET description = ?1, status = ?2 WHERE id = ?3"@
}

/// The removal of one row by identifier.
pub open spec fn delete_sql() -> Seq<char> {
    "DELETE FROM todos WHERE id = ?1"@
}

/// Creates the table if the database does not hold it yet.
pub fn create_schema() -> (r: Statement)
    ensures
        r@ == (StatementView { sql: schema_sql(), params: seq![] }),
{
    let r = Statement {
        sql: String::from_str(
            "CREATE TABLE IF NOT EXISTS todos (id INTEGER PRIMARY KEY AUTOINCREMENT, description TEXT NOT NULL, status TEXT NOT NULL)",
        ),
        params: Vec::new(),
    };
    assert(r@.params =~= seq![]);
    r
}

/// Inserts a row with `description` and status `Incomplete`.
pub fn add_todo(description: &str) -> (r: Statement)
    ensures
        r@ == (StatementView {
            sql: insert_sql(),
            params: seq![
                SqlParam::Text(description@),
                SqlParam::Text(status_name(TodoStatus::Incomplete)),
            ],
        }),
{
    let mut params: Vec<SqlValue> = Vec::new();
    params.push(SqlValue::Text(String::from_str(description)));
    params.push(SqlValue::Text(TodoStatus::Incomplete.name()));
    let r = Statement {
        sql: String::from_str("INSERT INTO todos (description, status) VALUES (?1, ?2)"),
        params,
    };
    assert(r@.params =~= seq![
        SqlParam::Text(description@),
        SqlParam::Text(status_name(TodoStatus::Incomplete)),
    ]);
    r
}

/// Reads every row, as (id, description, status).
pub fn get_todos() -> (r: Statement)
    ensures
        r@ == (StatementView { sql: select_sql(), params: seq![] }),
{
    let r = Statement {
        sql: String::from_str("SELECT id, description, status FROM todos"),
        params: Vec::new(),
    };
    assert(r@.params =~= seq![]);
    r
}

/// Overwrites description and status of the row whose identifier is
/// `todo.id`.
pub fn update_todo(todo: &Todo) -> (r: Statement)
    ensures
        r@ == (StatementView {
            sql: update_sql(),
            params: seq![
                SqlParam::Text(todo.description@),
                SqlParam::Text(status_name(todo.status)),
                SqlParam::Integer(todo.id as i64),
            ],
        }),
{
    let mut params: Vec<SqlValue> = Vec::new();
    params.push(SqlValue::Text(todo.description.clone()));
    params.push(SqlValue::Text(todo.status.name()));
    params.push(SqlValue::Integer(todo.id as i64));
    let r = Statement {
        sql: String::from_str("UPDATE todos SET description = ?1, status = ?2 WHERE id = ?3"),
        params,
    };
    assert(r@.params =~= seq![
        SqlParam::Text(todo.description@),
        SqlParam::Text(status_name(todo.status)),
        SqlParam::Integer(todo.id as i64),
    ]);
    r
}

/// Removes the row whose identifier is `id`.
pub fn delete_todo(id: u16) -> (r: Statement)
    ensures
        r@ == (StatementView { sql: delete_sql(), params: seq![SqlParam::Integer(id as i64)] }),
{
    let mut params: Vec<SqlValue> = Vec::new();
    params.push(SqlValue::Integer(id as i64));
    let r = Statement { sql: String::from_str("DELETE FROM todos WHERE id = ?1"), params };
    assert(r@.params =~= seq![SqlParam::Integer(id as i64)]);
    r
}

/// A row as the database returns it, before its columns are checked.
#[derive(Debug)]
pub struct RawTodo {
    pub id: i64,
    pub description: String,
    pub status: String,
}

/// Why a row read from the database is not a to-do item.
#[derive(Clone, Copy, Debug, PartialEq, Eq, Structural)]
pub enum RowError {
    /// The identifier does not fit an item's identifier.
    IdOutOfRange,
    /// The status column holds no known status.
    UnknownStatus,
}

/// The message of a row error.
pub open spec fn row_error_text(e: RowError) -> Seq<char> {
    match e {
        RowError::IdOutOfRange => "identifier out of range"@,
        RowError::UnknownStatus => "unknown status"@,
    }
}

impl RowError {
    /// The message of this error.
    pub fn message(&self) -> (r: String)
        ensures
            r@ == row_error_text(*self),
    {
        match self {
            RowError::IdOutOfRange => String::from_str("identifier out of range"),
            RowError::UnknownStatus => String::from_str("unknown status"),
        }
    }
}

/// The item that a row stands for, or why there is none.
pub open spec fn decoded(row: RawTodo) -> Result<TodoView, RowError> {
    if !(0 <= row.id <= u16::MAX) {
        Err(RowError::IdOutOfRange)
    } else {
        match parse_status(row.status@) {
            Some(status) => Ok(
                TodoView { id: row.id as u16, description: row.description@, status },
            ),
            None => Err(RowError::UnknownStatus),
        }
    }
}

/// The items that rows stand for, or the error of the first row that
/// stands for none.
pub open spec fn decoded_all(rows: Seq<RawTodo>) -> Result<Seq<TodoView>, RowError>
    decreases rows.len(),
{
    if rows.len() == 0 {
        Ok(Seq::empty())
    } else {
        match decoded_all(rows.drop_last()) {
            Err(e) => Err(e),
            Ok(items) => match decoded(rows.last()) {
                Ok(item) => Ok(items.push(item)),
                Err(e) => Err(e),
            },
        }
    }
}

/// Checks the columns of one row.
pub fn todo_from_row(row: &RawTodo) -> (r: Result<Todo, RowError>)
    ensures
        match r {
            Ok(t) => decoded(*row) == Ok::<TodoView, RowError>(t@),
            Err(e) => decoded(*row) == Err::<TodoView, RowError>(e),
        },
{
    if row.id < 0 || row.id > u16::MAX as i64 {
        return Err(RowError::IdOutOfRange);
    }
    match TodoStatus::from_name(&row.status) {
        Some(status) => Ok(Todo { id: row.id as u16, description: row.description.clone(), status }),
        None => Err(RowError::UnknownStatus),
    }
}

/// Once a prefix of the rows fails, every longer prefix fails the same way.
proof fn lemma_decoded_all_error_stays(rows: Seq<RawTodo>, i: int, n: int, e: RowError)
    requires
        0 <= i <= n <= rows.len(),
        decoded_all(rows.subrange(0, i)) == Err::<Seq<TodoView>, RowError>(e),
    ensures
        decoded_all(rows.subrange(0, n)) == Err::<Seq<TodoView>, RowError>(e),
    decreases n - i,
{
    if n > i {
        lemma_decoded_all_error_stays(rows, i, n - 1, e);
        assert(rows.subrange(0, n).drop_last() =~= rows.subrange(0, n - 1));
    }
}

/// Checks the columns of every row, in order, stopping at the first that
/// stands for no item.
pub fn todos_from_rows(rows: &Vec<RawTodo>) -> (r: Result<Vec<Todo>, RowError>)
    ensures
        match r {
            Ok(v) => decoded_all(rows@) == Ok::<Seq<TodoView>, RowError>(
                v@.map_values(|t: Todo| t@),
            ),
            Err(e) => decoded_all(rows@) == Err::<Seq<TodoView>, RowError>(e),
        },
{
    let mut out: Vec<Todo> = Vec::new();
    let mut i: usize = 0;
    assert(rows@.subrange(0, 0) =~= Seq::<RawTodo>::empty());
    assert(out@.map_values(|t: Todo| t@) =~= Seq::<TodoView>::empty());
    while i < rows.len()
        invariant
            i <= rows@.len(),
            decoded_all(rows@.subrange(0, i as int)) == Ok::<Seq<TodoView>, RowError>(
                out@.map_values(|t: Todo| t@),
            ),
        decreases rows@.len() - i,
    {
        assert(rows@.subrange(0, i + 1).drop_last() =~= rows@.subrange(0, i as int));
        match todo_from_row(&rows[i]) {
            Ok(t) => {
                let ghost prev = out@;
                let ghost item = t@;
                out.push(t);
                assert(out@.map_values(|t: Todo| t@) =~= prev.map_values(|t: Todo| t@).push(item));
            },
            Err(e) => {
                proof {
                    lemma_decoded_all_error_stays(rows@, i + 1, rows@.len() as int, e);
                    assert(rows@.subrange(0, rows@.len() as int) =~= rows@);
                }
                return Err(e);
            },
        }
        i = i + 1;
    }
    assert(rows@.subrange(0, rows@.len() as int) =~= rows@);
    Ok(out)
}

/// The answer to a request for all items: the items, or the message of the
/// first row that stands for none.
pub fn collect_todos(rows: &Vec<RawTodo>) -> (r: Result<Vec<Todo>, String>)
    ensures
        match decoded_all(rows@) {
            Ok(items) => r matches Ok(v) && v@.map_values(|t: Todo| t@) == items,
            Err(e) => r matches Err(m) && m@ == list_failure_text(row_error_text(e)),
        },
{
    match todos_from_rows(rows) {
        Ok(v) => Ok(v),
        Err(e) => {
            let detail = e.message();
            Err(list_failure(detail.as_str()))
        },
    }
}

} // verus!
