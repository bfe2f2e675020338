use todo_store::table::TodoTable;
use todo_store::todo::{Todo, TodoStatus};

fn rows(t: &TodoTable) -> Vec<(u16, String, TodoStatus)> {
    t.list()
        .into_iter()
        .map(|r| (r.id, r.description, r.status))
        .collect()
}

#[test]
fn new_table_is_empty() {
    let t = TodoTable::new();
    assert!(t.list().is_empty());
}

#[test]
fn create_adds_one_incomplete_row() {
    let mut t = TodoTable::new();
    assert_eq!(t.create("buy milk".to_string()), Ok(()));
    let before = rows(&t);
    assert_eq!(t.create("walk dog".to_string()), Ok(()));
    let after = rows(&t);
    assert_eq!(after.len(), before.len() + 1);
    assert_eq!(&after[..before.len()], &before[..]);
    let new_rows: Vec<_> = after.iter().filter(|r| !before.contains(r)).collect();
    assert_eq!(new_rows.len(), 1);
    assert_eq!(new_rows[0].1, "walk dog");
    assert_eq!(new_rows[0].2, TodoStatus::Incomplete);
}

#[test]
fn create_assigns_increasing_ids() {
    let mut t = TodoTable::new();
    t.create("a".to_string()).unwrap();
    t.create("b".to_string()).unwrap();
    t.delete(2);
    t.create("c".to_string()).unwrap();
    let ids: Vec<u16> = t.list().iter().map(|r| r.id).collect();
    assert_eq!(ids, vec![1, 3]);
}

#[test]
fn create_with_empty_description() {
    let mut t = TodoTable::new();
    t.create(String::new()).unwrap();
    assert_eq!(rows(&t), vec![(1, String::new(), TodoStatus::Incomplete)]);
}

#[test]
fn create_fails_when_ids_are_exhausted() {
    let mut t = TodoTable::new();
    for _ in 0..65535u32 {
        t.create("x".to_string()).unwrap();
    }
    assert_eq!(t.list().len(), 65535);
    assert_eq!(t.list().last().unwrap().id, 65535);
    let r = t.create("one more".to_string());
    assert_eq!(r, Err("Error saving todo: no identifier is left".to_string()));
    assert_eq!(t.list().len(), 65535);
}

#[test]
fn update_overwrites_matching_row() {
    let mut t = TodoTable::new();
    t.create("a".to_string()).unwrap();
    t.create("b".to_string()).unwrap();
    t.update(Todo::new(2, "b done".to_string(), TodoStatus::Complete));
    assert_eq!(
        rows(&t),
        vec![
            (1, "a".to_string(), TodoStatus::Incomplete),
            (2, "b done".to_string(), TodoStatus::Complete),
        ]
    );
}

#[test]
fn update_missing_id_leaves_table_unchanged() {
    let mut t = TodoTable::new();
    t.create("a".to_string()).unwrap();
    t.create("b".to_string()).unwrap();
    let before = rows(&t);
    t.update(Todo::new(7, "ghost".to_string(), TodoStatus::Complete));
    assert_eq!(rows(&t), before);
}

#[test]
fn delete_removes_only_that_row() {
    let mut t = TodoTable::new();
    for d in ["a", "b", "c"] {
        t.create(d.to_string()).unwrap();
    }
    t.delete(2);
    assert_eq!(
        rows(&t),
        vec![
            (1, "a".to_string(), TodoStatus::Incomplete),
            (3, "c".to_string(), TodoStatus::Incomplete),
        ]
    );
}

#[test]
fn delete_missing_id_leaves_table_unchanged() {
    let mut t = TodoTable::new();
    t.create("a".to_string()).unwrap();
    let before = rows(&t);
    t.delete(9);
    assert_eq!(rows(&t), before);
}

#[test]
fn delete_all_rows_leaves_empty_list() {
    let mut t = TodoTable::new();
    for d in ["a", "b", "c"] {
        t.create(d.to_string()).unwrap();
    }
    t.delete(3);
    t.delete(1);
    t.delete(1);
    t.delete(2);
    assert!(t.list().is_empty());
}
