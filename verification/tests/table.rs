use todo_list::list::search_for_value;
use todo_list::table::TaskTable;
use todo_list::task::Task;

fn rows(items: &[(usize, &str)]) -> Vec<Task> {
    items.iter().map(|(id, text)| Task::new(*id, text.to_string())).collect()
}

#[test]
fn new_table_is_empty() {
    let table = TaskTable::new();
    assert_eq!(table.len(), 0);
    assert!(table.rows().is_empty());
}

#[test]
fn insert_numbers_from_one() {
    let mut table = TaskTable::new();
    assert_eq!(table.insert("a".to_string()), 1);
    assert_eq!(table.insert("b".to_string()), 2);
    assert_eq!(table.insert("c".to_string()), 3);
    assert_eq!(table.len(), 3);
    assert_eq!(*table.rows(), rows(&[(1, "a"), (2, "b"), (3, "c")]));
}

#[test]
fn inserted_text_is_listed() {
    let mut table = TaskTable::new();
    table.insert("write report".to_string());
    table.insert("send report".to_string());
    assert!(search_for_value("write report", table.rows()));
    assert!(search_for_value("send report", table.rows()));
    assert!(!search_for_value("read report", table.rows()));
}

#[test]
fn insert_takes_equal_and_empty_texts() {
    let mut table = TaskTable::new();
    table.insert("same".to_string());
    table.insert("same".to_string());
    table.insert(String::new());
    assert_eq!(*table.rows(), rows(&[(1, "same"), (2, "same"), (3, "")]));
}

#[test]
fn remove_renumbers_the_rows_behind() {
    let mut table = TaskTable::new();
    for text in ["a", "b", "c", "d"] {
        table.insert(text.to_string());
    }
    assert!(table.remove(2));
    assert_eq!(*table.rows(), rows(&[(1, "a"), (2, "c"), (3, "d")]));
    assert!(table.remove(1));
    assert_eq!(*table.rows(), rows(&[(1, "c"), (2, "d")]));
    assert!(table.remove(2));
    assert_eq!(*table.rows(), rows(&[(1, "c")]));
    assert!(table.remove(1));
    assert_eq!(table.len(), 0);
}

#[test]
fn remove_of_unknown_id_changes_nothing() {
    let mut table = TaskTable::new();
    assert!(!table.remove(1));
    table.insert("a".to_string());
    table.insert("b".to_string());
    assert!(!table.remove(0));
    assert!(!table.remove(3));
    assert!(!table.remove(usize::MAX));
    assert_eq!(*table.rows(), rows(&[(1, "a"), (2, "b")]));
}

#[test]
fn removed_last_id_is_free_and_given_again() {
    let mut table = TaskTable::new();
    table.insert("a".to_string());
    table.insert("b".to_string());
    assert!(table.remove(2));
    assert!(table.rows().iter().all(|row| row.id != 2));
    assert_eq!(table.insert("c".to_string()), 2);
    assert_eq!(*table.rows(), rows(&[(1, "a"), (2, "c")]));
}

#[test]
fn removed_inner_id_passes_to_the_next_row() {
    let mut table = TaskTable::new();
    table.insert("a".to_string());
    table.insert("b".to_string());
    table.insert("c".to_string());
    assert!(table.remove(2));
    assert!(!search_for_value("b", table.rows()));
    assert_eq!(table.rows()[1], Task::new(2, "c".to_string()));
}

#[test]
fn ids_stay_contiguous_through_inserts_and_removals() {
    let mut table = TaskTable::new();
    for round in 0..6usize {
        table.insert(format!("task {round}"));
        table.insert(format!("other {round}"));
        table.remove(round % 3 + 1);
        for (place, row) in table.rows().iter().enumerate() {
            assert_eq!(row.id, place + 1);
        }
    }
    assert_eq!(table.len(), 6);
}

#[test]
fn removing_the_inserted_row_gives_the_table_back() {
    let mut table = TaskTable::new();
    table.insert("a".to_string());
    table.insert("b".to_string());
    let before = table.rows().clone();
    let id = table.insert("c".to_string());
    assert_eq!(id, 3);
    assert!(table.remove(id));
    assert_eq!(*table.rows(), before);
}
