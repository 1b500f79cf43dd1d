use todo_list::list::{append_task, position_of_id, remove_and_renumber, renumber, search_for_value};
use todo_list::task::Task;

fn tasks(items: &[(usize, &str)]) -> Vec<Task> {
    items.iter().map(|(id, text)| Task::new(*id, text.to_string())).collect()
}

#[test]
fn new_task_keeps_id_and_text() {
    let t = Task::new(7, "water the plants".to_string());
    assert_eq!(t.id, 7);
    assert_eq!(t.task, "water the plants");
}

#[test]
fn clone_of_task_is_equal() {
    let t = Task::new(3, "call home".to_string());
    let c = t.clone();
    assert_eq!(c, t);
    assert_eq!(c.id, 3);
    assert_eq!(c.task, "call home");
}

#[test]
fn tasks_differ_by_id_or_text() {
    let t = Task::new(3, "call home".to_string());
    assert_ne!(t, Task::new(4, "call home".to_string()));
    assert_ne!(t, Task::new(3, "call Home".to_string()));
    assert_eq!(t, Task::new(3, "call home".to_string()));
}

#[test]
fn search_finds_exact_text_only() {
    let list = tasks(&[(0, "buy milk"), (1, "walk the dog")]);
    assert!(search_for_value("buy milk", &list));
    assert!(search_for_value("walk the dog", &list));
    assert!(!search_for_value("Buy milk", &list));
    assert!(!search_for_value("buy", &list));
    assert!(!search_for_value("buy milk ", &list));
    assert!(!search_for_value("", &list));
}

#[test]
fn search_in_empty_list_finds_nothing() {
    let list: Vec<Task> = Vec::new();
    assert!(!search_for_value("anything", &list));
    assert!(!search_for_value("", &list));
}

#[test]
fn position_is_the_first_with_the_id() {
    let list = tasks(&[(5, "a"), (2, "b"), (5, "c"), (9, "d")]);
    assert_eq!(position_of_id(&list, 5), Some(0));
    assert_eq!(position_of_id(&list, 2), Some(1));
    assert_eq!(position_of_id(&list, 9), Some(3));
    assert_eq!(position_of_id(&list, 0), None);
    assert_eq!(position_of_id(&Vec::new(), 0), None);
}

#[test]
fn renumber_counts_up_from_first() {
    let mut list = tasks(&[(10, "a"), (3, "b"), (3, "c")]);
    renumber(&mut list, 1);
    assert_eq!(list, tasks(&[(1, "a"), (2, "b"), (3, "c")]));
    renumber(&mut list, 0);
    assert_eq!(list, tasks(&[(0, "a"), (1, "b"), (2, "c")]));
    renumber(&mut list, 40);
    assert_eq!(list, tasks(&[(40, "a"), (41, "b"), (42, "c")]));
}

#[test]
fn renumber_of_empty_list_is_empty() {
    let mut list: Vec<Task> = Vec::new();
    renumber(&mut list, usize::MAX);
    assert!(list.is_empty());
}

#[test]
fn renumber_up_to_the_largest_integer() {
    let mut list = tasks(&[(0, "a"), (0, "b")]);
    renumber(&mut list, usize::MAX - 1);
    assert_eq!(list, tasks(&[(usize::MAX - 1, "a"), (usize::MAX, "b")]));
}

#[test]
fn append_numbers_by_length() {
    let mut list: Vec<Task> = Vec::new();
    append_task(&mut list, "first".to_string());
    append_task(&mut list, "second".to_string());
    assert_eq!(list, tasks(&[(0, "first"), (1, "second")]));
    assert!(search_for_value("second", &list));
}

#[test]
fn append_after_fetched_rows_repeats_the_last_number() {
    let mut list = tasks(&[(1, "a"), (2, "b")]);
    append_task(&mut list, "b".to_string());
    assert_eq!(list, tasks(&[(1, "a"), (2, "b"), (2, "b")]));
}

#[test]
fn removal_closes_the_gap() {
    let mut list = tasks(&[(0, "a"), (1, "b"), (2, "c"), (3, "d")]);
    assert!(remove_and_renumber(&mut list, 1, 0));
    assert_eq!(list, tasks(&[(0, "a"), (1, "c"), (2, "d")]));
    assert!(remove_and_renumber(&mut list, 2, 0));
    assert_eq!(list, tasks(&[(0, "a"), (1, "c")]));
    assert!(remove_and_renumber(&mut list, 0, 0));
    assert_eq!(list, tasks(&[(0, "c")]));
    assert!(remove_and_renumber(&mut list, 0, 0));
    assert!(list.is_empty());
}

#[test]
fn removal_of_unknown_id_changes_nothing() {
    let mut list = tasks(&[(4, "a"), (8, "b")]);
    assert!(!remove_and_renumber(&mut list, 5, 0));
    assert_eq!(list, tasks(&[(4, "a"), (8, "b")]));
    let mut empty: Vec<Task> = Vec::new();
    assert!(!remove_and_renumber(&mut empty, 0, 0));
    assert!(empty.is_empty());
}

#[test]
fn removal_takes_the_first_of_equal_ids() {
    let mut list = tasks(&[(1, "a"), (2, "b"), (2, "c")]);
    assert!(remove_and_renumber(&mut list, 2, 1));
    assert_eq!(list, tasks(&[(1, "a"), (2, "c")]));
}

#[test]
fn removal_numbers_sparse_ids_anew() {
    let mut list = tasks(&[(3, "a"), (7, "b"), (20, "c")]);
    assert!(remove_and_renumber(&mut list, 7, 1));
    assert_eq!(list, tasks(&[(1, "a"), (2, "c")]));
}
