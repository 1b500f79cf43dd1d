use todo_list::shown::{filter_matching, sort_by_id, visible_tasks};
use todo_list::task::Task;

fn board_tasks(items: &[(usize, &str)]) -> Vec<Task> {
    items.iter().map(|(id, text)| Task::new(*id, text.to_string())).collect()
}

#[test]
fn filter_keeps_matching_tasks_in_order() {
    let list = board_tasks(&[(2, "Buy milk"), (0, "walk the dog"), (1, "MILK the cow")]);
    assert_eq!(filter_matching(&list, "milk"), board_tasks(&[(2, "Buy milk"), (1, "MILK the cow")]));
    assert_eq!(filter_matching(&list, "DOG"), board_tasks(&[(0, "walk the dog")]));
    assert_eq!(filter_matching(&list, "cat"), Vec::new());
}

#[test]
fn filter_with_empty_search_keeps_all() {
    let list = board_tasks(&[(2, "b"), (0, "a")]);
    assert_eq!(filter_matching(&list, ""), list);
    assert_eq!(filter_matching(&Vec::new(), ""), Vec::new());
}

#[test]
fn sort_orders_by_id() {
    let list = board_tasks(&[(3, "d"), (1, "b"), (2, "c"), (0, "a")]);
    assert_eq!(sort_by_id(&list), board_tasks(&[(0, "a"), (1, "b"), (2, "c"), (3, "d")]));
}

#[test]
fn sort_keeps_the_order_of_equal_ids() {
    let list = board_tasks(&[(2, "x"), (1, "p"), (2, "y"), (1, "q"), (2, "z"), (0, "m")]);
    assert_eq!(
        sort_by_id(&list),
        board_tasks(&[(0, "m"), (1, "p"), (1, "q"), (2, "x"), (2, "y"), (2, "z")])
    );
}

#[test]
fn sort_of_sorted_and_of_empty_list_changes_nothing() {
    let list = board_tasks(&[(1, "a"), (2, "b"), (2, "c"), (5, "d")]);
    assert_eq!(sort_by_id(&list), list);
    assert_eq!(sort_by_id(&Vec::new()), Vec::new());
    let one = board_tasks(&[(9, "z")]);
    assert_eq!(sort_by_id(&one), one);
}

#[test]
fn sort_leaves_its_input_alone() {
    let list = board_tasks(&[(3, "d"), (1, "b")]);
    let sorted = sort_by_id(&list);
    assert_eq!(list, board_tasks(&[(3, "d"), (1, "b")]));
    assert_eq!(sorted.len(), list.len());
}

#[test]
fn visible_tasks_are_filtered_then_sorted() {
    let list = board_tasks(&[(4, "Milk"), (1, "bread"), (3, "more milk"), (0, "MILKSHAKE"), (2, "eggs")]);
    assert_eq!(
        visible_tasks(&list, "milk"),
        board_tasks(&[(0, "MILKSHAKE"), (3, "more milk"), (4, "Milk")])
    );
    assert_eq!(
        visible_tasks(&list, ""),
        board_tasks(&[(0, "MILKSHAKE"), (1, "bread"), (2, "eggs"), (3, "more milk"), (4, "Milk")])
    );
    assert_eq!(visible_tasks(&list, "tea"), Vec::new());
}

#[test]
fn every_matching_task_is_shown_once() {
    let list = board_tasks(&[(1, "tea"), (1, "Tea"), (0, "TEA"), (2, "coffee"), (0, "tea")]);
    let shown = visible_tasks(&list, "tea");
    assert_eq!(shown, board_tasks(&[(0, "TEA"), (0, "tea"), (1, "tea"), (1, "Tea")]));
    for task in &shown {
        assert_eq!(shown.iter().filter(|other| *other == task).count(), 1);
        assert!(list.contains(task));
    }
}
