use todo_list::registry::{Task, TodoList};
use todo_list::render::task_line;

fn summary(listing: &Vec<(u32, &Task)>) -> Vec<(u32, String, bool)> {
    listing
        .iter()
        .map(|(id, task)| (*id, task.description().to_string(), task.completed()))
        .collect()
}

fn three_tasks() -> TodoList {
    let mut list = TodoList::new();
    list.add_task_at("Buy groceries".to_string(), 100);
    list.add_task_at("Clean the house".to_string(), 200);
    list.add_task_at("Do laundry".to_string(), 300);
    list
}

#[test]
fn ids_start_at_one_and_increase() {
    let mut list = TodoList::new();
    assert_eq!(list.next_id(), 1);
    assert_eq!(list.add_task_at("a".to_string(), 1), 1);
    assert_eq!(list.add_task_at("b".to_string(), 1), 2);
    assert_eq!(list.add_task_at("c".to_string(), 1), 3);
    assert_eq!(list.next_id(), 4);
}

#[test]
fn ids_are_not_reused_after_removal() {
    let mut list = TodoList::new();
    assert_eq!(list.add_task_at("a".to_string(), 1), 1);
    assert_eq!(list.add_task_at("b".to_string(), 1), 2);
    list.remove_task(2);
    list.remove_task(1);
    assert_eq!(list.next_id(), 3);
    assert_eq!(list.add_task_at("c".to_string(), 1), 3);
    assert_eq!(summary(&list.sort_tasks_by_completion()), vec![(3, "c".to_string(), false)]);
}

#[test]
fn add_task_reads_the_clock() {
    let mut list = TodoList::new();
    let id = list.add_task("Buy groceries".to_string());
    assert_eq!(id, Some(1));
    let created = list.creation_time(1).unwrap();
    assert!(created > 1_600_000_000);
    assert_eq!(list.next_id(), 2);
}

#[test]
fn operations_on_a_removed_task_do_nothing() {
    let mut list = three_tasks();
    list.remove_task(1);
    let before = summary(&list.sort_tasks_by_completion());
    list.update_task(1, "again".to_string());
    list.mark_task_as_completed(1);
    list.remove_task(1);
    assert_eq!(summary(&list.sort_tasks_by_completion()), before);
    assert_eq!(list.creation_time(1), None);
    assert_eq!(list.creation_time_line(1), None);
    assert_eq!(list.next_id(), 4);
}

#[test]
fn update_changes_only_the_description() {
    let mut list = three_tasks();
    list.mark_task_as_completed(2);
    list.update_task(2, "Vacuum".to_string());
    assert_eq!(list.creation_time(2), Some(200));
    let listing = list.sort_tasks_by_completion();
    let task = listing.iter().find(|(id, _)| *id == 2).unwrap().1;
    assert_eq!(task.description(), "Vacuum");
    assert!(task.completed());
    assert_eq!(task.created_at(), 200);
}

#[test]
fn update_of_missing_task_does_nothing() {
    let mut list = three_tasks();
    list.update_task(9, "nothing".to_string());
    let listing = summary(&list.sort_tasks_by_completion());
    assert_eq!(listing.len(), 3);
    assert!(listing.iter().all(|(_, d, _)| d != "nothing"));
}

#[test]
fn complete_twice_is_idempotent() {
    let mut list = three_tasks();
    list.mark_task_as_completed(3);
    let once = summary(&list.sort_tasks_by_completion());
    list.mark_task_as_completed(3);
    let twice = summary(&list.sort_tasks_by_completion());
    assert_eq!(once.len(), twice.len());
    let mut a = once.clone();
    let mut b = twice.clone();
    a.sort();
    b.sort();
    assert_eq!(a, b);
    assert!(twice.iter().any(|(id, _, done)| *id == 3 && *done));
    assert_eq!(list.creation_time(3), Some(300));
}

#[test]
fn listing_puts_incomplete_tasks_first() {
    let mut list = TodoList::new();
    for i in 0..10u64 {
        list.add_task_at(format!("task {}", i), i);
    }
    for id in [1u32, 4, 5, 9] {
        list.mark_task_as_completed(id);
    }
    list.remove_task(7);
    let listing = summary(&list.sort_tasks_by_completion());
    assert_eq!(listing.len(), 9);
    let first_done = listing.iter().position(|(_, _, done)| *done).unwrap();
    assert_eq!(first_done, 5);
    assert!(listing[first_done..].iter().all(|(_, _, done)| *done));
    let mut ids: Vec<u32> = listing.iter().map(|(id, _, _)| *id).collect();
    ids.sort();
    assert_eq!(ids, vec![1, 2, 3, 4, 5, 6, 8, 9, 10]);
}

#[test]
fn listing_of_empty_list_is_empty() {
    let list = TodoList::new();
    assert!(list.sort_tasks_by_completion().is_empty());
}

#[test]
fn complete_update_remove_scenario() {
    let mut list = three_tasks();
    list.mark_task_as_completed(2);
    list.update_task(3, "X".to_string());
    list.remove_task(1);
    assert_eq!(
        summary(&list.sort_tasks_by_completion()),
        vec![(3, "X".to_string(), false), (2, "Clean the house".to_string(), true)]
    );
}

#[test]
fn creation_time_of_missing_task_is_none() {
    let list = three_tasks();
    assert_eq!(list.creation_time(0), None);
    assert_eq!(list.creation_time(4), None);
    assert_eq!(list.creation_time_line(42), None);
}

#[test]
fn creation_time_line_shows_id_and_seconds() {
    let mut list = TodoList::new();
    list.add_task_at("a".to_string(), 1700000000);
    list.add_task_at("b".to_string(), 0);
    list.add_task_at("c".to_string(), u64::MAX);
    assert_eq!(list.creation_time_line(1), Some("Task 1 was created at 1700000000".to_string()));
    assert_eq!(list.creation_time_line(2), Some("Task 2 was created at 0".to_string()));
    assert_eq!(
        list.creation_time_line(3),
        Some("Task 3 was created at 18446744073709551615".to_string())
    );
}

#[test]
fn task_line_shows_description_and_flag() {
    let mut list = TodoList::new();
    list.add_task_at("Buy groceries".to_string(), 5);
    list.add_task_at("Do laundry".to_string(), 6);
    list.mark_task_as_completed(2);
    let listing = list.sort_tasks_by_completion();
    let lines: Vec<String> = listing.iter().map(|(_, task)| task_line(task)).collect();
    assert_eq!(
        lines,
        vec![
            "Task: Buy groceries, Completed: false".to_string(),
            "Task: Do laundry, Completed: true".to_string()
        ]
    );
}
