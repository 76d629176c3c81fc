use todo_list::store::TodoList;
use todo_list::task::{Category, Task, TaskStatus};

fn setup() -> TodoList {
    TodoList::new()
}

#[test]
fn test_add_task() {
    let mut todo_list = setup();
    let task = Task::new(
        "Test Task".to_string(),
        "Description".to_string(),
        Category("TestCategory".to_string()),
    );
    assert!(todo_list.add_task(task).is_ok());
}

#[test]
fn test_mark_as_done() {
    let mut todo_list = setup();
    let task = Task::new(
        "Test Task".to_string(),
        "Description".to_string(),
        Category("TestCategory".to_string()),
    );
    todo_list.add_task(task).unwrap();
    assert!(todo_list.mark_as_done("Test Task").is_ok());
    let tasks = todo_list.get_all_tasks();
    let updated = tasks.iter().find(|t| t.title == "Test Task").unwrap();
    assert_eq!(updated.status, TaskStatus::Done);
}

#[test]
fn test_delete_task() {
    let mut todo_list = setup();
    let task = Task::new(
        "Test Task".to_string(),
        "Description".to_string(),
        Category("TestCategory".to_string()),
    );
    todo_list.add_task(task).unwrap();
    assert!(todo_list.delete_task("Test Task").is_ok());
    assert!(todo_list.get_all_tasks().is_empty());
}

#[test]
fn test_filter_tasks() {
    let mut todo_list = setup();
    let task1 = Task::new(
        "Task 1".to_string(),
        "Description 1".to_string(),
        Category("Category1".to_string()),
    );
    let task2 = Task::new(
        "Task 2".to_string(),
        "Description 2".to_string(),
        Category("Category2".to_string()),
    );
    todo_list.add_task(task1).unwrap();
    todo_list.add_task(task2).unwrap();

    let filtered = todo_list.filter_tasks(r#"category = "Category1""#).unwrap();
    assert_eq!(filtered.len(), 1);
    assert_eq!(filtered[0].title, "Task 1");

    let filtered = todo_list
        .filter_tasks(r#"description like "Description""#)
        .unwrap();
    assert_eq!(filtered.len(), 2);

    assert!(todo_list.filter_tasks("invalid predicate").is_err());
}

#[test]
fn test_update_task() {
    let mut todo_list = setup();
    let task = Task::new(
        "Test Task".to_string(),
        "Description".to_string(),
        Category("TestCategory".to_string()),
    );
    todo_list.add_task(task).unwrap();

    let updated_task = Task {
        title: "Test Task".to_string(),
        description: "Updated Description".to_string(),
        creation_date: todo_list::datetime::now(),
        category: Category("UpdatedCategory".to_string()),
        status: TaskStatus::Done,
    };

    assert!(todo_list.update_task("Test Task", updated_task).is_ok());

    let tasks = todo_list.get_all_tasks();
    let updated = tasks.iter().find(|t| t.title == "Test Task").unwrap();
    assert_eq!(updated.description, "Updated Description");
    assert_eq!(updated.category.0, "UpdatedCategory");
    assert_eq!(updated.status, TaskStatus::Done);
}

#[test]
fn duplicate_title_leaves_store_unchanged() {
    let mut todo_list = setup();
    let first = Task::new(
        "Same".to_string(),
        "original".to_string(),
        Category("A".to_string()),
    );
    todo_list.add_task(first).unwrap();
    let second = Task::new(
        "Same".to_string(),
        "replacement".to_string(),
        Category("B".to_string()),
    );
    assert!(todo_list.add_task(second).is_err());
    let tasks = todo_list.get_all_tasks();
    assert_eq!(tasks.len(), 1);
    assert_eq!(tasks[0].description, "original");
    assert_eq!(tasks[0].category.0, "A");
}

#[test]
fn missing_title_is_an_error_and_changes_nothing() {
    let mut todo_list = setup();
    let task = Task::new(
        "Only".to_string(),
        "text".to_string(),
        Category("A".to_string()),
    );
    todo_list.add_task(task).unwrap();

    assert!(todo_list.mark_as_done("Absent").is_err());
    assert!(todo_list.delete_task("Absent").is_err());
    let replacement = Task::new(
        "Absent".to_string(),
        "other".to_string(),
        Category("B".to_string()),
    );
    assert!(todo_list.update_task("Absent", replacement).is_err());

    let tasks = todo_list.get_all_tasks();
    assert_eq!(tasks.len(), 1);
    assert_eq!(tasks[0].title, "Only");
    assert_eq!(tasks[0].description, "text");
    assert_eq!(tasks[0].status, TaskStatus::Active);
}

#[test]
fn filter_by_status_and_date() {
    let mut todo_list = setup();
    let mut early = Task::new(
        "Early".to_string(),
        "first thing".to_string(),
        Category("Work".to_string()),
    );
    early.creation_date = todo_list::datetime::DateTime {
        year: 2023,
        month: 5,
        day: 19,
        hour: 9,
        minute: 30,
    };
    let mut late = Task::new(
        "Late".to_string(),
        "second thing".to_string(),
        Category("Work".to_string()),
    );
    late.creation_date = todo_list::datetime::DateTime {
        year: 2023,
        month: 5,
        day: 21,
        hour: 12,
        minute: 0,
    };
    todo_list.add_task(early).unwrap();
    todo_list.add_task(late).unwrap();
    todo_list.mark_as_done("Early").unwrap();

    let done = todo_list.filter_tasks(r#"status = "done""#).unwrap();
    assert_eq!(done.len(), 1);
    assert_eq!(done[0].title, "Early");

    let before = todo_list
        .filter_tasks(r#"date < "2023-05-20 10:00""#)
        .unwrap();
    assert_eq!(before.len(), 1);
    assert_eq!(before[0].title, "Early");

    let after = todo_list
        .filter_tasks(r#"date > "2023-05-20 10:00""#)
        .unwrap();
    assert_eq!(after.len(), 1);
    assert_eq!(after[0].title, "Late");

    let both = todo_list
        .filter_tasks(r#"category = "Work" status = "on""#)
        .unwrap();
    assert_eq!(both.len(), 1);
    assert_eq!(both[0].title, "Late");
}

#[test]
fn filter_with_bad_clause_value_is_an_error() {
    let mut todo_list = setup();
    let task = Task::new(
        "T".to_string(),
        "d".to_string(),
        Category("C".to_string()),
    );
    todo_list.add_task(task).unwrap();
    assert!(todo_list.filter_tasks(r#"status = "nonsense""#).is_err());
    assert!(todo_list.filter_tasks(r#"date < "2023-02-29 10:00""#).is_err());
    assert!(todo_list.filter_tasks(r#"color = "red""#).is_err());
}
