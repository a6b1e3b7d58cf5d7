use rs_todo::{decimal_string, is_blank_text, render_line, tasks_from_rows, Todo, TodoAppError};

fn open(name: &str) -> Todo {
    let path = format!("file:{}?mode=memory&cache=shared", name);
    match Todo::new(&path) {
        Ok(t) => t,
        Err(e) => panic!("cannot open store: {:?}", e),
    }
}

fn filled(name: &str, texts: Vec<&str>) -> Todo {
    let mut todo = open(name);
    todo.add(texts).unwrap();
    todo
}

fn texts(todo: &Todo) -> Vec<(usize, String, bool)> {
    todo.tasks().iter().map(|t| (t.id, t.name.clone(), t.done)).collect()
}

#[test]
fn scenario_add_then_list() {
    let mut todo = open("scenario_add_then_list");
    todo.add(vec!["buy milk"]).unwrap();
    assert_eq!(todo.list(), vec!["1. buy milk".to_string()]);
}

#[test]
fn scenario_done_marks_one_task() {
    let mut todo = filled("scenario_done_marks_one_task", vec!["a", "b", "c"]);
    todo.done(vec![2]).unwrap();
    assert_eq!(
        texts(&todo),
        vec![(1, "a".to_string(), false), (2, "b".to_string(), true), (3, "c".to_string(), false)]
    );
    let lines = todo.list();
    assert_eq!(lines.len(), 3);
    assert_eq!(lines[0], "1. a");
    assert!(lines[1] == "2. b" || lines[1] == "2. \u{1b}[9mb\u{1b}[0m");
    assert_eq!(lines[2], "3. c");
}

#[test]
fn scenario_remove_renumbers() {
    let mut todo = filled("scenario_remove_renumbers", vec!["a", "b", "c"]);
    todo.remove(vec![2]).unwrap();
    assert_eq!(todo.list(), vec!["1. a".to_string(), "2. c".to_string()]);
}

#[test]
fn scenario_edit_replaces_text_only() {
    let mut todo = filled("scenario_edit_replaces_text_only", vec!["a", "b", "c"]);
    todo.done(vec![2]).unwrap();
    todo.edit(2, "new text".to_string()).unwrap();
    assert_eq!(
        texts(&todo),
        vec![(1, "a".to_string(), false), (2, "new text".to_string(), true), (3, "c".to_string(), false)]
    );
}

#[test]
fn scenario_blank_add_skipped() {
    let mut todo = open("scenario_blank_add_skipped");
    todo.add(vec![""]).unwrap();
    assert!(todo.tasks().is_empty());
    todo.add(vec!["  \t", "x", " ", "y"]).unwrap();
    assert_eq!(todo.list(), vec!["1. x".to_string(), "2. y".to_string()]);
}

#[test]
fn add_many_calls_number_in_order() {
    let mut todo = open("add_many_calls_number_in_order");
    todo.add(vec!["one", "two"]).unwrap();
    todo.add(vec!["three"]).unwrap();
    todo.add(vec!["four", "five"]).unwrap();
    assert_eq!(
        todo.list(),
        vec!["1. one", "2. two", "3. three", "4. four", "5. five"]
            .into_iter()
            .map(|s| s.to_string())
            .collect::<Vec<_>>()
    );
}

#[test]
fn list_twice_is_identical() {
    let mut todo = filled("list_twice_is_identical", vec!["a", "b", "c"]);
    todo.done(vec![1]).unwrap();
    assert_eq!(todo.list(), todo.list());
}

#[test]
fn empty_operands_are_rejected() {
    let mut todo = filled("empty_operands_are_rejected", vec!["a"]);
    assert!(matches!(todo.add(vec![]), Err(TodoAppError::InvalidNumberOfArgs)));
    assert!(matches!(todo.done(vec![]), Err(TodoAppError::InvalidNumberOfArgs)));
    assert!(matches!(todo.remove(vec![]), Err(TodoAppError::InvalidNumberOfArgs)));
    assert_eq!(todo.list(), vec!["1. a".to_string()]);
}

#[test]
fn done_out_of_range_changes_nothing() {
    let mut todo = filled("done_out_of_range_changes_nothing", vec!["a", "b", "c"]);
    assert!(matches!(todo.done(vec![0]), Err(TodoAppError::IncorrectIndex(0))));
    assert!(matches!(todo.done(vec![4]), Err(TodoAppError::IncorrectIndex(4))));
    assert!(matches!(todo.done(vec![1, 7, 9]), Err(TodoAppError::IncorrectIndex(7))));
    assert!(todo.tasks().iter().all(|t| !t.done));
    let again = open("done_out_of_range_changes_nothing");
    assert!(again.tasks().iter().all(|t| !t.done));
}

#[test]
fn edit_out_of_range_changes_nothing() {
    let mut todo = filled("edit_out_of_range_changes_nothing", vec!["a", "b", "c"]);
    assert!(matches!(todo.edit(0, "x".to_string()), Err(TodoAppError::IncorrectIndex(0))));
    assert!(matches!(todo.edit(4, "x".to_string()), Err(TodoAppError::IncorrectIndex(4))));
    assert_eq!(todo.list(), vec!["1. a".to_string(), "2. b".to_string(), "3. c".to_string()]);
}

#[test]
fn remove_ignores_unknown_indexes() {
    let mut todo = filled("remove_ignores_unknown_indexes", vec!["a", "b", "c"]);
    todo.remove(vec![0, 3, 9]).unwrap();
    assert_eq!(todo.list(), vec!["1. a".to_string(), "2. b".to_string()]);
}

#[test]
fn reload_after_remove_is_dense() {
    let mut todo = filled("reload_after_remove_is_dense", vec!["a", "b", "c", "d", "e"]);
    todo.done(vec![4]).unwrap();
    todo.remove(vec![1, 3]).unwrap();
    let again = open("reload_after_remove_is_dense");
    assert_eq!(
        texts(&again),
        vec![(1, "b".to_string(), false), (2, "d".to_string(), true), (3, "e".to_string(), false)]
    );
}

#[test]
fn done_stays_done() {
    let mut todo = filled("done_stays_done", vec!["a", "b"]);
    todo.done(vec![1]).unwrap();
    todo.done(vec![1, 2]).unwrap();
    todo.edit(1, "z".to_string()).unwrap();
    todo.add(vec!["c"]).unwrap();
    assert_eq!(
        texts(&todo),
        vec![(1, "z".to_string(), true), (2, "b".to_string(), true), (3, "c".to_string(), false)]
    );
}

#[test]
fn blank_only_add_succeeds_and_keeps_list() {
    let mut todo = filled("blank_only_add_succeeds_and_keeps_list", vec!["a"]);
    todo.add(vec!["", "   ", "\t"]).unwrap();
    assert_eq!(todo.list(), vec!["1. a".to_string()]);
    let again = open("blank_only_add_succeeds_and_keeps_list");
    assert_eq!(texts(&again), vec![(1, "a".to_string(), false)]);
}

#[test]
fn edit_and_done_survive_reload() {
    let mut todo = filled("edit_and_done_survive_reload", vec!["a", "b", "c"]);
    todo.edit(3, "z".to_string()).unwrap();
    todo.done(vec![3, 1]).unwrap();
    let again = open("edit_and_done_survive_reload");
    assert_eq!(
        texts(&again),
        vec![(1, "a".to_string(), true), (2, "b".to_string(), false), (3, "z".to_string(), true)]
    );
}

#[test]
fn render_line_values() {
    assert_eq!(render_line(1, "buy milk"), "1. buy milk");
    assert_eq!(render_line(42, ""), "42. ");
    assert_eq!(decimal_string(0), "0");
    assert_eq!(decimal_string(10), "10");
    assert_eq!(decimal_string(9876543210), "9876543210");
}

#[test]
fn blank_text_detection() {
    assert!(is_blank_text(""));
    assert!(is_blank_text(" \t\n\u{a0}\u{3000}"));
    assert!(!is_blank_text(" a "));
    assert!(!is_blank_text("x"));
}

#[test]
fn rows_must_be_dense() {
    let ok = tasks_from_rows(vec![(1, "a".to_string(), false), (2, "b".to_string(), true)]).unwrap();
    assert_eq!(ok.len(), 2);
    assert_eq!(ok[1].id, 2);
    assert_eq!(ok[1].name, "b");
    assert!(ok[1].done);
    assert!(matches!(
        tasks_from_rows(vec![(1, "a".to_string(), false), (3, "b".to_string(), false)]),
        Err(TodoAppError::CorruptFormat)
    ));
    assert!(matches!(tasks_from_rows(vec![(0, "a".to_string(), false)]), Err(TodoAppError::CorruptFormat)));
    assert!(tasks_from_rows(vec![]).unwrap().is_empty());
}
