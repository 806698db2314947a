use todo_backend::store::{CreateTodo, StoreError, TaskStore, TodoItem, UpdateTodo};

fn create(store: &mut TaskStore, title: &str) -> TodoItem {
    store
        .create(CreateTodo { title: title.to_string() })
        .expect("identifier allocation failed")
}

#[test]
fn new_store_is_empty() {
    let store = TaskStore::new();
    assert_eq!(store.list().len(), 0);
}

#[test]
fn create_then_list_shows_single_task() {
    let mut store = TaskStore::new();
    let t = create(&mut store, "buy milk");
    assert_eq!(t.title, "buy milk");
    assert!(!t.completed);
    let all = store.list();
    assert_eq!(all.len(), 1);
    assert_eq!(all[0].id, t.id);
    assert_eq!(all[0].title, "buy milk");
    assert!(!all[0].completed);
}

#[test]
fn created_ids_are_distinct() {
    let mut store = TaskStore::new();
    let mut ids: Vec<u128> = Vec::new();
    for k in 0..32 {
        let t = create(&mut store, &format!("task {k}"));
        assert!(!ids.contains(&t.id));
        ids.push(t.id);
    }
    assert_eq!(store.list().len(), 32);
}

#[test]
fn update_completed_keeps_title() {
    let mut store = TaskStore::new();
    let t = create(&mut store, "water plants");
    let updated = store
        .update(t.id, UpdateTodo { title: None, completed: Some(true) })
        .expect("task should exist");
    assert_eq!(updated.id, t.id);
    assert_eq!(updated.title, "water plants");
    assert!(updated.completed);
    let all = store.list();
    assert_eq!(all.len(), 1);
    assert_eq!(all[0].title, "water plants");
    assert!(all[0].completed);
}

#[test]
fn update_title_keeps_completed() {
    let mut store = TaskStore::new();
    let t = create(&mut store, "old title");
    store
        .update(t.id, UpdateTodo { title: None, completed: Some(true) })
        .expect("task should exist");
    let updated = store
        .update(t.id, UpdateTodo { title: Some("new title".to_string()), completed: None })
        .expect("task should exist");
    assert_eq!(updated.title, "new title");
    assert!(updated.completed);
}

#[test]
fn update_unknown_id_signals_not_found() {
    let mut store = TaskStore::new();
    let t = create(&mut store, "keep me");
    let missing = t.id.wrapping_add(1);
    let r = store.update(missing, UpdateTodo { title: None, completed: Some(true) });
    assert_eq!(r.unwrap_err(), StoreError::NotFound);
    let all = store.list();
    assert_eq!(all.len(), 1);
    assert_eq!(all[0].title, "keep me");
    assert!(!all[0].completed);
}

#[test]
fn delete_unknown_id_signals_not_found() {
    let mut store = TaskStore::new();
    let t = create(&mut store, "keep me");
    let missing = t.id.wrapping_add(1);
    let r = store.delete(missing);
    assert_eq!(r.unwrap_err(), StoreError::NotFound);
    assert_eq!(store.list().len(), 1);
}

#[test]
fn delete_removes_task_and_second_delete_fails() {
    let mut store = TaskStore::new();
    let a = create(&mut store, "first");
    let b = create(&mut store, "second");
    store.delete(a.id).expect("task should exist");
    let all = store.list();
    assert_eq!(all.len(), 1);
    assert!(all.iter().all(|t| t.id != a.id));
    assert_eq!(all[0].id, b.id);
    assert_eq!(store.delete(a.id).unwrap_err(), StoreError::NotFound);
}

#[test]
fn list_keeps_insertion_order() {
    let mut store = TaskStore::new();
    create(&mut store, "one");
    create(&mut store, "two");
    create(&mut store, "three");
    let titles: Vec<String> = store.list().into_iter().map(|t| t.title).collect();
    assert_eq!(titles, vec!["one".to_string(), "two".to_string(), "three".to_string()]);
}

#[test]
fn crud_roundtrip_scenario() {
    let mut store = TaskStore::new();
    let created = create(&mut store, "buy milk");
    assert_eq!(created.title, "buy milk");
    assert!(!created.completed);
    let updated = store
        .update(created.id, UpdateTodo { title: None, completed: Some(true) })
        .expect("task should exist");
    assert_eq!(updated.id, created.id);
    assert_eq!(updated.title, "buy milk");
    assert!(updated.completed);
    store.delete(created.id).expect("task should exist");
    assert!(store.list().is_empty());
}
