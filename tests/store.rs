use todo_store::bridge::{is_valid_seed, restore, seed_from};
use todo_store::store::TaskStore;
use todo_store::task::Task;

fn task(id: u64, title: &str, completed: bool) -> Task {
    Task { id, title: title.to_string(), completed }
}

#[test]
fn new_task_is_open() {
    let t = Task::new(4, "Read");
    assert_eq!(t, task(4, "Read", false));
    assert_eq!(t.clone(), t);
}

#[test]
fn scenario_buy_milk_walk_dog() {
    let mut store = TaskStore::new();
    let snap = store.add("Buy milk");
    assert_eq!(snap, vec![task(0, "Buy milk", false)]);
    assert_eq!(store.counts(), (1, 0));

    let snap = store.add("");
    assert_eq!(snap, vec![task(0, "Buy milk", false)]);

    let snap = store.toggle(0);
    assert_eq!(snap, vec![task(0, "Buy milk", true)]);
    assert_eq!(store.counts(), (1, 1));

    let snap = store.add("Walk dog");
    assert_eq!(snap, vec![task(0, "Buy milk", true), task(1, "Walk dog", false)]);
    assert_eq!(store.counts(), (2, 1));

    let snap = store.purge_completed();
    assert_eq!(snap, vec![task(1, "Walk dog", false)]);
    assert_eq!(store.counts(), (1, 0));
    assert_eq!(store.snapshot(), snap);
}

#[test]
fn add_trims_title() {
    let mut store = TaskStore::new();
    let snap = store.add("  Call mum \n");
    assert_eq!(snap, vec![task(0, "Call mum", false)]);
}

#[test]
fn add_rejects_blank_title() {
    let mut store = TaskStore::new();
    assert_eq!(store.add("   \t\n"), vec![]);
    assert_eq!(store.add("\u{3000}\u{a0}"), vec![]);
    assert_eq!(store.add("x"), vec![task(0, "x", false)]);
}

#[test]
fn ids_are_distinct_and_increasing() {
    let mut store = TaskStore::new();
    store.add("a");
    store.add("b");
    store.toggle(0);
    store.toggle(1);
    store.purge_completed();
    let snap = store.add("c");
    assert_eq!(snap, vec![task(2, "c", false)]);
    let snap = store.add("d");
    assert_eq!(snap, vec![task(2, "c", false), task(3, "d", false)]);
}

#[test]
fn toggle_twice_restores() {
    let mut store = TaskStore::new();
    store.add("a");
    store.add("b");
    store.add("c");
    let before = store.snapshot();
    let once = store.toggle(1);
    assert_eq!(once, vec![task(0, "a", false), task(1, "b", true), task(2, "c", false)]);
    let twice = store.toggle(1);
    assert_eq!(twice, before);
}

#[test]
fn toggle_unknown_id_is_no_op() {
    let mut store = TaskStore::new();
    store.add("a");
    assert_eq!(store.toggle(7), vec![task(0, "a", false)]);
}

#[test]
fn purge_keeps_open_tasks_in_order() {
    let mut store = TaskStore::initialize(vec![
        task(0, "a", true),
        task(1, "b", false),
        task(2, "c", true),
        task(3, "d", false),
        task(4, "e", true),
    ]);
    assert_eq!(store.counts(), (5, 3));
    let snap = store.purge_completed();
    assert_eq!(snap, vec![task(1, "b", false), task(3, "d", false)]);
    assert_eq!(store.counts(), (2, 0));
}

#[test]
fn purge_of_empty_store() {
    let mut store = TaskStore::new();
    assert_eq!(store.purge_completed(), vec![]);
    assert_eq!(store.counts(), (0, 0));
}

#[test]
fn initialize_continues_after_largest_id() {
    let mut store = TaskStore::initialize(vec![task(5, "a", false), task(2, "b", true)]);
    let snap = store.add("c");
    assert_eq!(snap, vec![task(5, "a", false), task(2, "b", true), task(6, "c", false)]);
}

#[test]
fn initialize_empty_starts_at_zero() {
    let mut store = TaskStore::initialize(vec![]);
    assert_eq!(store.add("a"), vec![task(0, "a", false)]);
}

#[test]
fn counter_at_its_limit_adds_nothing() {
    let mut store = TaskStore::initialize(vec![task(u64::MAX - 1, "a", false)]);
    assert_eq!(store.add("b"), vec![task(u64::MAX - 1, "a", false)]);
}

#[test]
fn seed_checks() {
    assert!(is_valid_seed(&vec![]));
    assert!(is_valid_seed(&vec![task(0, "a", false), task(3, "b", true)]));
    assert!(!is_valid_seed(&vec![task(1, "a", false), task(1, "b", true)]));
    assert!(!is_valid_seed(&vec![task(1, "", false)]));
    assert!(!is_valid_seed(&vec![task(u64::MAX, "a", false)]));
}

#[test]
fn seed_from_drops_unusable_data() {
    assert_eq!(seed_from(None), vec![]);
    assert_eq!(seed_from(Some(vec![task(1, "a", false), task(1, "b", false)])), vec![]);
    let good = vec![task(1, "a", false), task(0, "b", true)];
    assert_eq!(seed_from(Some(good.clone())), good);
}

#[test]
fn restore_missing_or_corrupt_gives_empty_store() {
    let mut store = restore(None);
    assert_eq!(store.snapshot(), vec![]);
    assert_eq!(store.add("a"), vec![task(0, "a", false)]);

    let mut store = restore(Some(vec![task(2, "x", false), task(2, "y", false)]));
    assert_eq!(store.snapshot(), vec![]);
    assert_eq!(store.add("a"), vec![task(0, "a", false)]);
}

#[test]
fn restore_keeps_saved_tasks() {
    let saved = vec![task(0, "a", true), task(3, "b", false)];
    let mut store = restore(Some(saved.clone()));
    assert_eq!(store.snapshot(), saved);
    assert_eq!(store.counts(), (2, 1));
    assert_eq!(
        store.add("c"),
        vec![task(0, "a", true), task(3, "b", false), task(4, "c", false)]
    );
}
