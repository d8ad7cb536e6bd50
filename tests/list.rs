use lazy_git_checkout::list::StatefulList;
use lazy_git_checkout::registry::DB;
use lazy_git_checkout::store::{add_project, get_branches, set_branches};

fn letters() -> StatefulList<String> {
    StatefulList::with_items(vec!["a".to_string(), "b".to_string(), "c".to_string()])
}

#[test]
fn next_and_previous_wrap() {
    let mut l = letters();
    assert_eq!(l.selected(), None);
    l.next();
    assert_eq!(l.selected(), Some(0));
    l.next();
    l.next();
    assert_eq!(l.selected(), Some(2));
    l.next();
    assert_eq!(l.selected(), Some(0));
    l.previous();
    assert_eq!(l.selected(), Some(2));
    let mut empty: StatefulList<String> = StatefulList::with_items(Vec::new());
    empty.next();
    empty.previous();
    assert_eq!(empty.selected(), None);
}

#[test]
fn swap_down_moves_selected_item() {
    let mut l = letters();
    l.select(Some(0));
    l.swap_down();
    assert_eq!(l.items(), &vec!["b", "a", "c"]);
    assert_eq!(l.selected(), Some(1));
    l.select(Some(2));
    l.swap_down();
    assert_eq!(l.items(), &vec!["c", "b", "a"]);
    assert_eq!(l.selected(), Some(0));
}

#[test]
fn swap_up_moves_selected_item() {
    let mut l = letters();
    l.select(Some(1));
    l.swap_up();
    assert_eq!(l.items(), &vec!["b", "a", "c"]);
    assert_eq!(l.selected(), Some(0));
    l.swap_up();
    assert_eq!(l.items(), &vec!["a", "c", "b"]);
    assert_eq!(l.selected(), Some(2));
}

#[test]
fn swap_up_then_down_restores() {
    for i in 0..3 {
        let mut l = letters();
        l.select(Some(i));
        l.swap_up();
        l.swap_down();
        assert_eq!(l.items(), &vec!["a", "b", "c"]);
        assert_eq!(l.selected(), Some(i));
    }
}

#[test]
fn swap_without_selection_changes_nothing() {
    let mut l = letters();
    l.swap_down();
    l.swap_up();
    assert_eq!(l.items(), &vec!["a", "b", "c"]);
    l.select(Some(7));
    l.swap_down();
    assert_eq!(l.items(), &vec!["a", "b", "c"]);
}

#[test]
fn set_items_selects_first() {
    let mut l = letters();
    l.set_items(vec!["x".to_string()]);
    assert_eq!(l.selected(), Some(0));
    assert_eq!(l.items(), &vec!["x"]);
}

#[test]
fn reorder_is_persisted() {
    let mut db = DB::new();
    add_project(&mut db, "/p");
    let mut l = letters();
    l.select(Some(1));
    l.swap_down();
    let order: Vec<&str> = l.items().iter().map(|s| s.as_str()).collect();
    set_branches(&mut db, "/p", order).unwrap();
    let loaded = DB::load_from_disk(&db.disk_contents()).unwrap();
    let names: Vec<String> = get_branches(&loaded, "/p")
        .unwrap()
        .iter()
        .map(|b| b.name.clone())
        .collect();
    assert_eq!(names, vec!["a", "c", "b"]);
}
