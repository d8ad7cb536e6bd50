use lazy_git_checkout::registry::{StoreError, DB};
use lazy_git_checkout::store::{add_branch, add_project, get_branches};
use lazy_git_checkout::widgets::{
    AddBranchWidget, ChangeBranchesWidget, ChangeBranchesWidgetMode, ExitContextResult,
    WidgetError,
};

fn strings(words: &[&str]) -> Vec<String> {
    words.iter().map(|w| w.to_string()).collect()
}

fn saved(db: &DB, path: &str) -> Vec<String> {
    get_branches(db, path)
        .unwrap()
        .iter()
        .map(|b| b.name.clone())
        .collect()
}

fn project_db() -> DB {
    let mut db = DB::new();
    add_project(&mut db, "/p");
    for b in ["main", "dev", "feature"] {
        add_branch(&mut db, "/p", b.to_string()).unwrap();
    }
    db
}

fn change_widget() -> ChangeBranchesWidget {
    ChangeBranchesWidget::new("/p".to_string(), strings(&["main", "dev", "feature"]), "main".to_string())
}

#[test]
fn completions_follow_typed_prefix() {
    let mut w = AddBranchWidget::new("/p".to_string(), strings(&["main", "maint", "dev"]));
    assert_eq!(w.autocomplete().items(), &strings(&["main", "maint", "dev"]));
    w.input_char('m');
    w.input_char('a');
    assert_eq!(w.input(), "ma");
    assert_eq!(w.autocomplete().items(), &strings(&["main", "maint"]));
    assert_eq!(w.autocomplete().selected(), None);
    w.input_char('x');
    assert!(w.autocomplete().items().is_empty());
    w.remove_char();
    assert_eq!(w.autocomplete().items(), &strings(&["main", "maint"]));
}

#[test]
fn remove_char_on_empty_input_keeps_it_empty() {
    let mut w = AddBranchWidget::new("/p".to_string(), strings(&["a"]));
    w.remove_char();
    assert_eq!(w.input(), "");
    assert_eq!(w.autocomplete().items(), &strings(&["a"]));
}

#[test]
fn branch_name_is_selection_or_typed_text() {
    let mut w = AddBranchWidget::new("/p".to_string(), strings(&["main", "dev"]));
    w.input_char('d');
    assert_eq!(w.get_branch_name(), "d");
    w.next();
    assert_eq!(w.get_branch_name(), "dev");
}

#[test]
fn exit_context_drops_selection_then_leaves() {
    let mut w = AddBranchWidget::new("/p".to_string(), strings(&["main", "dev"]));
    w.input_char('m');
    w.next();
    assert_eq!(w.exit_context(), ExitContextResult::Continue);
    assert_eq!(w.input(), "m");
    assert_eq!(w.autocomplete().selected(), None);
    assert_eq!(w.exit_context(), ExitContextResult::Exit);
    assert_eq!(w.input(), "");
    assert_eq!(w.autocomplete().items(), &strings(&["main", "dev"]));
}

#[test]
fn add_branch_stores_the_name() {
    let mut db = project_db();
    let mut w = AddBranchWidget::new("/p".to_string(), strings(&["main", "release"]));
    w.input_char('r');
    w.next();
    w.add_branch(&mut db).unwrap();
    assert_eq!(saved(&db, "/p"), strings(&["main", "dev", "feature", "release"]));
}

#[test]
fn add_branch_with_empty_name_changes_nothing() {
    let mut db = project_db();
    let w = AddBranchWidget::new("/p".to_string(), strings(&["main"]));
    w.add_branch(&mut db).unwrap();
    assert_eq!(saved(&db, "/p"), strings(&["main", "dev", "feature"]));
    let other = AddBranchWidget::new("/elsewhere".to_string(), strings(&["main"]));
    let mut o = other;
    o.input_char('x');
    assert_eq!(o.add_branch(&mut db), Err(StoreError::NotFound));
}

#[test]
fn search_selects_first_match() {
    let mut w = change_widget();
    w.input_char('f');
    assert_eq!(w.saved_branches().selected(), None);
    assert_eq!(w.input(), "");
    w.mode = ChangeBranchesWidgetMode::Search;
    w.input_char('d');
    assert_eq!(w.saved_branches().selected(), Some(1));
    w.input_char('x');
    assert_eq!(w.saved_branches().selected(), None);
    w.remove_char();
    assert_eq!(w.input(), "d");
    w.clear_input();
    assert_eq!(w.input(), "");
}

#[test]
fn checkout_selected_skips_current_branch() {
    let mut w = change_widget();
    assert_eq!(w.checkout_selected(), Err(WidgetError::NoBranchSelected));
    w.next();
    assert_eq!(w.checkout_selected(), Ok(None));
    w.next();
    assert_eq!(w.checkout_selected(), Ok(Some("dev".to_string())));
}

#[test]
fn swap_persists_new_order() {
    let mut db = project_db();
    let mut w = change_widget();
    w.next();
    w.swap_down(&mut db).unwrap();
    assert_eq!(saved(&db, "/p"), strings(&["dev", "main", "feature"]));
    w.swap_up(&mut db).unwrap();
    assert_eq!(saved(&db, "/p"), strings(&["main", "dev", "feature"]));
    assert_eq!(w.saved_branches().selected(), Some(0));
}

#[test]
fn remove_selected_updates_store_and_list() {
    let mut db = project_db();
    let mut w = change_widget();
    assert_eq!(w.remove_selected(&mut db), Err(WidgetError::NoBranchSelected));
    w.next();
    w.next();
    w.remove_selected(&mut db).unwrap();
    assert_eq!(saved(&db, "/p"), strings(&["main", "feature"]));
    assert_eq!(w.saved_branches().items(), &strings(&["main", "feature"]));
    assert_eq!(w.saved_branches().selected(), None);
}

#[test]
fn reload_of_unknown_project_is_not_found() {
    let db = DB::new();
    let mut w = change_widget();
    assert_eq!(w.reload_saved_branches(&db), Err(StoreError::NotFound));
    assert_eq!(w.saved_branches().items().len(), 3);
}
