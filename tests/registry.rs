use lazy_git_checkout::registry::{Project, StoreError, DB};
use lazy_git_checkout::resolve::get_project_from_path;
use lazy_git_checkout::store::{
    add_branch, add_project, get_branches, remove_branch, remove_project, set_branches,
};

fn names(p: &Project) -> Vec<String> {
    p.branches.iter().map(|b| b.name.clone()).collect()
}

fn paths(db: &DB) -> Vec<String> {
    db.projects.iter().map(|p| p.path.clone()).collect()
}

fn sample() -> DB {
    let mut db = DB::new();
    add_project(&mut db, "/home/user/alpha");
    add_project(&mut db, "/home/user/beta");
    add_branch(&mut db, "/home/user/alpha", "main".to_string()).unwrap();
    add_branch(&mut db, "/home/user/alpha", "feature/x".to_string()).unwrap();
    add_branch(&mut db, "/home/user/alpha", "develop".to_string()).unwrap();
    add_branch(&mut db, "/home/user/beta", "master".to_string()).unwrap();
    db
}

#[test]
fn writes_headers_then_branches() {
    let db = sample();
    assert_eq!(
        db.disk_contents(),
        ";;;;/home/user/alpha\nmain\nfeature/x\ndevelop\n;;;;/home/user/beta\nmaster\n"
    );
}

#[test]
fn save_then_load_keeps_order() {
    let db = sample();
    let loaded = DB::load_from_disk(&db.disk_contents()).unwrap();
    assert_eq!(paths(&loaded), vec!["/home/user/alpha", "/home/user/beta"]);
    assert_eq!(names(&loaded.projects[0]), vec!["main", "feature/x", "develop"]);
    assert_eq!(names(&loaded.projects[1]), vec!["master"]);
    assert_eq!(loaded.disk_contents(), db.disk_contents());
}

#[test]
fn round_trip_of_projects_without_branches() {
    let mut db = DB::new();
    add_project(&mut db, "/p");
    add_project(&mut db, "/q");
    let loaded = DB::load_from_disk(&db.disk_contents()).unwrap();
    assert_eq!(paths(&loaded), vec!["/p", "/q"]);
    assert!(loaded.projects.iter().all(|p| p.branches.is_empty()));
}

#[test]
fn round_trip_of_empty_registry() {
    let db = DB::new();
    assert_eq!(db.disk_contents(), "");
    let loaded = DB::load_from_disk(&db.disk_contents()).unwrap();
    assert!(loaded.projects.is_empty());
}

#[test]
fn empty_contents_load_as_empty_registry() {
    let db = DB::load_from_disk("").unwrap();
    assert_eq!(db.projects.len(), 0);
}

#[test]
fn branch_before_header_is_malformed() {
    assert_eq!(
        DB::load_from_disk("main\n;;;;/a\n").err(),
        Some(StoreError::MalformedStore)
    );
}

#[test]
fn crlf_line_endings_are_read() {
    let db = DB::load_from_disk(";;;;/a\r\nmain\r\ndev").unwrap();
    assert_eq!(paths(&db), vec!["/a"]);
    assert_eq!(names(&db.projects[0]), vec!["main", "dev"]);
}

#[test]
fn branches_belong_to_the_latest_header() {
    let db = DB::load_from_disk(";;;;/a\nx\n;;;;/b\ny\nz\n").unwrap();
    assert_eq!(names(&db.projects[0]), vec!["x"]);
    assert_eq!(names(&db.projects[1]), vec!["y", "z"]);
}

#[test]
fn header_strips_the_token_once() {
    let db = DB::load_from_disk(";;;;;;;;/odd\n").unwrap();
    assert_eq!(paths(&db), vec![";;;;/odd"]);
}

#[test]
fn add_project_keeps_paths_unique() {
    let mut db = sample();
    add_project(&mut db, "/home/user/alpha");
    assert_eq!(paths(&db), vec!["/home/user/alpha", "/home/user/beta"]);
    assert_eq!(names(&db.projects[0]).len(), 3);
}

#[test]
fn remove_project_drops_it() {
    let mut db = sample();
    remove_project(&mut db, "/home/user/alpha");
    assert_eq!(paths(&db), vec!["/home/user/beta"]);
    remove_project(&mut db, "/nowhere");
    assert_eq!(paths(&db), vec!["/home/user/beta"]);
}

#[test]
fn add_branch_to_unknown_project_is_not_found() {
    let mut db = sample();
    assert_eq!(
        add_branch(&mut db, "/nowhere", "main".to_string()),
        Err(StoreError::NotFound)
    );
    assert_eq!(db.disk_contents(), sample().disk_contents());
}

#[test]
fn add_branch_twice_keeps_one() {
    let mut db = sample();
    add_branch(&mut db, "/home/user/beta", "master".to_string()).unwrap();
    assert_eq!(names(&db.projects[1]), vec!["master"]);
}

#[test]
fn remove_branch_keeps_the_rest_in_order() {
    let mut db = sample();
    remove_branch(&mut db, "/home/user/alpha", "feature/x".to_string()).unwrap();
    assert_eq!(names(&db.projects[0]), vec!["main", "develop"]);
    assert_eq!(
        remove_branch(&mut db, "/nowhere", "main".to_string()),
        Err(StoreError::NotFound)
    );
}

#[test]
fn get_branches_in_order() {
    let db = sample();
    let bs = get_branches(&db, "/home/user/alpha").unwrap();
    let got: Vec<String> = bs.iter().map(|b| b.name.clone()).collect();
    assert_eq!(got, vec!["main", "feature/x", "develop"]);
    assert!(matches!(get_branches(&db, "/x"), Err(StoreError::NotFound)));
}

#[test]
fn set_branches_replaces_the_order() {
    let mut db = sample();
    set_branches(&mut db, "/home/user/alpha", vec!["develop", "main"]).unwrap();
    let loaded = DB::load_from_disk(&db.disk_contents()).unwrap();
    assert_eq!(names(&loaded.projects[0]), vec!["develop", "main"]);
    assert_eq!(
        set_branches(&mut db, "/x", vec!["a"]),
        Err(StoreError::NotFound)
    );
}

#[test]
fn resolves_a_subdirectory_to_its_project() {
    let mut db = DB::new();
    add_project(&mut db, "/a/b");
    let p = get_project_from_path(&db, "/a/b/c/d").unwrap();
    assert_eq!(p.path, "/a/b");
    let q = get_project_from_path(&db, "/a/b").unwrap();
    assert_eq!(q.path, "/a/b");
}

#[test]
fn unrelated_path_is_not_found() {
    let mut db = DB::new();
    add_project(&mut db, "/a/b");
    assert!(matches!(
        get_project_from_path(&db, "/x/y"),
        Err(StoreError::NotFound)
    ));
}

#[test]
fn sibling_with_common_prefix_is_not_found() {
    let mut db = DB::new();
    add_project(&mut db, "/home/user/proj");
    assert!(matches!(
        get_project_from_path(&db, "/home/user/proj2"),
        Err(StoreError::NotFound)
    ));
}

#[test]
fn first_registered_owner_wins() {
    let mut db = DB::new();
    add_project(&mut db, "/a");
    add_branch(&mut db, "/a", "one".to_string()).unwrap();
    add_project(&mut db, "/a/b");
    let p = get_project_from_path(&db, "/a/b/c").unwrap();
    assert_eq!(p.path, "/a");
    assert_eq!(names(&p), vec!["one"]);
}
