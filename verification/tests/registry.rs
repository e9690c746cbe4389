//! The registry over the modelled tree: listing, creating from a
//! template, and deleting.

use databases::db::DB;
use databases::db::DbError;
use databases::db::create_db;
use databases::db::delete_db;
use databases::db::get_existing_dbs;
use databases::db::get_running_dbs;
use databases::fstree::FsNode;

fn mongo_template() -> FsNode {
    let mut t = FsNode::new_dir();
    t.set_child("init.js".to_string(), FsNode::new_file("db.createUser();\n".to_string()));
    t
}

fn root_with_templates() -> FsNode {
    let mut root = FsNode::new_dir();
    root.set_child("mongo".to_string(), mongo_template());
    root.set_child("postgres".to_string(), FsNode::new_dir());
    root.set_child("sqlite3".to_string(), FsNode::new_dir());
    root
}

fn file_content<'a>(root: &'a FsNode, path: &[&str]) -> &'a String {
    let mut node = root;
    for name in path {
        node = node.child(&name.to_string()).expect("path component missing");
    }
    node.file_content().expect("expected a file")
}

#[test]
fn create_copies_template_byte_identical() {
    let mut root = root_with_templates();
    create_db(&mut root, "m1".to_string(), DB::MONGO).unwrap();
    let copied = file_content(&root, &["existing_dbs", "m1", "init.js"]);
    let original = file_content(&root, &["mongo", "init.js"]);
    assert_eq!(copied, original);
    assert_eq!(copied.as_bytes(), "db.createUser();\n".as_bytes());
}

#[test]
fn create_twice_fails_with_already_exists_and_changes_nothing() {
    let mut root = root_with_templates();
    create_db(&mut root, "m1".to_string(), DB::MONGO).unwrap();
    let before = {
        let mut l = get_existing_dbs(&root).unwrap();
        l.sort();
        l
    };
    let r = create_db(&mut root, "m1".to_string(), DB::POSTGRES);
    assert_eq!(r, Err(DbError::AlreadyExists));
    let after = {
        let mut l = get_existing_dbs(&root).unwrap();
        l.sort();
        l
    };
    assert_eq!(before, after);
    // the instance still holds the mongo template's file, untouched
    let copied = file_content(&root, &["existing_dbs", "m1", "init.js"]);
    assert_eq!(copied, "db.createUser();\n");
}

#[test]
fn create_makes_existing_dbs_when_absent() {
    let mut root = root_with_templates();
    assert_eq!(get_existing_dbs(&root), Err(DbError::NotFound));
    create_db(&mut root, "p1".to_string(), DB::POSTGRES).unwrap();
    assert_eq!(get_existing_dbs(&root).unwrap(), vec!["p1"]);
}

#[test]
fn create_without_template_fails() {
    let mut root = FsNode::new_dir();
    let r = create_db(&mut root, "m1".to_string(), DB::MONGO);
    assert_eq!(r, Err(DbError::NotFound));
    assert_eq!(get_existing_dbs(&root), Err(DbError::NotFound));
}

#[test]
fn create_over_existing_dbs_file_fails() {
    let mut root = root_with_templates();
    root.set_child("existing_dbs".to_string(), FsNode::new_file(String::new()));
    let r = create_db(&mut root, "m1".to_string(), DB::MONGO);
    assert_eq!(r, Err(DbError::NotADirectory));
}

#[test]
fn listing_skips_plain_files() {
    let mut root = FsNode::new_dir();
    let mut eds = FsNode::new_dir();
    eds.set_child("d1".to_string(), FsNode::new_dir());
    eds.set_child("stray.txt".to_string(), FsNode::new_file("x".to_string()));
    eds.set_child("d2".to_string(), FsNode::new_dir());
    root.set_child("existing_dbs".to_string(), eds);
    let mut names = get_existing_dbs(&root).unwrap();
    names.sort();
    assert_eq!(names, vec!["d1", "d2"]);
}

#[test]
fn running_is_subset_of_existing() {
    let mut root = FsNode::new_dir();
    let mut eds = FsNode::new_dir();
    eds.set_child("m1".to_string(), FsNode::new_dir());
    eds.set_child("m2".to_string(), FsNode::new_dir());
    root.set_child("existing_dbs".to_string(), eds);
    // m1 appears at the end of a line, m2 nowhere, m9 is not an instance
    let ps = vec![
        "CONTAINER ID  IMAGE  NAME".to_string(),
        "4f1e mongo:4 m1".to_string(),
        "77aa postgres:13 m9".to_string(),
    ];
    let running = get_running_dbs(&root, &ps).unwrap();
    assert_eq!(running, vec!["m1"]);
    let existing = get_existing_dbs(&root).unwrap();
    assert!(running.iter().all(|n| existing.contains(n)));
}

#[test]
fn running_match_is_a_loose_suffix_match() {
    let mut root = FsNode::new_dir();
    let mut eds = FsNode::new_dir();
    eds.set_child("m1".to_string(), FsNode::new_dir());
    root.set_child("existing_dbs".to_string(), eds);
    // the line ends with "m1" without naming that instance: still a match
    assert_eq!(get_running_dbs(&root, &vec!["0abc image team1".to_string()]).unwrap(), vec![
        "m1"
    ]);
    // "m1" in the middle of a line is no match
    assert_eq!(
        get_running_dbs(&root, &vec!["0abc m1 exited".to_string()]).unwrap(),
        Vec::<String>::new()
    );
    // no output, nothing running
    assert_eq!(get_running_dbs(&root, &Vec::new()).unwrap(), Vec::<String>::new());
}

#[test]
fn delete_removes_directory_without_any_container() {
    // an instance whose container never ran: deletion must still
    // remove the directory tree — container stops are not awaited and
    // cannot block it
    let mut root = root_with_templates();
    create_db(&mut root, "m1".to_string(), DB::MONGO).unwrap();
    delete_db(&mut root, &"m1".to_string()).unwrap();
    assert_eq!(get_existing_dbs(&root).unwrap(), Vec::<String>::new());
}

#[test]
fn delete_missing_instance_fails() {
    let mut root = root_with_templates();
    create_db(&mut root, "m1".to_string(), DB::MONGO).unwrap();
    assert_eq!(delete_db(&mut root, &"zzz".to_string()), Err(DbError::NotFound));
    assert_eq!(get_existing_dbs(&root).unwrap(), vec!["m1"]);
}

#[test]
fn running_match_handles_multibyte_names() {
    let mut root = FsNode::new_dir();
    let mut eds = FsNode::new_dir();
    eds.set_child("mö1".to_string(), FsNode::new_dir());
    root.set_child("existing_dbs".to_string(), eds);
    assert_eq!(get_running_dbs(&root, &vec!["0abc image mö1".to_string()]).unwrap(), vec![
        "mö1"
    ]);
    assert_eq!(
        get_running_dbs(&root, &vec!["0abc image mo1".to_string()]).unwrap(),
        Vec::<String>::new()
    );
}

#[test]
fn error_messages_exact() {
    assert_eq!(DbError::AlreadyExists.message(), "DB already exists");
    assert_eq!(DbError::NotFound.message(), "No such file or directory");
    assert_eq!(DbError::NotADirectory.message(), "Not a directory");
}
