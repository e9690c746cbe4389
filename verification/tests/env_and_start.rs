//! The `.env` configuration step and the start decision.

use databases::db::DB;
use databases::db::DbError;
use databases::db::StartPlan;
use databases::db::create_db;
use databases::db::create_env_file;
use databases::db::env_file_content;
use databases::db::plan_start;
use databases::db::sqlite3_outcome;
use databases::fstree::FsNode;

fn root_with_mongo_template(template_has_env: bool) -> FsNode {
    let mut t = FsNode::new_dir();
    t.set_child("docker-compose.yml".to_string(), FsNode::new_file("services:\n".to_string()));
    if template_has_env {
        t.set_child(".env".to_string(), FsNode::new_file("DB_NAME = template".to_string()));
    }
    let mut root = FsNode::new_dir();
    root.set_child("mongo".to_string(), t);
    root
}

fn file_content<'a>(root: &'a FsNode, path: &[&str]) -> &'a String {
    let mut node = root;
    for name in path {
        node = node.child(&name.to_string()).expect("path component missing");
    }
    node.file_content().expect("expected a file")
}

#[test]
fn env_content_is_the_fixed_four_line_format() {
    let content = env_file_content(
        &"foo".to_string(),
        &"u".to_string(),
        &"p".to_string(),
        &"1234".to_string(),
    );
    assert_eq!(content, "DB_NAME = foo\nDB_USER = u\nDB_PASSWORD = p\nDB_PORT = 1234");
    assert_eq!(content.lines().count(), 4);
}

#[test]
fn env_write_round_trip_with_prior_file() {
    let mut root = root_with_mongo_template(true);
    create_db(&mut root, "foo".to_string(), DB::MONGO).unwrap();
    create_env_file(
        &mut root,
        "u".to_string(),
        "p".to_string(),
        "foo".to_string(),
        "1234".to_string(),
    )
    .unwrap();
    let written = file_content(&root, &["existing_dbs", "foo", ".env"]);
    assert_eq!(written, "DB_NAME = foo\nDB_USER = u\nDB_PASSWORD = p\nDB_PORT = 1234");
    let lines: Vec<&str> = written.lines().collect();
    assert_eq!(lines, vec![
        "DB_NAME = foo",
        "DB_USER = u",
        "DB_PASSWORD = p",
        "DB_PORT = 1234",
    ]);
}

#[test]
fn env_write_fails_without_prior_file() {
    // the removal of the previous .env must succeed first, so an
    // instance created from a template without one cannot be
    // configured — and the tree stays as it was
    let mut root = root_with_mongo_template(false);
    create_db(&mut root, "foo".to_string(), DB::MONGO).unwrap();
    let r = create_env_file(
        &mut root,
        "u".to_string(),
        "p".to_string(),
        "foo".to_string(),
        "1234".to_string(),
    );
    assert_eq!(r, Err(DbError::NotFound));
    let inst = root
        .child(&"existing_dbs".to_string())
        .unwrap()
        .child(&"foo".to_string())
        .unwrap();
    assert!(inst.child(&".env".to_string()).is_none());
}

#[test]
fn env_write_fails_for_missing_instance() {
    let mut root = root_with_mongo_template(true);
    create_db(&mut root, "foo".to_string(), DB::MONGO).unwrap();
    let r = create_env_file(
        &mut root,
        "u".to_string(),
        "p".to_string(),
        "bar".to_string(),
        "1234".to_string(),
    );
    assert_eq!(r, Err(DbError::NotFound));
}

#[test]
fn start_plan_compose_without_marker() {
    let mut root = root_with_mongo_template(true);
    create_db(&mut root, "foo".to_string(), DB::MONGO).unwrap();
    assert_eq!(plan_start(&root, &"foo".to_string()), StartPlan::ComposeUp);
}

#[test]
fn start_plan_missing_instance_still_goes_to_compose() {
    let root = root_with_mongo_template(true);
    assert_eq!(plan_start(&root, &"nosuch".to_string()), StartPlan::ComposeUp);
}

#[test]
fn start_plan_sqlite_with_data_file() {
    let mut inst = FsNode::new_dir();
    inst.set_child(".sqlite3".to_string(), FsNode::new_file(String::new()));
    inst.set_child("s1.db".to_string(), FsNode::new_file(String::new()));
    let mut eds = FsNode::new_dir();
    eds.set_child("s1".to_string(), inst);
    let mut root = FsNode::new_dir();
    root.set_child("existing_dbs".to_string(), eds);
    assert_eq!(plan_start(&root, &"s1".to_string()), StartPlan::SqliteFile);
}

#[test]
fn start_plan_sqlite_without_data_file() {
    let mut inst = FsNode::new_dir();
    inst.set_child(".sqlite3".to_string(), FsNode::new_file(String::new()));
    let mut eds = FsNode::new_dir();
    eds.set_child("s1".to_string(), inst);
    let mut root = FsNode::new_dir();
    root.set_child("existing_dbs".to_string(), eds);
    assert_eq!(plan_start(&root, &"s1".to_string()), StartPlan::SqliteFileMissing);
}

#[test]
fn sqlite_instance_created_from_marked_template() {
    // the sqlite3 template carries the sentinel marker; a fresh
    // instance copied from it is sqlite-marked but has no data file yet
    let mut t = FsNode::new_dir();
    t.set_child(".sqlite3".to_string(), FsNode::new_file(String::new()));
    let mut root = FsNode::new_dir();
    root.set_child("sqlite3".to_string(), t);
    create_db(&mut root, "s1".to_string(), DB::SQLITE3).unwrap();
    assert_eq!(plan_start(&root, &"s1".to_string()), StartPlan::SqliteFileMissing);
}

#[test]
fn sqlite3_reports_exact_messages() {
    let ok = sqlite3_outcome(
        &"s1".to_string(),
        true,
        &"done".to_string(),
        &String::new(),
    );
    assert_eq!(ok, Ok("Sqlite3-DB 's1' successfully created: 'done'".to_string()));
    let err = sqlite3_outcome(
        &"s1".to_string(),
        false,
        &String::new(),
        &"disk full".to_string(),
    );
    assert_eq!(err, Err("Error could not create Sqlite3-DB 's1': disk full".to_string()));
}
