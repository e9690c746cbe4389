//! The selection state machine: resolving the four menu slots, the
//! prompt defaults, and the menu option lists.

use databases::db::DB;
use databases::db::get_default_port;
use databases::fstree::FsNode;
use databases::menu::CreateParams;
use databases::menu::UISelection;
use databases::menu::UISelectionInput;
use databases::menu::build_menu;
use databases::menu::needs_credentials;
use databases::menu::resolve_create_params;
use databases::menu::resolve_new_db_name;
use databases::menu::resolve_selection;

fn slots(ex: &str, nw: &str, de: &str, st: &str) -> UISelectionInput {
    UISelectionInput {
        db_existing: ex.to_string(),
        db_new: nw.to_string(),
        db_delete: de.to_string(),
        db_stop: st.to_string(),
    }
}

#[test]
fn resolve_create_mongo() {
    let r = resolve_selection(slots("none", "mongodb", "none", "none"));
    assert!(matches!(r, Some(UISelection::CreateDB { db_type: DB::MONGO })));
}

#[test]
fn resolve_create_postgres() {
    let r = resolve_selection(slots("none", "postgres", "none", "none"));
    assert!(matches!(r, Some(UISelection::CreateDB { db_type: DB::POSTGRES })));
}

#[test]
fn resolve_create_sqlite3() {
    let r = resolve_selection(slots("none", "sqlite3", "none", "none"));
    assert!(matches!(r, Some(UISelection::CreateDB { db_type: DB::SQLITE3 })));
}

#[test]
fn resolve_create_unknown_kind_is_none() {
    let r = resolve_selection(slots("none", "mysql", "none", "none"));
    assert!(r.is_none());
}

#[test]
fn resolve_start() {
    let r = resolve_selection(slots("mydb", "none", "none", "none"));
    match r {
        Some(UISelection::StartDB { db_name }) => assert_eq!(db_name, "mydb"),
        _ => panic!("expected a start intent"),
    }
}

#[test]
fn resolve_delete() {
    let r = resolve_selection(slots("none", "none", "olddb", "none"));
    match r {
        Some(UISelection::DeleteDB { db_name }) => assert_eq!(db_name, "olddb"),
        _ => panic!("expected a delete intent"),
    }
}

#[test]
fn resolve_stop() {
    let r = resolve_selection(slots("none", "none", "none", "rundb"));
    match r {
        Some(UISelection::StopDB { db_name }) => assert_eq!(db_name, "rundb"),
        _ => panic!("expected a stop intent"),
    }
}

#[test]
fn resolve_all_none_is_none() {
    let r = resolve_selection(slots("none", "none", "none", "none"));
    assert!(r.is_none());
}

#[test]
fn resolve_two_active_is_none() {
    assert!(resolve_selection(slots("a", "mongodb", "none", "none")).is_none());
    assert!(resolve_selection(slots("a", "none", "b", "none")).is_none());
    assert!(resolve_selection(slots("none", "mongodb", "none", "c")).is_none());
    assert!(resolve_selection(slots("none", "none", "b", "c")).is_none());
}

#[test]
fn resolve_three_and_four_active_is_none() {
    assert!(resolve_selection(slots("a", "mongodb", "b", "none")).is_none());
    assert!(resolve_selection(slots("a", "mongodb", "b", "c")).is_none());
}

#[test]
fn default_ports_exact() {
    assert_eq!(get_default_port(DB::MONGO), "27017");
    assert_eq!(get_default_port(DB::POSTGRES), "5432");
    assert_eq!(get_default_port(DB::SQLITE3), "");
}

#[test]
fn sqlite3_needs_no_credentials() {
    assert!(!needs_credentials(DB::SQLITE3));
    assert!(needs_credentials(DB::MONGO));
    assert!(needs_credentials(DB::POSTGRES));
}

#[test]
fn create_params_fall_back_to_defaults() {
    let p: CreateParams = resolve_create_params(DB::MONGO, "", "", "", "carol");
    assert_eq!(p.port, "27017");
    assert_eq!(p.user, "carol");
    assert_eq!(p.password, "test");
    let p = resolve_create_params(DB::POSTGRES, "  ", " \t", "", "dave");
    assert_eq!(p.port, "5432");
    assert_eq!(p.user, "dave");
    assert_eq!(p.password, "test");
}

#[test]
fn create_params_keep_trimmed_answers() {
    let p = resolve_create_params(DB::MONGO, " 9999 ", " alice ", " secret ", "carol");
    assert_eq!(p.port, "9999");
    assert_eq!(p.user, "alice");
    assert_eq!(p.password, "secret");
}

#[test]
fn new_db_name_is_trimmed() {
    assert_eq!(resolve_new_db_name("  foo \n"), "foo");
    assert_eq!(resolve_new_db_name("bar"), "bar");
}

#[test]
fn menu_lists_existing_running_and_kinds() {
    let mut root = FsNode::new_dir();
    let mut eds = FsNode::new_dir();
    eds.set_child("m1".to_string(), FsNode::new_dir());
    eds.set_child("m2".to_string(), FsNode::new_dir());
    root.set_child("existing_dbs".to_string(), eds);
    let ps = vec!["CONTAINER ID  IMAGE  NAME".to_string(), "0abc mongo m1".to_string()];
    let m = build_menu(&root, &ps).unwrap();
    assert_eq!(m.start_options, vec!["none", "m1", "m2"]);
    assert_eq!(m.create_options, vec!["none", "mongodb", "postgres", "sqlite3"]);
    assert_eq!(m.delete_options, vec!["none", "m1", "m2"]);
    assert_eq!(m.stop_options, vec!["none", "m1"]);
}

#[test]
fn menu_fails_without_existing_dbs() {
    let root = FsNode::new_dir();
    let ps: Vec<String> = Vec::new();
    assert!(build_menu(&root, &ps).is_err());
}
