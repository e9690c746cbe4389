//! The selection state machine: four independent menu slots resolved
//! into at most one typed intent, and the decisions around the
//! follow-up prompts.
//!
//! The interactive menu shows four submenus — start, create, delete,
//! stop — each a scrollable list whose first option is the sentinel
//! `"none"`. After the session ends, the four picked values are read
//! back and resolved: exactly one slot may hold a real pick, and any
//! other combination yields no intent. The unverified shell renders the
//! lists built by [`build_menu`] and hands the picked values to
//! [`resolve_selection`].

use vstd::prelude::*;
use vstd::string::*;
use crate::db::DB;
use crate::db::DbError;
use crate::db::default_port_spec;
use crate::db::get_default_port;
use crate::db::get_existing_dbs;
use crate::db::get_existing_dbs_spec;
use crate::db::get_running_dbs;
use crate::db::running_name_set;
use crate::fstree::FsNode;

verus! {

/// The single intent a finished menu session resolves to.
#[derive(Debug)]
pub enum UISelection {
    CreateDB { db_type: DB },
    StartDB { db_name: String },
    DeleteDB { db_name: String },
    StopDB { db_name: String },
}

/// Mathematical view of an intent: names as character sequences.
pub enum UISelectionV {
    CreateDB { db_type: DB },
    StartDB { db_name: Seq<char> },
    DeleteDB { db_name: Seq<char> },
    StopDB { db_name: Seq<char> },
}

impl View for UISelection {
    type V = UISelectionV;

    open spec fn view(&self) -> UISelectionV {
        match self {
            UISelection::CreateDB { db_type } => UISelectionV::CreateDB { db_type: *db_type },
            UISelection::StartDB { db_name } => UISelectionV::StartDB { db_name: db_name@ },
            UISelection::DeleteDB { db_name } => UISelectionV::DeleteDB { db_name: db_name@ },
            UISelection::StopDB { db_name } => UISelectionV::StopDB { db_name: db_name@ },
        }
    }
}

/// The four slot values read back from the menu session, each `"none"`
/// unless the user picked something in that submenu.
#[derive(Debug)]
pub struct UISelectionInput {
    pub db_existing: String,
    pub db_new: String,
    pub db_delete: String,
    pub db_stop: String,
}

/// How the four slot values resolve: exactly one active slot gives its
/// intent — the create slot only for the three known kind names — and
/// everything else gives no intent.
pub open spec fn resolve_spec(ex: Seq<char>, nw: Seq<char>, de: Seq<char>, st: Seq<char>) -> Option<
    UISelectionV,
> {
    if ex == "none"@ && de == "none"@ && st == "none"@ && nw == "mongodb"@ {
        Option::Some(UISelectionV::CreateDB { db_type: DB::MONGO })
    } else if ex == "none"@ && de == "none"@ && st == "none"@ && nw == "sqlite3"@ {
        Option::Some(UISelectionV::CreateDB { db_type: DB::SQLITE3 })
    } else if ex == "none"@ && de == "none"@ && st == "none"@ && nw == "postgres"@ {
        Option::Some(UISelectionV::CreateDB { db_type: DB::POSTGRES })
    } else if nw == "none"@ && de == "none"@ && st == "none"@ && ex != "none"@ {
        Option::Some(UISelectionV::StartDB { db_name: ex })
    } else if ex == "none"@ && nw == "none"@ && st == "none"@ && de != "none"@ {
        Option::Some(UISelectionV::DeleteDB { db_name: de })
    } else if ex == "none"@ && nw == "none"@ && de == "none"@ && st != "none"@ {
        Option::Some(UISelectionV::StopDB { db_name: st })
    } else {
        Option::None
    }
}

/// Resolves the four slot values of a finished menu session into at
/// most one intent.
pub fn resolve_selection(input: UISelectionInput) -> (r: Option<UISelection>)
    ensures
        (match r {
            Option::Some(u) => resolve_spec(
                input.db_existing@,
                input.db_new@,
                input.db_delete@,
                input.db_stop@,
            ) == Option::Some(u@),
            Option::None => resolve_spec(
                input.db_existing@,
                input.db_new@,
                input.db_delete@,
                input.db_stop@,
            ) is None,
        }),
{
    let none = String::from_str("none");
    let mongodb = String::from_str("mongodb");
    let sqlite3 = String::from_str("sqlite3");
    let postgres = String::from_str("postgres");
    let ex_is_none = input.db_existing == none;
    let nw_is_none = input.db_new == none;
    let de_is_none = input.db_delete == none;
    let st_is_none = input.db_stop == none;
    if ex_is_none && de_is_none && st_is_none && input.db_new == mongodb {
        Option::Some(UISelection::CreateDB { db_type: DB::MONGO })
    } else if ex_is_none && de_is_none && st_is_none && input.db_new == sqlite3 {
        Option::Some(UISelection::CreateDB { db_type: DB::SQLITE3 })
    } else if ex_is_none && de_is_none && st_is_none && input.db_new == postgres {
        Option::Some(UISelection::CreateDB { db_type: DB::POSTGRES })
    } else if nw_is_none && de_is_none && st_is_none && !ex_is_none {
        Option::Some(UISelection::StartDB { db_name: input.db_existing })
    } else if ex_is_none && nw_is_none && st_is_none && !de_is_none {
        Option::Some(UISelection::DeleteDB { db_name: input.db_delete })
    } else if ex_is_none && nw_is_none && de_is_none && !st_is_none {
        Option::Some(UISelection::StopDB { db_name: input.db_stop })
    } else {
        Option::None
    }
}

/// Whether a slot holds a real pick rather than the sentinel.
pub open spec fn slot_active(s: Seq<char>) -> bool {
    s != "none"@
}

/// How many of the four slots hold a real pick.
pub open spec fn active_slot_count(ex: Seq<char>, nw: Seq<char>, de: Seq<char>, st: Seq<char>) -> int {
    (if slot_active(ex) { 1int } else { 0int }) + (if slot_active(nw) { 1int } else { 0int }) + (
    if slot_active(de) { 1int } else { 0int }) + (if slot_active(st) { 1int } else { 0int })
}

/// With more than one slot holding a real pick at once, resolution
/// yields no intent.
pub proof fn lemma_ambiguous_selection_resolves_to_none(
    ex: Seq<char>,
    nw: Seq<char>,
    de: Seq<char>,
    st: Seq<char>,
)
    requires
        active_slot_count(ex, nw, de, st) >= 2,
    ensures
        resolve_spec(ex, nw, de, st) is None,
{
}

/// With all four slots left at the sentinel, resolution yields no
/// intent.
pub proof fn lemma_empty_selection_resolves_to_none(
    ex: Seq<char>,
    nw: Seq<char>,
    de: Seq<char>,
    st: Seq<char>,
)
    requires
        !slot_active(ex),
        !slot_active(nw),
        !slot_active(de),
        !slot_active(st),
    ensures
        resolve_spec(ex, nw, de, st) is None,
{
    broadcast use vstd::string::group_string_axioms;

    reveal_strlit("none");
    reveal_strlit("mongodb");
    reveal_strlit("sqlite3");
    reveal_strlit("postgres");
    assert("none"@.len() == 4);
    assert("mongodb"@.len() == 7);
    assert("sqlite3"@.len() == 7);
    assert("postgres"@.len() == 8);
}

/// The four option lists of the menu, one per submenu, each led by the
/// sentinel `"none"`.
#[derive(Debug)]
pub struct MenuModel {
    /// Existing instances, offered for starting.
    pub start_options: Vec<String>,
    /// The fixed kind names, offered for creating.
    pub create_options: Vec<String>,
    /// Existing instances, offered for deleting.
    pub delete_options: Vec<String>,
    /// Running instances, offered for stopping.
    pub stop_options: Vec<String>,
}

/// Builds the four option lists of the menu from the modelled root and
/// the lines of the orchestrator's process listing: existing instances
/// for start and delete, the fixed kind names for create, running
/// instances for stop, each list led by the sentinel `"none"`. Fails
/// exactly when listing the existing instances fails.
pub fn build_menu(root: &FsNode, ps_lines: &Vec<String>) -> (r: Result<MenuModel, DbError>)
    requires
        root.wf(),
    ensures
        (match r {
            Result::Ok(m) => {
                &&& get_existing_dbs_spec(root@) matches Result::Ok(ex)
                &&& m.create_options@.map_values(|s: String| s@) == seq![
                    "none"@,
                    "mongodb"@,
                    "postgres"@,
                    "sqlite3"@,
                ]
                &&& m.start_options@.len() >= 1
                &&& m.start_options@[0]@ == "none"@
                &&& m.start_options@.subrange(1, m.start_options@.len() as int).map_values(
                    |s: String| s@,
                ).to_set() == ex
                &&& m.start_options@.subrange(1, m.start_options@.len() as int).map_values(
                    |s: String| s@,
                ).no_duplicates()
                &&& m.delete_options@.len() >= 1
                &&& m.delete_options@[0]@ == "none"@
                &&& m.delete_options@.subrange(1, m.delete_options@.len() as int).map_values(
                    |s: String| s@,
                ).to_set() == ex
                &&& m.delete_options@.subrange(1, m.delete_options@.len() as int).map_values(
                    |s: String| s@,
                ).no_duplicates()
                &&& m.stop_options@.len() >= 1
                &&& m.stop_options@[0]@ == "none"@
                &&& m.stop_options@.subrange(1, m.stop_options@.len() as int).map_values(
                    |s: String| s@,
                ).to_set() == running_name_set(ex, ps_lines.deep_view())
                &&& m.stop_options@.subrange(1, m.stop_options@.len() as int).map_values(
                    |s: String| s@,
                ).no_duplicates()
            },
            Result::Err(e) => get_existing_dbs_spec(root@) == Result::<
                Set<Seq<char>>,
                DbError,
            >::Err(e),
        }),
{
    let mut start_options = match get_existing_dbs(root) {
        Result::Ok(v) => v,
        Result::Err(e) => {
            return Result::Err(e);
        },
    };
    let ghost start0 = start_options@;
    start_options.insert(0, String::from_str("none"));
    proof {
        assert(start_options@.subrange(1, start_options@.len() as int) =~= start0);
    }
    let mut create_options: Vec<String> = Vec::new();
    create_options.push(String::from_str("none"));
    create_options.push(String::from_str("mongodb"));
    create_options.push(String::from_str("postgres"));
    create_options.push(String::from_str("sqlite3"));
    proof {
        assert(create_options@.map_values(|s: String| s@) =~= seq![
            "none"@,
            "mongodb"@,
            "postgres"@,
            "sqlite3"@,
        ]);
    }
    let mut delete_options = match get_existing_dbs(root) {
        Result::Ok(v) => v,
        Result::Err(e) => {
            return Result::Err(e);
        },
    };
    let ghost delete0 = delete_options@;
    delete_options.insert(0, String::from_str("none"));
    proof {
        assert(delete_options@.subrange(1, delete_options@.len() as int) =~= delete0);
    }
    let mut stop_options = match get_running_dbs(root, ps_lines) {
        Result::Ok(v) => v,
        Result::Err(e) => {
            return Result::Err(e);
        },
    };
    let ghost stop0 = stop_options@;
    stop_options.insert(0, String::from_str("none"));
    proof {
        assert(stop_options@.subrange(1, stop_options@.len() as int) =~= stop0);
    }
    Result::Ok(MenuModel { start_options, create_options, delete_options, stop_options })
}

/// What `str::trim` returns; relied on below and never restated.
pub uninterp spec fn trim_of(s: Seq<char>) -> Seq<char>;

/// Relies on `str::trim`: removes leading and trailing whitespace, a
/// function of the characters alone. Its result is only given a name;
/// every decision built on it takes the returned value as it is.
#[verifier::external_body]
fn trim_input(s: &str) -> (r: String)
    ensures
        r@ == trim_of(s@),
{
    s.trim().to_owned()
}

/// The name a new instance gets: the prompt answer with surrounding
/// whitespace removed.
pub fn resolve_new_db_name(input: &str) -> (r: String)
    ensures
        r@ == trim_of(input@),
{
    trim_input(input)
}

/// Whether creating an instance of this kind prompts for port, user
/// and password: every kind but SQLite does.
pub fn needs_credentials(db: DB) -> (r: bool)
    ensures
        r == (db != DB::SQLITE3),
{
    db != DB::SQLITE3
}

/// The connection parameters of a new container-based instance.
#[derive(Debug)]
pub struct CreateParams {
    pub port: String,
    pub user: String,
    pub password: String,
}

/// Resolves the three credential prompt answers against their
/// defaults: a blank answer falls back to the kind's default port, the
/// invoking account's name, and the password `"test"`; any other
/// answer is kept, trimmed.
pub fn resolve_create_params(
    db: DB,
    port_input: &str,
    user_input: &str,
    password_input: &str,
    env_user: &str,
) -> (r: CreateParams)
    ensures
        r.port@ == (if trim_of(port_input@).len() == 0 {
            default_port_spec(db)
        } else {
            trim_of(port_input@)
        }),
        r.user@ == (if trim_of(user_input@).len() == 0 {
            env_user@
        } else {
            trim_of(user_input@)
        }),
        r.password@ == (if trim_of(password_input@).len() == 0 {
            "test"@
        } else {
            trim_of(password_input@)
        }),
{
    let port_t = trim_input(port_input);
    let port = if port_t.as_str().is_empty() {
        get_default_port(db)
    } else {
        port_t
    };
    let user_t = trim_input(user_input);
    let user = if user_t.as_str().is_empty() {
        env_user.to_owned()
    } else {
        user_t
    };
    let password_t = trim_input(password_input);
    let password = if password_t.as_str().is_empty() {
        String::from_str("test")
    } else {
        password_t
    };
    CreateParams { port, user, password }
}

} // verus!
