//! The database registry: kinds, lifecycle operations and their exact
//! behaviour over the modelled directory tree.
//!
//! Every operation mirrors one registry action of the manager: listing
//! instances, creating one from a template, writing its `.env` file,
//! deleting it, and deciding how an instance is started. The container
//! orchestrator and the disk are driven by the unverified shell, which
//! performs on the real filesystem exactly what these functions perform
//! on the model.

use vstd::prelude::*;
use vstd::string::*;
use crate::fstree::FsNode;
use crate::fstree::FsNodeV;
use crate::fstree::dir_name_set;

verus! {

/// The closed set of database kinds the manager knows.
#[derive(Debug, Clone, Copy, PartialEq, Eq, Structural)]
pub enum DB {
    MONGO,
    POSTGRES,
    SQLITE3,
}

/// The default network port of a kind, as text; SQLite has none.
pub open spec fn default_port_spec(db: DB) -> Seq<char> {
    match db {
        DB::MONGO => "27017"@,
        DB::POSTGRES => "5432"@,
        DB::SQLITE3 => ""@,
    }
}

/// Pure lookup of a kind's default port.
pub fn get_default_port(db: DB) -> (r: String)
    ensures
        r@ == default_port_spec(db),
{
    let port = match db {
        DB::MONGO => "27017",
        DB::POSTGRES => "5432",
        DB::SQLITE3 => "",
    };
    port.to_owned()
}

/// The name of the template directory that seeds a new instance of a
/// kind.
pub open spec fn template_name(db: DB) -> Seq<char> {
    match db {
        DB::MONGO => "mongo"@,
        DB::POSTGRES => "postgres"@,
        DB::SQLITE3 => "sqlite3"@,
    }
}

/// Pure lookup of a kind's template directory name.
pub fn template_dir(db: DB) -> (r: String)
    ensures
        r@ == template_name(db),
{
    let name = match db {
        DB::MONGO => "mongo",
        DB::POSTGRES => "postgres",
        DB::SQLITE3 => "sqlite3",
    };
    name.to_owned()
}

/// How a registry operation on the modelled tree can fail.
#[derive(Debug, Clone, Copy, PartialEq, Eq, Structural)]
pub enum DbError {
    AlreadyExists,
    NotFound,
    NotADirectory,
}

/// The text reported for each failure.
pub open spec fn message_spec(e: DbError) -> Seq<char> {
    match e {
        DbError::AlreadyExists => "DB already exists"@,
        DbError::NotFound => "No such file or directory"@,
        DbError::NotADirectory => "Not a directory"@,
    }
}

impl DbError {
    /// The text reported for this failure.
    pub fn message(&self) -> (r: &'static str)
        ensures
            r@ == message_spec(*self),
    {
        match self {
            DbError::AlreadyExists => "DB already exists",
            DbError::NotFound => "No such file or directory",
            DbError::NotADirectory => "Not a directory",
        }
    }
}

/// The named entry of a directory view, when the view is a directory
/// and carries the name.
pub open spec fn child_of(v: FsNodeV, name: Seq<char>) -> Option<FsNodeV> {
    if v is Dir && v->entries.contains_key(name) {
        Option::Some(v->entries[name])
    } else {
        Option::None
    }
}

/// What listing the existing instances returns: the names of the
/// subdirectories of `existing_dbs`, or the error when that directory
/// is missing or is a plain file.
pub open spec fn get_existing_dbs_spec(rootv: FsNodeV) -> Result<Set<Seq<char>>, DbError> {
    match child_of(rootv, "existing_dbs"@) {
        Option::None => Result::Err(DbError::NotFound),
        Option::Some(e) => if e is Dir {
            Result::Ok(dir_name_set(e->entries))
        } else {
            Result::Err(DbError::NotADirectory)
        },
    }
}

/// Lists the existing database instances: the subdirectories of the
/// `existing_dbs` directory of the root, in unspecified order.
pub fn get_existing_dbs(root: &FsNode) -> (r: Result<Vec<String>, DbError>)
    requires
        root.wf(),
    ensures
        (match r {
            Result::Ok(names) => {
                &&& get_existing_dbs_spec(root@) == Result::<Set<Seq<char>>, DbError>::Ok(
                    names@.map_values(|s: String| s@).to_set(),
                )
                &&& names@.map_values(|s: String| s@).no_duplicates()
            },
            Result::Err(e) => get_existing_dbs_spec(root@) == Result::<
                Set<Seq<char>>,
                DbError,
            >::Err(e),
        }),
{
    let eds_name = String::from_str("existing_dbs");
    match root.child(&eds_name) {
        Option::None => Result::Err(DbError::NotFound),
        Option::Some(e) => {
            if e.is_dir() {
                Result::Ok(e.dir_children())
            } else {
                Result::Err(DbError::NotADirectory)
            }
        },
    }
}

/// Whether a line of the orchestrator's process listing counts as
/// naming an instance: the line ends with the instance name. This is a
/// deliberately loose suffix match, kept from the manager's original
/// behaviour.
pub open spec fn line_matches(line: Seq<char>, name: Seq<char>) -> bool {
    name.len() <= line.len() && line.subrange(line.len() - name.len(), line.len() as int)
        == name
}

/// Whether any line of the listing matches the name.
pub open spec fn matched_by_some_line(lines: Seq<Seq<char>>, name: Seq<char>) -> bool {
    exists|i: int| 0 <= i < lines.len() && line_matches(lines[i], name)
}

/// The running instances among a set of existing ones, given the lines
/// of the orchestrator's process listing: always a subset of the
/// existing names.
pub open spec fn running_name_set(ex: Set<Seq<char>>, lines: Seq<Seq<char>>) -> Set<Seq<char>> {
    ex.filter(|name: Seq<char>| matched_by_some_line(lines, name))
}

/// The running instances are always a subset of the existing ones, and
/// a name that no line of the process listing matches is never
/// reported as running.
pub proof fn lemma_running_subset_of_existing(
    ex: Set<Seq<char>>,
    lines: Seq<Seq<char>>,
    name: Seq<char>,
)
    ensures
        running_name_set(ex, lines).subset_of(ex),
        !matched_by_some_line(lines, name) ==> !running_name_set(ex, lines).contains(name),
{
}

/// Whether `line` ends with `name`, character by character.
fn str_ends_with(line: &String, name: &String) -> (r: bool)
    ensures
        r == line_matches(line@, name@),
{
    let n = line.as_str().unicode_len();
    let m = name.as_str().unicode_len();
    if m > n {
        return false;
    }
    let mut i: usize = 0;
    while i < m
        invariant
            i <= m,
            m <= n,
            n == line@.len(),
            m == name@.len(),
            forall|j: int| 0 <= j < i ==> line@[n - m + j] == name@[j],
        decreases m - i,
    {
        let c1 = line.as_str().get_char(n - m + i);
        let c2 = name.as_str().get_char(i);
        if c1 != c2 {
            proof {
                if line_matches(line@, name@) {
                    let sub = line@.subrange(n - m, n as int);
                    assert(sub[i as int] == line@[n - m + i]);
                }
            }
            return false;
        }
        i += 1;
    }
    proof {
        assert(line@.subrange(n - m, n as int) =~= name@);
    }
    true
}

/// Whether any of the given lines ends with the name.
fn any_line_matches(lines: &Vec<String>, name: &String) -> (r: bool)
    ensures
        r == matched_by_some_line(lines.deep_view(), name@),
{
    let n = lines.len();
    let mut i: usize = 0;
    while i < n
        invariant
            i <= n,
            n == lines@.len(),
            forall|j: int| 0 <= j < i ==> !line_matches(lines.deep_view()[j], name@),
        decreases n - i,
    {
        if str_ends_with(&lines[i], name) {
            assert(lines.deep_view()[i as int] == lines@[i as int]@);
            return true;
        }
        assert(lines.deep_view()[i as int] == lines@[i as int]@);
        i += 1;
    }
    false
}

/// The names of a name sequence that some line matches, in order.
pub open spec fn filter_matched(names: Seq<Seq<char>>, lines: Seq<Seq<char>>) -> Seq<Seq<char>>
    decreases names,
{
    if names.len() == 0 {
        Seq::empty()
    } else {
        let prefix = names.subrange(0, names.len() - 1);
        let last = names[names.len() - 1];
        filter_matched(prefix, lines) + (if matched_by_some_line(lines, last) {
            seq![last]
        } else {
            Seq::<Seq<char>>::empty()
        })
    }
}

/// Filtering a duplicate-free name sequence by the matched lines keeps
/// exactly the running subset of its names, without repetition.
pub proof fn lemma_filter_matched(names: Seq<Seq<char>>, lines: Seq<Seq<char>>)
    requires
        names.no_duplicates(),
    ensures
        filter_matched(names, lines).to_set() == running_name_set(names.to_set(), lines),
        filter_matched(names, lines).no_duplicates(),
    decreases names,
{
    if names.len() > 0 {
        let prefix = names.subrange(0, names.len() - 1);
        let last = names[names.len() - 1];
        assert(prefix.no_duplicates());
        lemma_filter_matched(prefix, lines);
        assert(names.to_set() =~= prefix.to_set().insert(last)) by {
            prefix.lemma_push_to_set_commute(last);
            assert(prefix.push(last) =~= names);
        }
        assert(!prefix.to_set().contains(last)) by {
            if prefix.contains(last) {
                let j = choose|j: int| 0 <= j < prefix.len() && prefix[j] == last;
                assert(names[j] == last);
            }
        }
        if matched_by_some_line(lines, last) {
            assert(filter_matched(names, lines) =~= filter_matched(prefix, lines).push(last));
            filter_matched(prefix, lines).lemma_push_to_set_commute(last);
            assert(running_name_set(names.to_set(), lines) =~= running_name_set(
                prefix.to_set(),
                lines,
            ).insert(last));
            assert(!filter_matched(prefix, lines).to_set().contains(last));
            let full = filter_matched(names, lines);
            assert forall|j1: int, j2: int|
                0 <= j1 < j2 < full.len() implies full[j1] != full[j2] by {
                if j2 == full.len() - 1 {
                    assert(filter_matched(prefix, lines).contains(
                        filter_matched(prefix, lines)[j1],
                    ));
                }
            }
        } else {
            assert(filter_matched(names, lines) =~= filter_matched(prefix, lines));
            assert(running_name_set(names.to_set(), lines) =~= running_name_set(
                prefix.to_set(),
                lines,
            ));
        }
    }
}

/// Lists the running instances: the existing names that some line of
/// the orchestrator's process listing ends with. Fails exactly when
/// listing the existing instances fails.
pub fn get_running_dbs(root: &FsNode, ps_lines: &Vec<String>) -> (r: Result<Vec<String>, DbError>)
    requires
        root.wf(),
    ensures
        (match r {
            Result::Ok(names) => {
                &&& get_existing_dbs_spec(root@) matches Result::Ok(ex) && names@.map_values(
                    |s: String| s@,
                ).to_set() == running_name_set(ex, ps_lines.deep_view())
                &&& names@.map_values(|s: String| s@).no_duplicates()
            },
            Result::Err(e) => get_existing_dbs_spec(root@) == Result::<
                Set<Seq<char>>,
                DbError,
            >::Err(e),
        }),
{
    let existing = match get_existing_dbs(root) {
        Result::Ok(v) => v,
        Result::Err(e) => { return Result::Err(e); },
    };
    let ghost linesv = ps_lines.deep_view();
    let n = existing.len();
    let mut out: Vec<String> = Vec::new();
    let mut i: usize = 0;
    while i < n
        invariant
            i <= n,
            n == existing@.len(),
            out@.map_values(|s: String| s@) == filter_matched(
                existing@.map_values(|s: String| s@).subrange(0, i as int),
                ps_lines.deep_view(),
            ),
        decreases n - i,
    {
        let ghost out0 = out@;
        let ghost exv = existing@.map_values(|s: String| s@);
        if any_line_matches(ps_lines, &existing[i]) {
            out.push(existing[i].clone());
            proof {
                assert(out@.map_values(|s: String| s@) =~= out0.map_values(|s: String| s@).push(
                    exv[i as int],
                ));
            }
        }
        proof {
            let prefix1 = exv.subrange(0, i + 1);
            assert(prefix1.subrange(0, prefix1.len() - 1) =~= exv.subrange(0, i as int));
            assert(prefix1[prefix1.len() - 1] == exv[i as int]);
            if matched_by_some_line(linesv, exv[i as int]) {
                assert(filter_matched(prefix1, linesv) =~= filter_matched(
                    exv.subrange(0, i as int),
                    linesv,
                ).push(exv[i as int]));
            } else {
                assert(filter_matched(prefix1, linesv) =~= filter_matched(
                    exv.subrange(0, i as int),
                    linesv,
                ));
            }
        }
        i += 1;
    }
    proof {
        let exv = existing@.map_values(|s: String| s@);
        assert(exv.subrange(0, n as int) =~= exv);
        lemma_filter_matched(exv, linesv);
    }
    Result::Ok(out)
}

/// What creating an instance does to the root: `AlreadyExists` when
/// `existing_dbs` already carries the name, otherwise a copy of the
/// kind's template becomes the new entry, with `existing_dbs` itself
/// created when absent. On any error the tree is unchanged.
pub open spec fn create_db_spec(rootv: FsNodeV, name: Seq<char>, db: DB) -> Result<
    FsNodeV,
    DbError,
> {
    let eds = child_of(rootv, "existing_dbs"@);
    if eds matches Option::Some(e) && e is Dir && e->entries.contains_key(name) {
        Result::Err(DbError::AlreadyExists)
    } else if eds matches Option::Some(e) && !(e is Dir) {
        Result::Err(DbError::NotADirectory)
    } else {
        match child_of(rootv, template_name(db)) {
            Option::None => Result::Err(DbError::NotFound),
            Option::Some(t) => if !(t is Dir) {
                Result::Err(DbError::NotADirectory)
            } else {
                let base = match eds {
                    Option::Some(e) => e->entries,
                    Option::None => Map::<Seq<char>, FsNodeV>::empty(),
                };
                Result::Ok(
                    FsNodeV::Dir {
                        entries: rootv->entries.insert(
                            "existing_dbs"@,
                            FsNodeV::Dir { entries: base.insert(name, t) },
                        ),
                    },
                )
            },
        }
    }
}

/// Creates a new instance named `name` by copying the template of kind
/// `db` under `existing_dbs`; never starts anything. Errors leave the
/// tree untouched.
pub fn create_db(root: &mut FsNode, name: String, db: DB) -> (r: Result<(), DbError>)
    requires
        old(root).wf(),
        old(root)@ is Dir,
    ensures
        final(root).wf(),
        final(root)@ is Dir,
        (match r {
            Result::Ok(u) => create_db_spec(old(root)@, name@, db) == Result::<
                FsNodeV,
                DbError,
            >::Ok(final(root)@),
            Result::Err(e) => create_db_spec(old(root)@, name@, db) == Result::<
                FsNodeV,
                DbError,
            >::Err(e) && final(root)@ == old(root)@,
        }),
{
    let eds_name = String::from_str("existing_dbs");
    match root.child(&eds_name) {
        Option::Some(e) => {
            if e.is_dir() {
                if e.has_child(&name) {
                    return Result::Err(DbError::AlreadyExists);
                }
            } else {
                return Result::Err(DbError::NotADirectory);
            }
        },
        Option::None => {},
    }
    let tname = template_dir(db);
    let tcopy = match root.child(&tname) {
        Option::None => {
            return Result::Err(DbError::NotFound);
        },
        Option::Some(t) => {
            if !t.is_dir() {
                return Result::Err(DbError::NotADirectory);
            }
            t.deep_copy()
        },
    };
    let ghost rootv0 = root@;
    let mut eds = match root.take_child(&eds_name) {
        Option::Some(e) => e,
        Option::None => FsNode::new_dir(),
    };
    eds.set_child(name, tcopy);
    root.set_child(eds_name, eds);
    proof {
        let k = "existing_dbs"@;
        if child_of(rootv0, k) is Some {
            assert(rootv0->entries.remove(k).insert(k, root@->entries[k]) =~= rootv0
                ->entries.insert(k, root@->entries[k]));
        }
        assert(root@->entries =~= create_db_spec(rootv0, name@, db)->Ok_0->entries);
        assert(root@ == create_db_spec(rootv0, name@, db)->Ok_0);
    }
    Result::Ok(())
}

/// Creating over an existing instance name always fails with
/// `AlreadyExists`, whatever the kind — and the executable operation
/// then leaves the tree untouched.
pub proof fn lemma_create_existing_fails(rootv: FsNodeV, name: Seq<char>, db: DB)
    requires
        child_of(rootv, "existing_dbs"@) matches Option::Some(e) && e is Dir
            && e->entries.contains_key(name),
    ensures
        create_db_spec(rootv, name, db) == Result::<FsNodeV, DbError>::Err(
            DbError::AlreadyExists,
        ),
{
}

/// The text of a generated `.env` file: four fixed fields, one per
/// line, no trailing newline.
pub open spec fn env_content_spec(
    name: Seq<char>,
    user: Seq<char>,
    password: Seq<char>,
    port: Seq<char>,
) -> Seq<char> {
    "DB_NAME = "@ + name + "\nDB_USER = "@ + user + "\nDB_PASSWORD = "@ + password
        + "\nDB_PORT = "@ + port
}

/// Builds the text of a `.env` file for the given configuration.
pub fn env_file_content(
    db_name: &String,
    db_username: &String,
    db_password: &String,
    port: &String,
) -> (r: String)
    ensures
        r@ == env_content_spec(db_name@, db_username@, db_password@, port@),
{
    let mut s = String::from_str("DB_NAME = ");
    s.append(db_name.as_str());
    s.append("\nDB_USER = ");
    s.append(db_username.as_str());
    s.append("\nDB_PASSWORD = ");
    s.append(db_password.as_str());
    s.append("\nDB_PORT = ");
    s.append(port.as_str());
    s
}

/// What configuring an instance does to the root: the instance's
/// `.env` file is replaced by the freshly generated text. The removal
/// of the previous file must succeed first, so a missing `.env` is an
/// error and the tree is then unchanged — callers have to tolerate
/// this deliberately kept fragility.
pub open spec fn create_env_file_spec(
    rootv: FsNodeV,
    user: Seq<char>,
    password: Seq<char>,
    name: Seq<char>,
    port: Seq<char>,
) -> Result<FsNodeV, DbError> {
    match child_of(rootv, "existing_dbs"@) {
        Option::None => Result::Err(DbError::NotFound),
        Option::Some(e) => if !(e is Dir) {
            Result::Err(DbError::NotADirectory)
        } else {
            match child_of(e, name) {
                Option::None => Result::Err(DbError::NotFound),
                Option::Some(inst) => if !(inst is Dir) {
                    Result::Err(DbError::NotADirectory)
                } else {
                    match child_of(inst, ".env"@) {
                        Option::None => Result::Err(DbError::NotFound),
                        Option::Some(env) => if !(env is File) {
                            Result::Err(DbError::NotADirectory)
                        } else {
                            Result::Ok(
                                FsNodeV::Dir {
                                    entries: rootv->entries.insert(
                                        "existing_dbs"@,
                                        FsNodeV::Dir {
                                            entries: e->entries.insert(
                                                name,
                                                FsNodeV::Dir {
                                                    entries: inst->entries.insert(
                                                        ".env"@,
                                                        FsNodeV::File {
                                                            content: env_content_spec(
                                                                name,
                                                                user,
                                                                password,
                                                                port,
                                                            ),
                                                        },
                                                    ),
                                                },
                                            ),
                                        },
                                    ),
                                },
                            )
                        },
                    }
                },
            }
        },
    }
}

/// Replaces the `.env` file of the named instance with the generated
/// configuration text; fails — leaving the tree untouched — when the
/// instance or its previous `.env` file is missing.
pub fn create_env_file(
    root: &mut FsNode,
    db_username: String,
    db_password: String,
    db_name: String,
    port: String,
) -> (r: Result<(), DbError>)
    requires
        old(root).wf(),
        old(root)@ is Dir,
    ensures
        final(root).wf(),
        final(root)@ is Dir,
        (match r {
            Result::Ok(u) => create_env_file_spec(
                old(root)@,
                db_username@,
                db_password@,
                db_name@,
                port@,
            ) == Result::<FsNodeV, DbError>::Ok(final(root)@),
            Result::Err(e) => create_env_file_spec(
                old(root)@,
                db_username@,
                db_password@,
                db_name@,
                port@,
            ) == Result::<FsNodeV, DbError>::Err(e) && final(root)@ == old(root)@,
        }),
{
    let eds_name = String::from_str("existing_dbs");
    let env_name = String::from_str(".env");
    match root.child(&eds_name) {
        Option::None => {
            return Result::Err(DbError::NotFound);
        },
        Option::Some(e) => {
            if !e.is_dir() {
                return Result::Err(DbError::NotADirectory);
            }
            match e.child(&db_name) {
                Option::None => {
                    return Result::Err(DbError::NotFound);
                },
                Option::Some(inst) => {
                    if !inst.is_dir() {
                        return Result::Err(DbError::NotADirectory);
                    }
                    match inst.child(&env_name) {
                        Option::None => {
                            return Result::Err(DbError::NotFound);
                        },
                        Option::Some(env) => {
                            if env.is_dir() {
                                return Result::Err(DbError::NotADirectory);
                            }
                        },
                    }
                },
            }
        },
    }
    let content = env_file_content(&db_name, &db_username, &db_password, &port);
    let ghost rootv0 = root@;
    let mut eds = match root.take_child(&eds_name) {
        Option::Some(e) => e,
        Option::None => vstd::pervasive::unreached(),
    };
    let ghost edsv0 = eds@;
    let mut inst = match eds.take_child(&db_name) {
        Option::Some(n) => n,
        Option::None => vstd::pervasive::unreached(),
    };
    let ghost instv0 = inst@;
    inst.set_child(env_name, FsNode::new_file(content));
    eds.set_child(db_name, inst);
    root.set_child(eds_name, eds);
    proof {
        let k = "existing_dbs"@;
        let spec_new = create_env_file_spec(rootv0, db_username@, db_password@, db_name@, port@)
            ->Ok_0;
        assert(instv0->entries.remove(".env"@).insert(".env"@, root@->entries[k]->entries[
            db_name@]->entries[".env"@]) =~= instv0->entries.insert(".env"@, root@->entries[
            k]->entries[db_name@]->entries[".env"@]));
        assert(edsv0->entries.remove(db_name@).insert(db_name@, root@->entries[k]->entries[
            db_name@]) =~= edsv0->entries.insert(db_name@, root@->entries[k]->entries[
            db_name@]));
        assert(rootv0->entries.remove(k).insert(k, root@->entries[k]) =~= rootv0
            ->entries.insert(k, root@->entries[k]));
        assert(root@->entries[k]->entries[db_name@]->entries =~= spec_new->entries[k]->entries[
            db_name@]->entries);
        assert(root@->entries[k]->entries =~= spec_new->entries[k]->entries);
        assert(root@->entries =~= spec_new->entries);
        assert(root@ == spec_new);
    }
    Result::Ok(())
}

/// What deleting an instance does to the root: its directory entry is
/// removed from `existing_dbs`; missing instances are an error and the
/// tree is then unchanged. The orchestrator's own container removal is
/// not part of the tree and cannot block this.
pub open spec fn delete_db_spec(rootv: FsNodeV, name: Seq<char>) -> Result<FsNodeV, DbError> {
    match child_of(rootv, "existing_dbs"@) {
        Option::None => Result::Err(DbError::NotFound),
        Option::Some(e) => if !(e is Dir) {
            Result::Err(DbError::NotADirectory)
        } else {
            match child_of(e, name) {
                Option::None => Result::Err(DbError::NotFound),
                Option::Some(inst) => if !(inst is Dir) {
                    Result::Err(DbError::NotADirectory)
                } else {
                    Result::Ok(
                        FsNodeV::Dir {
                            entries: rootv->entries.insert(
                                "existing_dbs"@,
                                FsNodeV::Dir { entries: e->entries.remove(name) },
                            ),
                        },
                    )
                },
            }
        },
    }
}

/// Removes the named instance's directory tree. Whether a container of
/// that name was still running — or whether stopping it failed — does
/// not matter here: the directory is removed regardless.
pub fn delete_db(root: &mut FsNode, db_name: &String) -> (r: Result<(), DbError>)
    requires
        old(root).wf(),
        old(root)@ is Dir,
    ensures
        final(root).wf(),
        final(root)@ is Dir,
        (match r {
            Result::Ok(u) => delete_db_spec(old(root)@, db_name@) == Result::<
                FsNodeV,
                DbError,
            >::Ok(final(root)@),
            Result::Err(e) => delete_db_spec(old(root)@, db_name@) == Result::<
                FsNodeV,
                DbError,
            >::Err(e) && final(root)@ == old(root)@,
        }),
{
    let eds_name = String::from_str("existing_dbs");
    match root.child(&eds_name) {
        Option::None => {
            return Result::Err(DbError::NotFound);
        },
        Option::Some(e) => {
            if !e.is_dir() {
                return Result::Err(DbError::NotADirectory);
            }
            match e.child(db_name) {
                Option::None => {
                    return Result::Err(DbError::NotFound);
                },
                Option::Some(inst) => {
                    if !inst.is_dir() {
                        return Result::Err(DbError::NotADirectory);
                    }
                },
            }
        },
    }
    let ghost rootv0 = root@;
    let mut eds = match root.take_child(&eds_name) {
        Option::Some(e) => e,
        Option::None => vstd::pervasive::unreached(),
    };
    eds.take_child(db_name);
    root.set_child(eds_name, eds);
    proof {
        let k = "existing_dbs"@;
        assert(rootv0->entries.remove(k).insert(k, root@->entries[k]) =~= rootv0
            ->entries.insert(k, root@->entries[k]));
        assert(root@->entries =~= delete_db_spec(rootv0, db_name@)->Ok_0->entries);
        assert(root@ == delete_db_spec(rootv0, db_name@)->Ok_0);
    }
    Result::Ok(())
}

/// The instance directory of a name, when present.
pub open spec fn instance_of(rootv: FsNodeV, name: Seq<char>) -> Option<FsNodeV> {
    match child_of(rootv, "existing_dbs"@) {
        Option::Some(e) => child_of(e, name),
        Option::None => Option::None,
    }
}

/// Whether the instance carries the sentinel marker of a SQLite
/// instance.
pub open spec fn sqlite_marker_present(rootv: FsNodeV, name: Seq<char>) -> bool {
    match instance_of(rootv, name) {
        Option::Some(inst) => child_of(inst, ".sqlite3"@) is Some,
        Option::None => false,
    }
}

/// Whether the instance carries its SQLite data file, named after the
/// instance.
pub open spec fn sqlite_db_file_present(rootv: FsNodeV, name: Seq<char>) -> bool {
    match instance_of(rootv, name) {
        Option::Some(inst) => child_of(inst, name + ".db"@) is Some,
        Option::None => false,
    }
}

/// How an instance is to be started.
#[derive(Debug, Clone, Copy, PartialEq, Eq, Structural)]
pub enum StartPlan {
    /// No SQLite marker: bring the instance up through the container
    /// orchestrator, from the instance directory.
    ComposeUp,
    /// SQLite marker and data file present: nothing to start, report
    /// the data file's location.
    SqliteFile,
    /// SQLite marker present but the data file is missing: an error.
    SqliteFileMissing,
}

/// The decision of how to start an instance: container kinds go to the
/// orchestrator; marked SQLite instances only have their data file
/// reported, or its absence.
pub open spec fn plan_start_spec(rootv: FsNodeV, name: Seq<char>) -> StartPlan {
    if !sqlite_marker_present(rootv, name) {
        StartPlan::ComposeUp
    } else if sqlite_db_file_present(rootv, name) {
        StartPlan::SqliteFile
    } else {
        StartPlan::SqliteFileMissing
    }
}

/// Decides how the named instance is started.
pub fn plan_start(root: &FsNode, db_name: &String) -> (r: StartPlan)
    requires
        root.wf(),
    ensures
        r == plan_start_spec(root@, db_name@),
{
    let eds_name = String::from_str("existing_dbs");
    let marker_name = String::from_str(".sqlite3");
    let inst = match root.child(&eds_name) {
        Option::Some(e) => {
            match e.child(db_name) {
                Option::Some(inst) => inst,
                Option::None => {
                    return StartPlan::ComposeUp;
                },
            }
        },
        Option::None => {
            return StartPlan::ComposeUp;
        },
    };
    if !inst.has_child(&marker_name) {
        return StartPlan::ComposeUp;
    }
    let mut file_name = db_name.clone();
    file_name.append(".db");
    if inst.has_child(&file_name) {
        StartPlan::SqliteFile
    } else {
        StartPlan::SqliteFileMissing
    }
}

/// The report printed after the SQLite engine ran successfully.
pub open spec fn sqlite3_success_spec(name: Seq<char>, out: Seq<char>) -> Seq<char> {
    "Sqlite3-DB '"@ + name + "' successfully created: '"@ + out + "'"@
}

/// The report for a SQLite engine run that exited with a failure,
/// carrying the captured standard error.
pub open spec fn sqlite3_failure_spec(name: Seq<char>, err: Seq<char>) -> Seq<char> {
    "Error could not create Sqlite3-DB '"@ + name + "': "@ + err
}

/// Turns the outcome of a SQLite engine invocation into the exact
/// report: success keeps the captured output, failure carries the
/// captured standard error.
pub fn sqlite3_outcome(db_name: &String, success: bool, stdout: &String, stderr: &String) -> (r:
    Result<String, String>)
    ensures
        (match r {
            Result::Ok(m) => success && m@ == sqlite3_success_spec(db_name@, stdout@),
            Result::Err(m) => !success && m@ == sqlite3_failure_spec(db_name@, stderr@),
        }),
{
    if success {
        let mut s = String::from_str("Sqlite3-DB '");
        s.append(db_name.as_str());
        s.append("' successfully created: '");
        s.append(stdout.as_str());
        s.append("'");
        Result::Ok(s)
    } else {
        let mut s = String::from_str("Error could not create Sqlite3-DB '");
        s.append(db_name.as_str());
        s.append("': ");
        s.append(stderr.as_str());
        Result::Err(s)
    }
}

} // verus!
