//! The commands that scaffold a new dockerized Rails or Phoenix project inside
//! a short-lived container.
use crate::exec::ExecRequest;
use crate::text::view_all;
use vstd::prelude::*;

verus! {

/// The database a new Rails project is set up with.
#[derive(Debug, Clone, Copy, PartialEq, Eq, Structural)]
pub enum Database {
    Postgresql,
    Mysql,
    Sqlite3,
}

pub open spec fn database_word(d: Database) -> Seq<char> {
    match d {
        Database::Postgresql => "postgresql"@,
        Database::Mysql => "mysql"@,
        Database::Sqlite3 => "sqlite3"@,
    }
}

/// The `rails new` option for the database: `--database=<name>`, or without a
/// database `--skip-active-record`.
pub open spec fn database_flag_of(d: Option<Database>) -> Seq<char> {
    match d {
        Some(d) => "--database="@ + database_word(d),
        None => "--skip-active-record"@,
    }
}

/// The `rails new` option for an API-only project (empty otherwise).
pub open spec fn api_flag_of(api: bool) -> Seq<char> {
    if api {
        "--api"@
    } else {
        ""@
    }
}

/// `{name}-user`: the user a scaffolded project's image creates.
pub open spec fn project_user_of(name: Seq<char>) -> Seq<char> {
    name + "-user"@
}

/// `/home/{user}`: where the scaffold container works.
pub open spec fn home_of(user: Seq<char>) -> Seq<char> {
    "/home/"@ + user
}

fn concat(a: &str, b: &str) -> (r: String)
    ensures
        r@ == a@ + b@,
{
    let mut out = a.to_owned();
    out.append(b);
    out
}

/// The `rails new` database option.
pub fn database_flag(d: Option<Database>) -> (r: String)
    ensures
        r@ == database_flag_of(d),
{
    match d {
        Some(Database::Postgresql) => concat("--database=", "postgresql"),
        Some(Database::Mysql) => concat("--database=", "mysql"),
        Some(Database::Sqlite3) => concat("--database=", "sqlite3"),
        None => "--skip-active-record".to_owned(),
    }
}

/// The `rails new` API-only option.
pub fn api_flag(api: bool) -> (r: String)
    ensures
        r@ == api_flag_of(api),
{
    if api {
        "--api".to_owned()
    } else {
        "".to_owned()
    }
}

/// The `Dockerfile` line that installs SQLite, for a SQLite project only.
pub fn sqlite_install_line(d: Option<Database>) -> (r: String)
    ensures
        d == Some(Database::Sqlite3) ==> r@ == "RUN apt-get update && apt-get install -y sqlite3"@,
        d != Some(Database::Sqlite3) ==> r@ == ""@,
{
    match d {
        Some(Database::Sqlite3) => "RUN apt-get update && apt-get install -y sqlite3".to_owned(),
        _ => "".to_owned(),
    }
}

/// The user a new project's image creates.
pub fn project_user(name: &str) -> (r: String)
    ensures
        r@ == project_user_of(name@),
{
    concat(name, "-user")
}

/// The home directory of `user`, where the scaffold container works.
pub fn home_dir(user: &str) -> (r: String)
    ensures
        r@ == home_of(user@),
{
    concat("/home/", user)
}

/// The bind of the host directory `host` on `work_dir`, read-write.
pub fn scaffold_bind(host: &str, work_dir: &str) -> (r: String)
    ensures
        r@ == host@ + ":"@ + work_dir@ + ":rw"@,
{
    let mut out = concat(host, ":");
    out.append(work_dir);
    out.append(":rw");
    out
}

pub open spec fn gem_env() -> Seq<Seq<char>> {
    seq!["GEM_PATH=/tmp/gem"@, "GEM_SPEC_CACHE=/tmp/gem/cache"@]
}

pub open spec fn gem_home_env() -> Seq<Seq<char>> {
    gem_env().push("HOME=/tmp"@)
}

pub open spec fn group_cmd(user: Seq<char>) -> Seq<Seq<char>> {
    seq!["groupadd"@, "-r"@, user, "-g"@, "1000"@]
}

pub open spec fn useradd_cmd(user: Seq<char>) -> Seq<Seq<char>> {
    seq!["useradd"@, "-u"@, "1000"@, "-g"@, user, user]
}

fn strings(v: Vec<&str>) -> (r: Vec<String>)
    ensures
        view_all(r@) == v@.map_values(|s: &str| s@),
{
    let mut out: Vec<String> = Vec::new();
    let mut i: usize = 0;
    while i < v.len()
        invariant
            0 <= i <= v@.len(),
            view_all(out@) == v@.subrange(0, i as int).map_values(|s: &str| s@),
        decreases v.len() - i,
    {
        let ghost before = out@;
        out.push(v[i].to_owned());
        assert(view_all(out@) =~= view_all(before).push(v@[i as int]@));
        assert(v@.subrange(0, i + 1).map_values(|s: &str| s@) =~= v@.subrange(0, i as int).map_values(
            |s: &str| s@,
        ).push(v@[i as int]@));
        i = i + 1;
    }
    assert(v@.subrange(0, v@.len() as int) == v@);
    out
}

fn account_steps(user: &str) -> (r: (ExecRequest, ExecRequest))
    ensures
        view_all(r.0.cmd@) == group_cmd(user@),
        view_all(r.1.cmd@) == useradd_cmd(user@),
        r.0.user is None && r.0.work_dir is None && !r.0.attach_stdin && r.0.env is None,
        r.1.user is None && r.1.work_dir is None && !r.1.attach_stdin && r.1.env is None,
{
    let v = vec!["groupadd", "-r", user, "-g", "1000"];
    let group = strings(v);
    assert(v@.map_values(|s: &str| s@) =~= group_cmd(user@));
    let v = vec!["useradd", "-u", "1000", "-g", user, user];
    let add = strings(v);
    assert(v@.map_values(|s: &str| s@) =~= useradd_cmd(user@));
    (
        ExecRequest { user: None, work_dir: None, cmd: group, attach_stdin: false, env: None },
        ExecRequest { user: None, work_dir: None, cmd: add, attach_stdin: false, env: None },
    )
}

pub open spec fn has_user(r: ExecRequest, user: Seq<char>) -> bool {
    r.user matches Some(u) && u@ == user
}

pub open spec fn has_work_dir(r: ExecRequest, dir: Seq<char>) -> bool {
    r.work_dir matches Some(d) && d@ == dir
}

pub open spec fn has_env(r: ExecRequest, env: Seq<Seq<char>>) -> bool {
    r.env matches Some(e) && view_all(e@) == env
}

/// The commands that create a Rails project `name` in the scaffold container,
/// in order: create the group and the user `{name}-user`, install Rails, run
/// `rails new` in the user's home directory, and add `pry-rails` to the new
/// project. The gem cache stays inside the container.
pub fn rails_steps(name: &str, api: bool, database: Option<Database>) -> (r: Vec<ExecRequest>)
    ensures
        r@.len() == 5,
        ({
            let user = project_user_of(name@);
            let home = home_of(user);
            &&& view_all(r@[0].cmd@) == group_cmd(user)
            &&& r@[0].user is None && r@[0].work_dir is None && !r@[0].attach_stdin && r@[0].env is None
            &&& view_all(r@[1].cmd@) == useradd_cmd(user)
            &&& r@[1].user is None && r@[1].work_dir is None && !r@[1].attach_stdin && r@[1].env is None
            &&& view_all(r@[2].cmd@) == seq!["gem"@, "install"@, "rails"@, "--no-document"@, "--no-user-install"@]
            &&& has_user(r@[2], user) && r@[2].work_dir is None && !r@[2].attach_stdin && has_env(r@[2], gem_env())
            &&& view_all(r@[3].cmd@) == seq!["rails"@, "new"@, name@, api_flag_of(api), database_flag_of(database)]
            &&& has_user(r@[3], user) && has_work_dir(r@[3], home) && r@[3].attach_stdin && has_env(
                r@[3],
                gem_home_env(),
            )
            &&& view_all(r@[4].cmd@) == seq!["bundle"@, "add"@, "pry-rails"@, "--group=development"@]
            &&& has_user(r@[4], user) && has_work_dir(r@[4], home + "/"@ + name@) && r@[4].attach_stdin
                && has_env(r@[4], gem_home_env())
        }),
{
    let user = project_user(name);
    let home = home_dir(user.as_str());
    let (group, add) = account_steps(user.as_str());
    let v = vec!["gem", "install", "rails", "--no-document", "--no-user-install"];
    let install_cmd = strings(v);
    assert(v@.map_values(|s: &str| s@) =~= seq!["gem"@, "install"@, "rails"@, "--no-document"@, "--no-user-install"@]);
    let v = vec!["GEM_PATH=/tmp/gem", "GEM_SPEC_CACHE=/tmp/gem/cache"];
    let env = strings(v);
    assert(v@.map_values(|s: &str| s@) =~= gem_env());
    let install = ExecRequest {
        user: Some(user.clone()),
        work_dir: None,
        cmd: install_cmd,
        attach_stdin: false,
        env: Some(env),
    };
    let api_opt = api_flag(api);
    let db_opt = database_flag(database);
    let v = vec!["rails", "new", name, api_opt.as_str(), db_opt.as_str()];
    let new_cmd = strings(v);
    assert(v@.map_values(|s: &str| s@) =~= seq!["rails"@, "new"@, name@, api_flag_of(api), database_flag_of(database)]);
    let v = vec!["GEM_PATH=/tmp/gem", "GEM_SPEC_CACHE=/tmp/gem/cache", "HOME=/tmp"];
    let env = strings(v);
    assert(v@.map_values(|s: &str| s@) =~= gem_home_env());
    let create = ExecRequest {
        user: Some(user.clone()),
        work_dir: Some(home.clone()),
        cmd: new_cmd,
        attach_stdin: true,
        env: Some(env),
    };
    let v = vec!["bundle", "add", "pry-rails", "--group=development"];
    let pry_cmd = strings(v);
    assert(v@.map_values(|s: &str| s@) =~= seq!["bundle"@, "add"@, "pry-rails"@, "--group=development"@]);
    let v = vec!["GEM_PATH=/tmp/gem", "GEM_SPEC_CACHE=/tmp/gem/cache", "HOME=/tmp"];
    let env = strings(v);
    assert(v@.map_values(|s: &str| s@) =~= gem_home_env());
    let mut folder = concat(home.as_str(), "/");
    folder.append(name);
    let pry = ExecRequest { user: Some(user), work_dir: Some(folder), cmd: pry_cmd, attach_stdin: true, env: Some(env) };
    vec![group, add, install, create, pry]
}

/// The commands that create a Phoenix project `name` in the scaffold
/// container as `user`, in order: create the group and the user, install Hex
/// and the Phoenix project generator, and run `mix phx.new` in `work_dir`.
pub fn phoenix_steps(name: &str, user: &str, work_dir: &str) -> (r: Vec<ExecRequest>)
    ensures
        r@.len() == 5,
        view_all(r@[0].cmd@) == group_cmd(user@),
        r@[0].user is None && r@[0].work_dir is None && !r@[0].attach_stdin && r@[0].env is None,
        view_all(r@[1].cmd@) == useradd_cmd(user@),
        r@[1].user is None && r@[1].work_dir is None && !r@[1].attach_stdin && r@[1].env is None,
        view_all(r@[2].cmd@) == seq!["mix"@, "local.hex"@, "--force"@],
        has_user(r@[2], user@) && r@[2].work_dir is None && !r@[2].attach_stdin && r@[2].env is None,
        view_all(r@[3].cmd@) == seq!["mix"@, "archive.install"@, "hex"@, "phx_new"@, "--force"@],
        has_user(r@[3], user@) && r@[3].work_dir is None && !r@[3].attach_stdin && r@[3].env is None,
        view_all(r@[4].cmd@) == seq!["mix"@, "phx.new"@, name@, "--install"@],
        has_user(r@[4], user@) && has_work_dir(r@[4], work_dir@) && r@[4].attach_stdin && r@[4].env is None,
{
    let (group, add) = account_steps(user);
    let v = vec!["mix", "local.hex", "--force"];
    let hex_cmd = strings(v);
    assert(v@.map_values(|s: &str| s@) =~= seq!["mix"@, "local.hex"@, "--force"@]);
    let v = vec!["mix", "archive.install", "hex", "phx_new", "--force"];
    let phx_cmd = strings(v);
    assert(v@.map_values(|s: &str| s@) =~= seq!["mix"@, "archive.install"@, "hex"@, "phx_new"@, "--force"@]);
    let v = vec!["mix", "phx.new", name, "--install"];
    let new_cmd = strings(v);
    assert(v@.map_values(|s: &str| s@) =~= seq!["mix"@, "phx.new"@, name@, "--install"@]);
    let hex = ExecRequest { user: Some(user.to_owned()), work_dir: None, cmd: hex_cmd, attach_stdin: false, env: None };
    let phx = ExecRequest { user: Some(user.to_owned()), work_dir: None, cmd: phx_cmd, attach_stdin: false, env: None };
    let create = ExecRequest {
        user: Some(user.to_owned()),
        work_dir: Some(work_dir.to_owned()),
        cmd: new_cmd,
        attach_stdin: true,
        env: None,
    };
    vec![group, add, hex, phx, create]
}

} // verus!
