use wizard::scaffold::{
    api_flag, database_flag, home_dir, phoenix_steps, project_user, rails_steps, scaffold_bind, sqlite_install_line,
    Database,
};

#[test]
fn rails_options() {
    assert_eq!(api_flag(true), "--api");
    assert_eq!(api_flag(false), "");
    assert_eq!(database_flag(Some(Database::Postgresql)), "--database=postgresql");
    assert_eq!(database_flag(Some(Database::Mysql)), "--database=mysql");
    assert_eq!(database_flag(Some(Database::Sqlite3)), "--database=sqlite3");
    assert_eq!(database_flag(None), "--skip-active-record");
    assert_eq!(sqlite_install_line(Some(Database::Sqlite3)), "RUN apt-get update && apt-get install -y sqlite3");
    assert_eq!(sqlite_install_line(Some(Database::Mysql)), "");
}

#[test]
fn scaffold_paths() {
    assert_eq!(project_user("blog"), "blog-user");
    assert_eq!(home_dir("blog-user"), "/home/blog-user");
    assert_eq!(scaffold_bind("/src", "/home/blog-user"), "/src:/home/blog-user:rw");
}

#[test]
fn rails_scaffold_steps() {
    let s = rails_steps("blog", true, Some(Database::Postgresql));
    assert_eq!(s.len(), 5);
    assert_eq!(s[0].cmd, vec!["groupadd", "-r", "blog-user", "-g", "1000"]);
    assert_eq!(s[1].cmd, vec!["useradd", "-u", "1000", "-g", "blog-user", "blog-user"]);
    assert_eq!(s[3].cmd, vec!["rails", "new", "blog", "--api", "--database=postgresql"]);
    assert_eq!(s[3].work_dir.as_deref(), Some("/home/blog-user"));
    assert_eq!(s[4].work_dir.as_deref(), Some("/home/blog-user/blog"));
    assert_eq!(s[4].env.as_ref().unwrap().len(), 3);
}

#[test]
fn phoenix_scaffold_steps() {
    let s = phoenix_steps("chat", "me", "/home/me");
    assert_eq!(s[2].cmd, vec!["mix", "local.hex", "--force"]);
    assert_eq!(s[4].cmd, vec!["mix", "phx.new", "chat", "--install"]);
    assert_eq!(s[4].user.as_deref(), Some("me"));
    assert!(s[4].attach_stdin);
}
