use wizard::exec::{exec_end, passthrough_request, shell_request, shell_target, shell_user, ExecEnd, ExecTarget};
use wizard::naming::Project;

#[test]
fn shell_defaults() {
    let p = Project::from_dir("/home/dev/shop").unwrap();
    assert_eq!(shell_user(&p, None), "shop-user");
    assert_eq!(shell_user(&p, Some("root".to_string())), "root");
    assert!(matches!(shell_target(&p, None), ExecTarget::Main(n) if n == "shop-shop-e828acfc792e"));
    assert!(matches!(shell_target(&p, Some("c1".to_string())), ExecTarget::Named(n) if n == "c1"));
    let r = shell_request(&p, None);
    assert_eq!(r.cmd, vec!["bash".to_string()]);
    assert_eq!(r.user.as_deref(), Some("shop-user"));
    assert!(r.attach_stdin);
}

#[test]
fn rails_passthrough() {
    let p = Project::from_dir("/home/dev/shop").unwrap();
    let r = passthrough_request(&p, Some("rails"), vec!["db:migrate".to_string()]);
    assert_eq!(r.cmd, vec!["rails".to_string(), "db:migrate".to_string()]);
    let r = passthrough_request(&p, None, vec!["mix".to_string(), "test".to_string()]);
    assert_eq!(r.cmd, vec!["mix".to_string(), "test".to_string()]);
    assert_eq!(r.user.as_deref(), Some("shop-user"));
}

#[test]
fn exec_ends() {
    assert_eq!(exec_end(Some(0)), ExecEnd::Succeeded);
    assert_eq!(exec_end(Some(2)), ExecEnd::Failed);
    assert_eq!(exec_end(None), ExecEnd::StillRunning);
}
