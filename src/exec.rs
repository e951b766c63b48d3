//! Commands run inside a project's containers: the interactive shell, the
//! `rails` / `phoenix` passthrough commands, and how an exec session ended.
use crate::naming::{container_name_of, user_name_of, Project};
use crate::text::view_all;
use vstd::prelude::*;

verus! {

/// A command to run in a container through an exec session.
pub struct ExecRequest {
    /// The user to run as; `None` for the container's own.
    pub user: Option<String>,
    /// The working directory; `None` for the container's own.
    pub work_dir: Option<String>,
    /// The argument vector.
    pub cmd: Vec<String>,
    /// Whether local input is relayed to the command.
    pub attach_stdin: bool,
    /// Extra `KEY=value` environment entries.
    pub env: Option<Vec<String>>,
}

/// Which container a shell or passthrough command runs in.
pub enum ExecTarget {
    /// The running container of this name, looked up by the engine.
    Named(String),
    /// The project's main container, addressed by its deterministic name.
    Main(String),
}

/// The user a shell runs as: the one given, else the project's user.
pub fn shell_user(project: &Project, user: Option<String>) -> (r: String)
    ensures
        user matches Some(u) ==> r@ == u@,
        user is None ==> r@ == user_name_of(project.name@),
{
    match user {
        Some(u) => u,
        None => project.user_name(),
    }
}

/// The container a shell runs in: the one named, else the project's main
/// container.
pub fn shell_target(project: &Project, container_name: Option<String>) -> (r: ExecTarget)
    ensures
        container_name matches Some(n) ==> (r matches ExecTarget::Named(m) && m@ == n@),
        container_name is None ==> (r matches ExecTarget::Main(m) && m@ == container_name_of(
            project.name@,
            project.name@,
            project.hash@,
        )),
{
    match container_name {
        Some(n) => ExecTarget::Named(n),
        None => ExecTarget::Main(project.main_container_name()),
    }
}

/// The interactive shell: `bash` as the resolved user, with local input.
pub fn shell_request(project: &Project, user: Option<String>) -> (r: ExecRequest)
    ensures
        user matches Some(u) ==> (r.user matches Some(v) && v@ == u@),
        user is None ==> (r.user matches Some(v) && v@ == user_name_of(project.name@)),
        view_all(r.cmd@) == seq!["bash"@],
        r.attach_stdin,
        r.work_dir is None,
        r.env is None,
{
    let u = shell_user(project, user);
    let cmd = vec!["bash".to_owned()];
    assert(view_all(cmd@) =~= seq!["bash"@]);
    ExecRequest { user: Some(u), work_dir: None, cmd, attach_stdin: true, env: None }
}

/// A passthrough command in the project's main container, as the project's
/// user and with local input: `prefix` (if any) followed by `args`.
pub fn passthrough_request(project: &Project, prefix: Option<&str>, args: Vec<String>) -> (r: ExecRequest)
    ensures
        r.user matches Some(v) && v@ == user_name_of(project.name@),
        view_all(r.cmd@) == match prefix {
            Some(p) => seq![p@] + view_all(args@),
            None => view_all(args@),
        },
        r.attach_stdin,
        r.work_dir is None,
        r.env is None,
{
    let mut cmd: Vec<String> = Vec::new();
    match prefix {
        Some(p) => cmd.push(p.to_owned()),
        None => {},
    }
    let ghost start = cmd@;
    let mut i: usize = 0;
    while i < args.len()
        invariant
            0 <= i <= args@.len(),
            cmd@.len() == start.len() + i,
            view_all(cmd@) == view_all(start) + view_all(args@.subrange(0, i as int)),
        decreases args.len() - i,
    {
        let ghost before = cmd@;
        cmd.push(args[i].clone());
        assert(view_all(cmd@) =~= view_all(before).push(args@[i as int]@));
        assert(view_all(args@.subrange(0, i + 1)) =~= view_all(args@.subrange(0, i as int)).push(args@[i as int]@));
        i = i + 1;
    }
    assert(args@.subrange(0, args@.len() as int) == args@);
    proof {
        match prefix {
            Some(p) => {
                assert(view_all(start) =~= seq![p@]);
            },
            None => {
                assert(view_all(start) =~= Seq::<Seq<char>>::empty());
                assert(view_all(cmd@) =~= view_all(args@));
            },
        }
    }
    ExecRequest { user: Some(project.user_name()), work_dir: None, cmd, attach_stdin: true, env: None }
}

/// How an exec session ended, as far as the engine reported an exit code.
#[derive(Debug, Clone, Copy, PartialEq, Eq, Structural)]
pub enum ExecEnd {
    /// The command exited with status 0.
    Succeeded,
    /// The command exited with another status: the session failed.
    Failed,
    /// No exit code yet: the session's terminal is resized to the local one.
    StillRunning,
}

/// The end of an exec session, from the exit code the engine reported.
pub fn exec_end(exit_code: Option<i64>) -> (r: ExecEnd)
    ensures
        exit_code is None <==> r == ExecEnd::StillRunning,
        exit_code matches Some(c) ==> (c == 0 <==> r == ExecEnd::Succeeded),
        exit_code matches Some(c) ==> (c != 0 <==> r == ExecEnd::Failed),
{
    match exit_code {
        None => ExecEnd::StillRunning,
        Some(c) => if c == 0 {
            ExecEnd::Succeeded
        } else {
            ExecEnd::Failed
        },
    }
}

} // verus!
