use wizard::command::{args_from_split, command_args, ComposeCommand};
use wizard::error::ComposeError;

#[test]
fn string_command_is_split_like_a_shell() {
    let c = Some(ComposeCommand::Text("bash -c 'echo hi'".to_string()));
    let args = command_args("web", &c).unwrap().unwrap();
    assert_eq!(args, vec!["bash".to_string(), "-c".to_string(), "echo hi".to_string()]);
}

#[test]
fn double_quoted_command() {
    let c = Some(ComposeCommand::Text(
        "bash -c \"rm -f tmp/pids/server.pid && bundle exec rails s -p 3000 -b '0.0.0.0'\"".to_string(),
    ));
    let args = command_args("web", &c).unwrap().unwrap();
    assert_eq!(args.len(), 3);
    assert_eq!(args[2], "rm -f tmp/pids/server.pid && bundle exec rails s -p 3000 -b '0.0.0.0'");
}

#[test]
fn unclosed_quote_gives_no_command() {
    let c = Some(ComposeCommand::Text("echo 'oops".to_string()));
    assert_eq!(command_args("web", &c).unwrap(), None);
}

#[test]
fn missing_command() {
    assert_eq!(command_args("web", &None).unwrap(), None);
}

#[test]
fn list_command_is_unsupported() {
    let c = Some(ComposeCommand::Args(vec!["--flag".to_string()]));
    assert_eq!(command_args("db", &c).err(), Some(ComposeError::UnsupportedCommand("db".to_string())));
}

#[test]
fn split_outcome_to_args() {
    assert_eq!(args_from_split(Ok(vec!["a".to_string()])), Some(vec!["a".to_string()]));
    assert_eq!(args_from_split(Err(shell_words::ParseError)), None);
}
