//! The argument vector of a service's container, from its compose `command`.
use crate::error::ComposeError;
use crate::text::view_all;
use vstd::prelude::*;

verus! {

/// shell_words::ParseError, the error of an unclosed quote, carried as an
/// opaque value.
#[verifier::external_type_specification]
#[verifier::external_body]
pub struct ExParseError(shell_words::ParseError);

/// The words of `s` split as a POSIX shell splits them, or `None` where a
/// quote is left open.
pub uninterp spec fn shell_words_of(s: Seq<char>) -> Option<Seq<Seq<char>>>;

/// Relies on shell_words::split: the words of `s` as a shell splits them, or
/// its `ParseError` for an unclosed quote; an empty text has no words.
#[verifier::external_body]
fn shell_split(s: &str) -> (r: Result<Vec<String>, shell_words::ParseError>)
    ensures
        r matches Ok(v) ==> shell_words_of(s@) == Some(view_all(v@)),
        r is Err ==> shell_words_of(s@) is None,
        r matches Ok(v) ==> (s@.len() == 0 ==> v@.len() == 0),
        r is Err ==> s@.len() > 0,
{
    shell_words::split(s)
}

/// A compose `command`: a shell-style string, or a list of arguments.
pub enum ComposeCommand {
    Text(String),
    Args(Vec<String>),
}

/// The argument vector taken from the outcome of splitting a command string:
/// the words, or no command at all where the string could not be split.
pub fn args_from_split(split: Result<Vec<String>, shell_words::ParseError>) -> (r: Option<Vec<String>>)
    ensures
        split is Err <==> r is None,
        split matches Ok(v) ==> (r matches Some(w) && w@ == v@),
{
    match split {
        Ok(v) => Some(v),
        Err(_) => None,
    }
}

/// The argument vector of the container of service `service`: none without a
/// `command`; the shell words of a string command (none where a quote is left
/// open); a command in list form is not supported.
pub fn command_args(service: &str, command: &Option<ComposeCommand>) -> (r: Result<Option<Vec<String>>, ComposeError>)
    ensures
        command is None ==> (r matches Ok(a) && a is None),
        command matches Some(ComposeCommand::Args(_)) ==> (r matches Err(e) && (e matches ComposeError::UnsupportedCommand(n)
            && n@ == service@)),
        command matches Some(ComposeCommand::Text(t)) ==> (r matches Ok(a) && match a {
            Some(w) => shell_words_of(t@) == Some(view_all(w@)),
            None => shell_words_of(t@) is None,
        }),
{
    match command {
        None => Ok(None),
        Some(ComposeCommand::Args(_)) => Err(ComposeError::UnsupportedCommand(service.to_owned())),
        Some(ComposeCommand::Text(t)) => Ok(args_from_split(shell_split(t.as_str()))),
    }
}

} // verus!
