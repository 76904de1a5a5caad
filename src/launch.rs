//! Turning a resolved command line into a program name and its arguments.
use vstd::prelude::*;

use crate::text::{split_words, string_views, words};

verus! {

/// A program to run and the arguments to hand it.
pub struct LaunchCommand {
    pub program: String,
    pub args: Vec<String>,
}

/// Why a command line cannot be launched.
#[derive(Clone, Copy, Debug, PartialEq, Eq, Structural)]
pub enum LaunchError {
    /// The command line holds no word, so there is no program to run.
    EmptyCommand,
}

/// Splits `command_line` on whitespace (no quoting): the first word names the program,
/// the others are its arguments.
pub fn parse_command_line(command_line: &str) -> (r: Result<LaunchCommand, LaunchError>)
    ensures
        r is Err <==> words(command_line@).len() == 0,
        r matches Ok(c) ==> c.program@ == words(command_line@)[0] && string_views(c.args@)
            == words(command_line@).drop_first(),
{
    let mut ws = split_words(command_line);
    if ws.len() == 0 {
        return Err(LaunchError::EmptyCommand);
    }
    let ghost all = string_views(ws@);
    let program = ws.remove(0);
    assert(string_views(ws@) =~= all.drop_first());
    Ok(LaunchCommand { program, args: ws })
}

} // verus!
