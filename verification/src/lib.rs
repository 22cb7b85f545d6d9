pub mod command;
pub mod redirection;
pub mod session;
pub mod text;
pub mod tokenization;

use vstd::prelude::*;

use crate::command::spec_execute;
use crate::command::spec_parse;
use crate::command::Action;
use crate::command::ActionView;
use crate::command::Command;
use crate::redirection::spec_split_redirections;
use crate::redirection::split_redirections;
use crate::session::ShellState;
use crate::text::spec_trim;
use crate::text::trim_spaces;
use crate::tokenization::spec_tokenize;
use crate::tokenization::tokenize;

verus! {

/// Everything one input line asks of the process: where each output stream
/// goes, and the action of the command the line held, if any.
pub struct LinePlan {
    pub stdout_redirect: Option<String>,
    pub stderr_redirect: Option<String>,
    pub action: Option<Action>,
}

/// The plan of a whole raw line: trim it, tokenize it, split off the
/// redirections, classify the command tokens, and decide the action against
/// the session state. The triple is (stdout destination, stderr destination,
/// action).
pub open spec fn spec_run(line: Seq<char>, cwd: Seq<char>, home: Seq<char>) -> (
    Option<Seq<char>>,
    Option<Seq<char>>,
    Option<ActionView>,
) {
    let toks = spec_tokenize(spec_trim(line));
    let split = spec_split_redirections(toks);
    let act = match spec_parse(split.0) {
        Some(c) => Some(spec_execute(c, cwd, home)),
        None => None,
    };
    (split.1, split.2, act)
}

/// Turn one raw input line into its plan against the current session.
pub fn run(line: &str, st: &ShellState) -> (p: LinePlan)
    ensures
        ({
            let s = spec_run(line@, st.cwd@, st.home@);
            &&& p.stdout_redirect.deep_view() == s.0
            &&& p.stderr_redirect.deep_view() == s.1
            &&& match p.action {
                Some(a) => s.2 == Some(a@),
                None => s.2 is None,
            }
        }),
{
    let trimmed = trim_spaces(line);
    let toks = tokenize(trimmed.as_str());
    let (cmd_toks, stdout_redirect, stderr_redirect) = split_redirections(&toks);
    let action = match Command::parse(&cmd_toks) {
        Some(c) => Some(c.execute(st)),
        None => None,
    };
    LinePlan { stdout_redirect, stderr_redirect, action }
}

} // verus!
