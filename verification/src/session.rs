use vstd::prelude::*;

use crate::command::spec_execute;
use crate::command::ActionView;
use crate::command::CommandView;

verus! {

/// The diagnostic written when a directory change fails.
pub open spec fn spec_cd_error(dir: Seq<char>) -> Seq<char> {
    "cd: "@ + dir + ": No such file or directory"@
}

/// What recording a directory-change outcome does to the session: on success
/// the reported directory becomes the working directory; on failure nothing
/// changes and the diagnostic is produced.
pub open spec fn spec_apply_cd(
    cwd: Seq<char>,
    attempted: Seq<char>,
    outcome: Option<Seq<char>>,
) -> (Seq<char>, Option<Seq<char>>) {
    match outcome {
        Some(reported) => (reported, None),
        None => (cwd, Some(spec_cd_error(attempted))),
    }
}

/// The interpreter's one piece of shared mutable state: the current working
/// directory, read by `pwd`, together with the home directory read at
/// start-up. `cd` is the sole mutator of the working directory.
pub struct ShellState {
    pub cwd: String,
    pub home: String,
}

impl ShellState {
    /// A session rooted at the given working directory and home.
    pub fn new(cwd: String, home: String) -> (st: ShellState)
        ensures
            st.cwd == cwd,
            st.home == home,
    {
        ShellState { cwd, home }
    }

    /// Record the outcome of an attempted directory change. On success the
    /// directory the process reports becomes the session's working directory
    /// and there is no diagnostic; on failure the session is unchanged and
    /// the diagnostic names the attempted target.
    pub fn apply_cd(&mut self, attempted: &str, outcome: Option<String>) -> (diag: Option<String>)
        ensures
            final(self).home == old(self).home,
            ({
                let stepped = spec_apply_cd(old(self).cwd@, attempted@, outcome.deep_view());
                &&& final(self).cwd@ == stepped.0
                &&& diag.deep_view() == stepped.1
            }),
            outcome is None ==> final(self).cwd == old(self).cwd,
    {
        match outcome {
            Some(reported) => {
                self.cwd = reported;
                None
            },
            None => {
                let mut m = String::from_str("cd: ");
                m.append(attempted);
                m.append(": No such file or directory");
                Some(m)
            },
        }
    }
}

/// Law: a successful directory change followed by `pwd` prints exactly the
/// directory the change arrived at, whatever the session held before.
pub proof fn lemma_cd_then_pwd(
    cwd: Seq<char>,
    home: Seq<char>,
    attempted: Seq<char>,
    reported: Seq<char>,
)
    ensures
        ({
            let stepped = spec_apply_cd(cwd, attempted, Some(reported));
            spec_execute(CommandView::Pwd, stepped.0, home) == ActionView::WriteOut(reported)
        }),
{
}

/// Law: a failed directory change leaves the working directory unchanged and
/// yields the diagnostic that names the attempted target.
pub proof fn lemma_cd_failure_preserves_cwd(cwd: Seq<char>, attempted: Seq<char>)
    ensures
        spec_apply_cd(cwd, attempted, None).0 == cwd,
        spec_apply_cd(cwd, attempted, None).1 == Some(spec_cd_error(attempted)),
{
}

} // verus!
