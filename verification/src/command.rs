use vstd::prelude::*;

use crate::session::ShellState;
use crate::text::str_eq;

verus! {

/// The builtin name set: every member maps to exactly one `Command` variant;
/// any other first token yields `External`.
pub open spec fn is_builtin_name(t: Seq<char>) -> bool {
    t == "exit"@ || t == "echo"@ || t == "type"@ || t == "pwd"@ || t == "cd"@
}

/// Membership in the builtin name set, matched case-sensitively.
pub fn is_builtin(s: &str) -> (r: bool)
    ensures
        r == is_builtin_name(s@),
{
    str_eq(s, "exit") || str_eq(s, "echo") || str_eq(s, "type") || str_eq(s, "pwd")
        || str_eq(s, "cd")
}

/// Ghost image of a parsed command.
pub enum CommandView {
    Exit,
    Echo(Seq<Seq<char>>),
    Pwd,
    Type(Seq<char>),
    Cd(Option<Seq<char>>),
    External(Seq<char>, Seq<Seq<char>>),
}

/// One parsed command line: a builtin, or an external-process invocation.
#[derive(Debug, PartialEq)]
pub enum Command {
    Exit,
    Echo(Vec<String>),
    Pwd,
    Type(String),
    Cd(Option<String>),
    External(String, Vec<String>),
}

impl View for Command {
    type V = CommandView;

    open spec fn view(&self) -> CommandView {
        match self {
            Command::Exit => CommandView::Exit,
            Command::Echo(args) => CommandView::Echo(args.deep_view()),
            Command::Pwd => CommandView::Pwd,
            Command::Type(t) => CommandView::Type(t@),
            Command::Cd(t) => CommandView::Cd(t.deep_view()),
            Command::External(n, a) => CommandView::External(n@, a.deep_view()),
        }
    }
}

/// How a command-token sequence is classified. The first token selects the
/// variant; everything unmatched becomes an external invocation. `type` with
/// no argument yields no command at all (a parse failure, kept silent), and a
/// `cd` target of `~` means "no target", resolved to home at execution time.
pub open spec fn spec_parse(parts: Seq<Seq<char>>) -> Option<CommandView> {
    if parts.len() == 0 {
        None
    } else {
        let cmd = parts[0];
        let args = parts.skip(1);
        if cmd == "exit"@ {
            Some(CommandView::Exit)
        } else if cmd == "echo"@ {
            Some(CommandView::Echo(args))
        } else if cmd == "pwd"@ {
            Some(CommandView::Pwd)
        } else if cmd == "type"@ {
            if args.len() == 0 {
                None
            } else {
                Some(CommandView::Type(args[0]))
            }
        } else if cmd == "cd"@ {
            if args.len() == 0 || args[0] == "~"@ {
                Some(CommandView::Cd(None))
            } else {
                Some(CommandView::Cd(Some(args[0])))
            }
        } else {
            Some(CommandView::External(cmd, args))
        }
    }
}

/// Law: a first token outside the builtin set always classifies as an
/// external invocation of that token, with the remaining tokens as its
/// arguments, in order.
pub proof fn lemma_non_builtin_is_external(parts: Seq<Seq<char>>)
    requires
        parts.len() > 0,
        !is_builtin_name(parts[0]),
    ensures
        spec_parse(parts) == Some(CommandView::External(parts[0], parts.skip(1))),
{
}

/// Ghost image of an executor action.
pub enum ActionView {
    Terminate,
    WriteOut(Seq<char>),
    LookupPath(Seq<char>),
    ChangeDir(Seq<char>),
    Spawn(Seq<char>, Seq<Seq<char>>),
}

/// What executing a command asks of the surrounding process: stop, write a
/// line through the stdout sink, look a name up on PATH and report it, change
/// the working directory, or spawn an external process.
#[derive(Debug, PartialEq)]
pub enum Action {
    Terminate,
    WriteOut(String),
    LookupPath(String),
    ChangeDir(String),
    Spawn(String, Vec<String>),
}

impl View for Action {
    type V = ActionView;

    open spec fn view(&self) -> ActionView {
        match self {
            Action::Terminate => ActionView::Terminate,
            Action::WriteOut(s) => ActionView::WriteOut(s@),
            Action::LookupPath(s) => ActionView::LookupPath(s@),
            Action::ChangeDir(s) => ActionView::ChangeDir(s@),
            Action::Spawn(n, a) => ActionView::Spawn(n@, a.deep_view()),
        }
    }
}

/// Arguments joined with single spaces, as `echo` prints them.
pub open spec fn spec_join(args: Seq<Seq<char>>) -> Seq<char>
    decreases args.len(),
{
    if args.len() == 0 {
        Seq::empty()
    } else if args.len() == 1 {
        args[0]
    } else {
        args[0] + " "@ + spec_join(args.skip(1))
    }
}

proof fn lemma_join_snoc(args: Seq<Seq<char>>, x: Seq<char>)
    ensures
        spec_join(args.push(x)) == if args.len() == 0 {
            x
        } else {
            spec_join(args) + " "@ + x
        },
    decreases args.len(),
{
    if args.len() == 0 {
        assert(args.push(x)[0] == x);
    } else if args.len() == 1 {
        assert(args.push(x).skip(1) =~= seq![x]);
        assert(spec_join(seq![x]) == x);
    } else {
        assert(args.push(x).skip(1) =~= args.skip(1).push(x));
        lemma_join_snoc(args.skip(1), x);
        assert(args[0] + " "@ + (spec_join(args.skip(1)) + " "@ + x) =~= (args[0] + " "@
            + spec_join(args.skip(1))) + " "@ + x);
    }
}

/// Join arguments with single spaces.
pub fn join_args(args: &Vec<String>) -> (r: String)
    ensures
        r@ == spec_join(args.deep_view()),
{
    let ghost dv = args.deep_view();
    let mut out = String::new();
    let mut i: usize = 0;
    while i < args.len()
        invariant
            dv == args.deep_view(),
            i <= args@.len(),
            out@ == spec_join(dv.take(i as int)),
        decreases args@.len() - i,
    {
        if i > 0 {
            out.append(" ");
        }
        out.append(args[i].as_str());
        proof {
            assert(dv[i as int] == args@[i as int]@);
            assert(dv.take(i as int).push(dv[i as int]) =~= dv.take(i as int + 1));
            lemma_join_snoc(dv.take(i as int), dv[i as int]);
            if i == 0 {
                assert(Seq::<char>::empty() + dv[0] =~= dv[0]);
            }
        }
        i = i + 1;
    }
    proof {
        assert(dv.take(args@.len() as int) =~= dv);
    }
    out
}

/// The report line for a builtin name.
pub open spec fn spec_builtin_message(name: Seq<char>) -> Seq<char> {
    name + " is a shell builtin"@
}

/// The `type` report for a non-builtin name, given the PATH lookup's result.
pub open spec fn spec_type_lookup_message(name: Seq<char>, found: Option<Seq<char>>) -> Seq<char> {
    match found {
        Some(path) => name + " is "@ + path,
        None => name + ": not found"@,
    }
}

/// The `type` report for a name outside the builtin set: where it was found
/// on PATH, or that it was not.
pub fn type_lookup_message(name: &str, found: &Option<String>) -> (r: String)
    ensures
        r@ == spec_type_lookup_message(name@, found.deep_view()),
{
    let mut m = String::from_str(name);
    match found {
        Some(path) => {
            m.append(" is ");
            m.append(path.as_str());
        },
        None => {
            m.append(": not found");
        },
    }
    m
}

/// The diagnostic for a spawn failure or an unexecutable binary.
pub open spec fn spec_not_found_message(name: Seq<char>) -> Seq<char> {
    name + ": command not found"@
}

/// The diagnostic written when an external command cannot be spawned.
pub fn spawn_failure_message(name: &str) -> (r: String)
    ensures
        r@ == spec_not_found_message(name@),
{
    let mut m = String::from_str(name);
    m.append(": command not found");
    m
}

fn clone_all(v: &Vec<String>) -> (r: Vec<String>)
    ensures
        r@ == v@,
{
    let mut r: Vec<String> = Vec::new();
    let mut i: usize = 0;
    while i < v.len()
        invariant
            i <= v@.len(),
            r@ =~= v@.take(i as int),
        decreases v@.len() - i,
    {
        r.push(v[i].clone());
        i = i + 1;
    }
    proof {
        assert(v@.take(v@.len() as int) =~= v@);
    }
    r
}

fn tail_of(parts: &Vec<String>) -> (args: Vec<String>)
    requires
        parts@.len() >= 1,
    ensures
        args.deep_view() == parts.deep_view().skip(1),
{
    let mut args: Vec<String> = Vec::new();
    let mut i: usize = 1;
    while i < parts.len()
        invariant
            1 <= i <= parts@.len(),
            args@.len() == i - 1,
            forall|j: int| 0 <= j < i - 1 ==> #[trigger] args@[j]@ == parts.deep_view()[j + 1],
        decreases parts@.len() - i,
    {
        args.push(parts[i].clone());
        i = i + 1;
    }
    proof {
        assert(args.deep_view() =~= parts.deep_view().skip(1));
    }
    args
}

/// What executing a command asks of the process, given the session's working
/// directory and home directory.
pub open spec fn spec_execute(c: CommandView, cwd: Seq<char>, home: Seq<char>) -> ActionView {
    match c {
        CommandView::Exit => ActionView::Terminate,
        CommandView::Echo(args) => ActionView::WriteOut(spec_join(args)),
        CommandView::Pwd => ActionView::WriteOut(cwd),
        CommandView::Type(name) => if is_builtin_name(name) {
            ActionView::WriteOut(spec_builtin_message(name))
        } else {
            ActionView::LookupPath(name)
        },
        CommandView::Cd(target) => ActionView::ChangeDir(
            match target {
                Some(dir) => dir,
                None => home,
            },
        ),
        CommandView::External(name, args) => ActionView::Spawn(name, args),
    }
}

/// A run of the colon splitter: `cur` is the entry being accumulated, `acc`
/// the entries already cut. The entry after the last colon is always emitted,
/// so an empty list yields one empty entry.
pub open spec fn split_colon_from(s: Seq<char>, cur: Seq<char>, acc: Seq<Seq<char>>) -> Seq<
    Seq<char>,
>
    decreases s.len(),
{
    if s.len() == 0 {
        acc.push(cur)
    } else if s[0] == ':' {
        split_colon_from(s.skip(1), Seq::empty(), acc.push(cur))
    } else {
        split_colon_from(s.skip(1), cur.push(s[0]), acc)
    }
}

/// The entries of a colon-separated path list, in listed order, empty
/// entries kept.
pub open spec fn spec_split_paths(s: Seq<char>) -> Seq<Seq<char>> {
    split_colon_from(s, Seq::empty(), Seq::empty())
}

/// Cut a `PATH`-style colon-separated list into its directories, in listed
/// order: the order in which a lookup must probe them, first match winning.
pub fn split_path_list(s: &str) -> (r: Vec<String>)
    ensures
        r.deep_view() == spec_split_paths(s@),
{
    let cs = crate::text::str_to_chars(s);
    let n = cs.len();
    let mut acc: Vec<String> = Vec::new();
    let mut cur: Vec<char> = Vec::new();
    let mut i: usize = 0;
    proof {
        assert(acc.deep_view() =~= Seq::<Seq<char>>::empty());
        assert(cs@.skip(0) =~= cs@);
    }
    while i < n
        invariant
            n == cs@.len(),
            cs@ == s@,
            i <= n,
            split_colon_from(cs@.skip(i as int), cur@, acc.deep_view()) == spec_split_paths(s@),
        decreases n - i,
    {
        proof {
            assert(cs@.skip(i as int)[0] == cs@[i as int]);
            assert(cs@.skip(i as int).skip(1) =~= cs@.skip(i as int + 1));
        }
        let c = cs[i];
        if c == ':' {
            let ghost pre = acc.deep_view();
            let ghost cur_v = cur@;
            acc.push(crate::text::chars_to_string(&cur));
            cur = Vec::new();
            proof {
                assert(acc.deep_view() =~~= pre.push(cur_v));
            }
        } else {
            cur.push(c);
        }
        i = i + 1;
    }
    proof {
        assert(cs@.skip(n as int) =~= Seq::<char>::empty());
    }
    let ghost pre = acc.deep_view();
    let ghost cur_v = cur@;
    acc.push(crate::text::chars_to_string(&cur));
    proof {
        assert(acc.deep_view() =~~= pre.push(cur_v));
    }
    acc
}

/// Whether a permission mode grants execution to anyone: at least one of the
/// owner, group or other execute bits is set.
pub fn has_exec_permission(mode: u32) -> (r: bool)
    ensures
        r == ((mode & 0o111) != 0),
{
    mode & 0o111 != 0
}

impl Command {
    /// Classify command tokens into a command, or into nothing for an empty
    /// token sequence or a bare `type`.
    pub fn parse(parts: &Vec<String>) -> (r: Option<Command>)
        ensures
            match r {
                Some(c) => spec_parse(parts.deep_view()) == Some(c@),
                None => spec_parse(parts.deep_view()) is None,
            },
    {
        if parts.len() == 0 {
            return None;
        }
        proof {
            assert(parts.deep_view()[0] == parts@[0]@);
        }
        let cmd = &parts[0];
        let args = tail_of(parts);
        if str_eq(cmd.as_str(), "exit") {
            Some(Command::Exit)
        } else if str_eq(cmd.as_str(), "echo") {
            Some(Command::Echo(args))
        } else if str_eq(cmd.as_str(), "pwd") {
            Some(Command::Pwd)
        } else if str_eq(cmd.as_str(), "type") {
            if args.len() == 0 {
                None
            } else {
                proof {
                    assert(args.deep_view()[0] == args@[0]@);
                }
                Some(Command::Type(args[0].clone()))
            }
        } else if str_eq(cmd.as_str(), "cd") {
            if args.len() == 0 {
                Some(Command::Cd(None))
            } else {
                proof {
                    assert(args.deep_view()[0] == args@[0]@);
                }
                if str_eq(args[0].as_str(), "~") {
                    Some(Command::Cd(None))
                } else {
                    Some(Command::Cd(Some(args[0].clone())))
                }
            }
        } else {
            Some(Command::External(cmd.clone(), args))
        }
    }

    /// Decide the action a command performs. `exit` stops the interpreter;
    /// `echo` writes its joined arguments; `pwd` writes the session's working
    /// directory; `type` of a builtin writes the report line and of anything
    /// else asks for a PATH lookup; `cd` resolves a missing target to home;
    /// an external command asks for a spawn.
    pub fn execute(&self, st: &ShellState) -> (a: Action)
        ensures
            a@ == spec_execute(self@, st.cwd@, st.home@),
    {
        match self {
            Command::Exit => Action::Terminate,
            Command::Echo(args) => Action::WriteOut(join_args(args)),
            Command::Pwd => Action::WriteOut(st.cwd.clone()),
            Command::Type(name) => {
                if is_builtin(name.as_str()) {
                    let mut m = name.clone();
                    m.append(" is a shell builtin");
                    Action::WriteOut(m)
                } else {
                    Action::LookupPath(name.clone())
                }
            },
            Command::Cd(target) => match target {
                Some(dir) => Action::ChangeDir(dir.clone()),
                None => Action::ChangeDir(st.home.clone()),
            },
            Command::External(name, args) => Action::Spawn(name.clone(), clone_all(args)),
        }
    }
}

} // verus!
