use shell_core::command::has_exec_permission;
use shell_core::command::is_builtin;
use shell_core::command::join_args;
use shell_core::command::spawn_failure_message;
use shell_core::command::split_path_list;
use shell_core::command::type_lookup_message;
use shell_core::command::Action;
use shell_core::command::Command;
use shell_core::session::ShellState;

fn strs(parts: &[&str]) -> Vec<String> {
    parts.iter().map(|s| s.to_string()).collect()
}

fn state() -> ShellState {
    ShellState::new("/work".to_string(), "/home/user".to_string())
}

#[test]
fn builtin_set_is_exactly_the_five() {
    assert!(is_builtin("exit"));
    assert!(is_builtin("echo"));
    assert!(is_builtin("type"));
    assert!(is_builtin("pwd"));
    assert!(is_builtin("cd"));
    assert!(!is_builtin("ls"));
    assert!(!is_builtin("Echo"));
    assert!(!is_builtin(""));
}

#[test]
fn parse_empty_is_no_command() {
    assert_eq!(Command::parse(&Vec::new()), None);
}

#[test]
fn parse_builtins() {
    assert_eq!(Command::parse(&strs(&["exit"])), Some(Command::Exit));
    assert_eq!(Command::parse(&strs(&["pwd"])), Some(Command::Pwd));
    assert_eq!(
        Command::parse(&strs(&["echo", "a", "b"])),
        Some(Command::Echo(strs(&["a", "b"])))
    );
    assert_eq!(
        Command::parse(&strs(&["type", "cd"])),
        Some(Command::Type("cd".to_string()))
    );
}

#[test]
fn parse_type_without_argument_is_no_command() {
    assert_eq!(Command::parse(&strs(&["type"])), None);
}

#[test]
fn parse_cd_forms() {
    assert_eq!(Command::parse(&strs(&["cd"])), Some(Command::Cd(None)));
    assert_eq!(Command::parse(&strs(&["cd", "~"])), Some(Command::Cd(None)));
    assert_eq!(
        Command::parse(&strs(&["cd", "/tmp"])),
        Some(Command::Cd(Some("/tmp".to_string())))
    );
}

#[test]
fn parse_unknown_name_is_external() {
    assert_eq!(
        Command::parse(&strs(&["ls", "-l", "/"])),
        Some(Command::External("ls".to_string(), strs(&["-l", "/"])))
    );
}

#[test]
fn execute_exit_terminates() {
    assert_eq!(Command::Exit.execute(&state()), Action::Terminate);
}

#[test]
fn execute_echo_joins_with_single_spaces() {
    let cmd = Command::Echo(strs(&["hello", "world"]));
    assert_eq!(
        cmd.execute(&state()),
        Action::WriteOut("hello world".to_string())
    );
}

#[test]
fn execute_echo_of_nothing_writes_empty_line() {
    let cmd = Command::Echo(Vec::new());
    assert_eq!(cmd.execute(&state()), Action::WriteOut(String::new()));
}

#[test]
fn execute_pwd_writes_session_cwd() {
    assert_eq!(
        Command::Pwd.execute(&state()),
        Action::WriteOut("/work".to_string())
    );
}

#[test]
fn execute_type_of_builtin_reports_builtin() {
    let cmd = Command::Type("cd".to_string());
    assert_eq!(
        cmd.execute(&state()),
        Action::WriteOut("cd is a shell builtin".to_string())
    );
}

#[test]
fn execute_type_of_other_name_asks_for_lookup() {
    let cmd = Command::Type("doesnotexist123".to_string());
    assert_eq!(
        cmd.execute(&state()),
        Action::LookupPath("doesnotexist123".to_string())
    );
}

#[test]
fn execute_cd_without_target_goes_home() {
    let cmd = Command::Cd(None);
    assert_eq!(
        cmd.execute(&state()),
        Action::ChangeDir("/home/user".to_string())
    );
}

#[test]
fn execute_cd_with_target_goes_there() {
    let cmd = Command::Cd(Some("/tmp".to_string()));
    assert_eq!(cmd.execute(&state()), Action::ChangeDir("/tmp".to_string()));
}

#[test]
fn execute_external_asks_for_spawn() {
    let cmd = Command::External("ls".to_string(), strs(&["-l"]));
    assert_eq!(
        cmd.execute(&state()),
        Action::Spawn("ls".to_string(), strs(&["-l"]))
    );
}

#[test]
fn join_args_matches_echo_output() {
    assert_eq!(join_args(&strs(&["a", "b", "c"])), "a b c");
    assert_eq!(join_args(&strs(&["solo"])), "solo");
    assert_eq!(join_args(&Vec::new()), "");
}

#[test]
fn type_lookup_message_reports_path() {
    assert_eq!(
        type_lookup_message("ls", &Some("/bin/ls".to_string())),
        "ls is /bin/ls"
    );
}

#[test]
fn type_lookup_message_reports_not_found() {
    assert_eq!(
        type_lookup_message("doesnotexist123", &None),
        "doesnotexist123: not found"
    );
}

#[test]
fn spawn_failure_message_names_command() {
    assert_eq!(
        spawn_failure_message("false_cmd"),
        "false_cmd: command not found"
    );
}

#[test]
fn split_path_list_keeps_order_and_empties() {
    assert_eq!(
        split_path_list("/usr/bin:/bin"),
        strs(&["/usr/bin", "/bin"])
    );
    assert_eq!(split_path_list("a:b::c"), strs(&["a", "b", "", "c"]));
    assert_eq!(split_path_list(""), strs(&[""]));
}

#[test]
fn exec_permission_needs_one_execute_bit() {
    assert!(has_exec_permission(0o755));
    assert!(has_exec_permission(0o100));
    assert!(has_exec_permission(0o010));
    assert!(has_exec_permission(0o001));
    assert!(!has_exec_permission(0o644));
    assert!(!has_exec_permission(0o000));
}
