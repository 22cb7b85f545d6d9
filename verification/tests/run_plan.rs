use shell_core::command::spawn_failure_message;
use shell_core::command::Action;
use shell_core::run;
use shell_core::session::ShellState;
use shell_core::text::trim_spaces;

fn state() -> ShellState {
    ShellState::new("/work".to_string(), "/home/user".to_string())
}

#[test]
fn echo_with_stdout_redirect_plans_file_write() {
    let plan = run("echo hi > out.txt", &state());
    assert_eq!(plan.stdout_redirect, Some("out.txt".to_string()));
    assert_eq!(plan.stderr_redirect, None);
    assert_eq!(plan.action, Some(Action::WriteOut("hi".to_string())));
}

#[test]
fn missing_binary_with_stderr_redirect_plans_spawn() {
    let plan = run("false_cmd 2> err.txt", &state());
    assert_eq!(plan.stdout_redirect, None);
    assert_eq!(plan.stderr_redirect, Some("err.txt".to_string()));
    assert_eq!(
        plan.action,
        Some(Action::Spawn("false_cmd".to_string(), Vec::new()))
    );
    assert_eq!(
        spawn_failure_message("false_cmd"),
        "false_cmd: command not found"
    );
}

#[test]
fn empty_line_plans_nothing() {
    let plan = run("", &state());
    assert_eq!(plan.action, None);
    assert_eq!(plan.stdout_redirect, None);
    assert_eq!(plan.stderr_redirect, None);
}

#[test]
fn whitespace_line_plans_nothing() {
    let plan = run("   \t ", &state());
    assert_eq!(plan.action, None);
}

#[test]
fn exit_plans_termination() {
    let plan = run("exit", &state());
    assert_eq!(plan.action, Some(Action::Terminate));
}

#[test]
fn surrounding_whitespace_is_ignored() {
    let plan = run("  pwd  \n", &state());
    assert_eq!(plan.action, Some(Action::WriteOut("/work".to_string())));
}

#[test]
fn trailing_backslash_is_trimmed_with_the_newline() {
    // Trimming runs before tokenizing, so a backslash at the very end of the
    // typed text no longer escapes the newline.
    let plan = run("echo a\\\n", &state());
    assert_eq!(plan.action, Some(Action::WriteOut("a".to_string())));
}

#[test]
fn type_of_builtin_through_whole_pipeline() {
    let plan = run("type cd", &state());
    assert_eq!(
        plan.action,
        Some(Action::WriteOut("cd is a shell builtin".to_string()))
    );
}

#[test]
fn type_of_unknown_asks_for_lookup() {
    let plan = run("type doesnotexist123", &state());
    assert_eq!(
        plan.action,
        Some(Action::LookupPath("doesnotexist123".to_string()))
    );
}

#[test]
fn quoted_operator_still_splits_the_token_stream() {
    // The splitter works on tokens, after quote removal: a quoted `>` is the
    // same token as a bare one, so it still starts the redirection tail.
    let plan = run("echo '>' x", &state());
    assert_eq!(plan.stdout_redirect, Some("x".to_string()));
    assert_eq!(plan.action, Some(Action::WriteOut(String::new())));
}

#[test]
fn cd_line_plans_directory_change() {
    let plan = run("cd /tmp", &state());
    assert_eq!(plan.action, Some(Action::ChangeDir("/tmp".to_string())));
}

#[test]
fn trim_spaces_drops_both_ends_only() {
    assert_eq!(trim_spaces("  a b \t\n"), "a b");
    assert_eq!(trim_spaces(""), "");
    assert_eq!(trim_spaces(" \t "), "");
    assert_eq!(trim_spaces("inner  kept"), "inner  kept");
}
