use shell_core::redirection::is_redirection_operator;
use shell_core::redirection::split_redirections;

fn strs(parts: &[&str]) -> Vec<String> {
    parts.iter().map(|s| s.to_string()).collect()
}

#[test]
fn operators_are_recognised() {
    assert!(is_redirection_operator(">"));
    assert!(is_redirection_operator("1>"));
    assert!(is_redirection_operator("2>"));
    assert!(!is_redirection_operator(">>"));
    assert!(!is_redirection_operator("2"));
    assert!(!is_redirection_operator("echo"));
}

#[test]
fn no_operator_passes_everything_through() {
    let parts = strs(&["echo", "hi"]);
    let (cmd, out, err) = split_redirections(&parts);
    assert_eq!(cmd, strs(&["echo", "hi"]));
    assert_eq!(out, None);
    assert_eq!(err, None);
}

#[test]
fn gt_redirects_stdout() {
    let parts = strs(&["echo", "hi", ">", "out.txt"]);
    let (cmd, out, err) = split_redirections(&parts);
    assert_eq!(cmd, strs(&["echo", "hi"]));
    assert_eq!(out, Some("out.txt".to_string()));
    assert_eq!(err, None);
}

#[test]
fn one_gt_redirects_stdout() {
    let parts = strs(&["echo", "hi", "1>", "out.txt"]);
    let (cmd, out, err) = split_redirections(&parts);
    assert_eq!(cmd, strs(&["echo", "hi"]));
    assert_eq!(out, Some("out.txt".to_string()));
    assert_eq!(err, None);
}

#[test]
fn two_gt_redirects_stderr() {
    let parts = strs(&["false_cmd", "2>", "err.txt"]);
    let (cmd, out, err) = split_redirections(&parts);
    assert_eq!(cmd, strs(&["false_cmd"]));
    assert_eq!(out, None);
    assert_eq!(err, Some("err.txt".to_string()));
}

#[test]
fn both_streams_may_be_redirected() {
    let parts = strs(&["cmd", ">", "a.txt", "2>", "b.txt"]);
    let (cmd, out, err) = split_redirections(&parts);
    assert_eq!(cmd, strs(&["cmd"]));
    assert_eq!(out, Some("a.txt".to_string()));
    assert_eq!(err, Some("b.txt".to_string()));
}

#[test]
fn later_directive_for_same_stream_wins() {
    let parts = strs(&["cmd", ">", "a.txt", ">", "c.txt"]);
    let (cmd, out, err) = split_redirections(&parts);
    assert_eq!(cmd, strs(&["cmd"]));
    assert_eq!(out, Some("c.txt".to_string()));
    assert_eq!(err, None);
}

#[test]
fn dangling_operator_yields_no_directive() {
    let parts = strs(&["echo", "hi", ">"]);
    let (cmd, out, err) = split_redirections(&parts);
    assert_eq!(cmd, strs(&["echo", "hi"]));
    assert_eq!(out, None);
    assert_eq!(err, None);
}

#[test]
fn dangling_operator_keeps_earlier_directive() {
    let parts = strs(&["cmd", ">", "a.txt", ">"]);
    let (_cmd, out, _err) = split_redirections(&parts);
    assert_eq!(out, Some("a.txt".to_string()));
}

#[test]
fn tokens_after_first_operator_are_not_command_tokens() {
    let parts = strs(&["cmd", ">", "a.txt", "stray", "2>", "b.txt"]);
    let (cmd, out, err) = split_redirections(&parts);
    assert_eq!(cmd, strs(&["cmd"]));
    assert_eq!(out, Some("a.txt".to_string()));
    assert_eq!(err, Some("b.txt".to_string()));
}

#[test]
fn empty_input_splits_to_empty() {
    let parts: Vec<String> = Vec::new();
    let (cmd, out, err) = split_redirections(&parts);
    assert_eq!(cmd, Vec::<String>::new());
    assert_eq!(out, None);
    assert_eq!(err, None);
}
