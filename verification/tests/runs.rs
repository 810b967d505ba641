use novarum::machine::ErrorKind;
use novarum::run::{run_script, Effect, Replies, RunError};

fn no_replies() -> Replies {
    Replies { singles: vec![], multis: vec![], shells: vec![], chdirs: vec![] }
}

fn single_replies(picks: Vec<usize>) -> Replies {
    Replies { singles: picks, multis: vec![], shells: vec![], chdirs: vec![] }
}

#[test]
fn scenario_select_then_if_runs_body() {
    let script = "select color\n- red\n- blue\nend\nif color red\nprint matched\nend\n";
    let out = run_script(script, &single_replies(vec![0])).unwrap();
    assert_eq!(out.effects, vec![Effect::Print("matched".to_owned())]);
    assert_eq!(out.machine.lookup_single("color"), Some("red".to_owned()));
}

#[test]
fn scenario_select_other_skips_body() {
    let script = "select color\n- red\n- blue\nend\nif color red\nprint matched\nend\n";
    let out = run_script(script, &single_replies(vec![1])).unwrap();
    assert_eq!(out.effects, Vec::<Effect>::new());
    assert_eq!(out.machine.lookup_single("color"), Some("blue".to_owned()));
}

#[test]
fn unknown_keyword_reports_fifth_line() {
    let script = "print one\nprint two\nprint three\nprint four\nfrobnicate\n";
    let err = run_script(script, &no_replies()).unwrap_err();
    assert_eq!(err, RunError { line: 5, kind: ErrorKind::UnknownKeyword });
}

#[test]
fn multiselect_binds_labels_in_gateway_order() {
    let script = "multiselect tools\n- A\n- B\n- C\nend\n";
    let replies = Replies { singles: vec![], multis: vec![vec![0, 2]], shells: vec![], chdirs: vec![] };
    let out = run_script(script, &replies).unwrap();
    assert_eq!(
        out.machine.lookup_multi("tools"),
        Some(vec!["A".to_owned(), "C".to_owned()])
    );
}

#[test]
fn straight_line_script_runs_in_source_order() {
    let script = "print hello\nshell echo hi\nmessage ignored\nchdir /tmp\nprint done\n";
    let out = run_script(script, &no_replies()).unwrap();
    assert_eq!(
        out.effects,
        vec![
            Effect::Print("hello".to_owned()),
            Effect::Shell("echo hi".to_owned()),
            Effect::Chdir("/tmp".to_owned()),
            Effect::Print("done".to_owned()),
        ]
    );
    assert_eq!(out.machine.lookup_single("tools"), None);
}

#[test]
fn failed_shell_command_aborts() {
    let script = "print before\nshell badcmd\nprint after\n";
    let replies = Replies { singles: vec![], multis: vec![], shells: vec![false], chdirs: vec![] };
    let err = run_script(script, &replies).unwrap_err();
    assert_eq!(err, RunError { line: 2, kind: ErrorKind::CommandFailed });
}

#[test]
fn failed_chdir_aborts() {
    let script = "chdir /nowhere\n";
    let replies = Replies { singles: vec![], multis: vec![], shells: vec![], chdirs: vec![false] };
    let err = run_script(script, &replies).unwrap_err();
    assert_eq!(err, RunError { line: 1, kind: ErrorKind::ChdirFailed });
}

#[test]
fn prompt_without_reply_counts_as_aborted() {
    let script = "select color\n- red\nend\n";
    let err = run_script(script, &no_replies()).unwrap_err();
    assert_eq!(err, RunError { line: 3, kind: ErrorKind::PromptAborted });
}

#[test]
fn out_of_range_reply_counts_as_aborted() {
    let script = "select color\n- red\nend\n";
    let err = run_script(script, &single_replies(vec![7])).unwrap_err();
    assert_eq!(err, RunError { line: 3, kind: ErrorKind::PromptAborted });
}

#[test]
fn whitespace_only_line_is_malformed() {
    let script = "print ok\n   \n";
    let err = run_script(script, &no_replies()).unwrap_err();
    assert_eq!(err, RunError { line: 2, kind: ErrorKind::MalformedLine });
}

#[test]
fn comments_and_blank_lines_are_skipped() {
    let script = "# heading\n\nprint one\n  # indented comment\nprint two\n";
    let out = run_script(script, &no_replies()).unwrap();
    assert_eq!(
        out.effects,
        vec![Effect::Print("one".to_owned()), Effect::Print("two".to_owned())]
    );
}

#[test]
fn empty_script_succeeds() {
    let out = run_script("", &no_replies()).unwrap();
    assert_eq!(out.effects, Vec::<Effect>::new());
}

#[test]
fn searchselect_runs_like_select() {
    let script = "searchselect pkg\n- serde\n- rand\nend\nif pkg rand\nprint picked rand\nend\n";
    let out = run_script(script, &single_replies(vec![1])).unwrap();
    assert_eq!(out.effects, vec![Effect::Print("picked rand".to_owned())]);
    assert_eq!(out.machine.lookup_single("pkg"), Some("rand".to_owned()));
}

#[test]
fn list_operator_outside_block_reports_line() {
    let script = "- stray\n";
    let err = run_script(script, &no_replies()).unwrap_err();
    assert_eq!(err, RunError { line: 1, kind: ErrorKind::InvalidListOperator });
}

#[test]
fn empty_block_name_reports_line() {
    let script = "print ok\nselect\n";
    let err = run_script(script, &no_replies()).unwrap_err();
    assert_eq!(err, RunError { line: 2, kind: ErrorKind::InvalidBlockName });
}

#[test]
fn stray_end_reports_line() {
    let script = "end\n";
    let err = run_script(script, &no_replies()).unwrap_err();
    assert_eq!(err, RunError { line: 1, kind: ErrorKind::UnexpectedEnd });
}

#[test]
fn nested_block_reports_line() {
    let script = "select color\nselect other\n";
    let err = run_script(script, &no_replies()).unwrap_err();
    assert_eq!(err, RunError { line: 2, kind: ErrorKind::NestedBlock });
}

#[test]
fn false_conditional_skips_commands_and_errors() {
    let script = "if color red\nshell rm -rf things\nbogus keyword\nend\nprint after\n";
    let out = run_script(script, &no_replies()).unwrap();
    assert_eq!(out.effects, vec![Effect::Print("after".to_owned())]);
}

#[test]
fn if_checks_multi_bindings_too() {
    let script = "multiselect tools\n- git\n- make\nend\nif tools make\nprint has make\nend\n";
    let replies = Replies { singles: vec![], multis: vec![vec![1]], shells: vec![], chdirs: vec![] };
    let out = run_script(script, &replies).unwrap();
    assert_eq!(out.effects, vec![Effect::Print("has make".to_owned())]);
}

#[test]
fn run_is_deterministic_for_equal_inputs() {
    let script = "select color\n- red\n- blue\nend\nprint done\n";
    let a = run_script(script, &single_replies(vec![1])).unwrap();
    let b = run_script(script, &single_replies(vec![1])).unwrap();
    assert_eq!(a.effects, b.effects);
    assert_eq!(
        a.machine.lookup_single("color"),
        b.machine.lookup_single("color")
    );
}
