use novarum::machine::{Action, ErrorKind, Machine, Mode};

#[test]
fn select_block_binds_first_option() {
    let mut m = Machine::new();
    assert_eq!(m.step("select", "color"), Ok(Action::Quiet));
    assert_eq!(m.mode(), Mode::CollectSingle);
    assert_eq!(m.step("-", "red"), Ok(Action::Quiet));
    assert_eq!(m.step("-", "blue"), Ok(Action::Quiet));
    assert_eq!(
        m.step("end", ""),
        Ok(Action::AskSingle {
            message: "Select".to_owned(),
            options: vec!["red".to_owned(), "blue".to_owned()],
        })
    );
    m.provide_single(0);
    assert_eq!(m.mode(), Mode::Idle);
    assert_eq!(m.lookup_single("color"), Some("red".to_owned()));
    assert_eq!(m.lookup_multi("color"), None);
}

#[test]
fn option_labels_keep_internal_whitespace() {
    let mut m = Machine::new();
    m.step("select", "dish").unwrap();
    m.step("-", "fish  and  chips").unwrap();
    m.step("end", "").unwrap();
    m.provide_single(0);
    assert_eq!(m.lookup_single("dish"), Some("fish  and  chips".to_owned()));
}

#[test]
fn message_overrides_prompt_then_resets() {
    let mut m = Machine::new();
    m.step("message", "Pick a color").unwrap();
    m.step("select", "color").unwrap();
    m.step("-", "red").unwrap();
    let ask = m.step("end", "").unwrap();
    assert_eq!(
        ask,
        Action::AskSingle {
            message: "Pick a color".to_owned(),
            options: vec!["red".to_owned()],
        }
    );
    m.provide_single(0);
    m.step("select", "tone").unwrap();
    m.step("-", "dark").unwrap();
    let ask2 = m.step("end", "").unwrap();
    assert_eq!(
        ask2,
        Action::AskSingle { message: "Select".to_owned(), options: vec!["dark".to_owned()] }
    );
}

#[test]
fn multiselect_binds_chosen_labels() {
    let mut m = Machine::new();
    m.step("multiselect", "tools").unwrap();
    assert_eq!(m.mode(), Mode::CollectMulti);
    m.step("-", "A").unwrap();
    m.step("-", "B").unwrap();
    m.step("-", "C").unwrap();
    let ask = m.step("end", "").unwrap();
    assert_eq!(
        ask,
        Action::AskMulti {
            message: "Select".to_owned(),
            options: vec!["A".to_owned(), "B".to_owned(), "C".to_owned()],
        }
    );
    m.provide_multi(&vec![0, 2]);
    assert_eq!(m.lookup_multi("tools"), Some(vec!["A".to_owned(), "C".to_owned()]));
    assert_eq!(m.lookup_single("tools"), None);
}

#[test]
fn searchselect_requests_fuzzy_prompt() {
    let mut m = Machine::new();
    m.step("searchselect", "pkg").unwrap();
    assert_eq!(m.mode(), Mode::CollectSearch);
    m.step("-", "serde").unwrap();
    m.step("-", "rand").unwrap();
    let ask = m.step("end", "").unwrap();
    assert_eq!(
        ask,
        Action::AskSearch {
            message: "Select".to_owned(),
            options: vec!["serde".to_owned(), "rand".to_owned()],
        }
    );
    m.provide_single(1);
    assert_eq!(m.lookup_single("pkg"), Some("rand".to_owned()));
}

#[test]
fn list_operator_outside_block_fails() {
    let mut m = Machine::new();
    assert_eq!(m.step("-", "x"), Err(ErrorKind::InvalidListOperator));
}

#[test]
fn list_operator_inside_true_conditional_fails() {
    let mut m = Machine::new();
    m.step("select", "color").unwrap();
    m.step("-", "red").unwrap();
    m.step("end", "").unwrap();
    m.provide_single(0);
    m.step("if", "color red").unwrap();
    assert_eq!(m.step("-", "x"), Err(ErrorKind::InvalidListOperator));
}

#[test]
fn empty_block_name_fails() {
    let mut m = Machine::new();
    assert_eq!(m.step("select", "   "), Err(ErrorKind::InvalidBlockName));
    assert_eq!(m.step("multiselect", ""), Err(ErrorKind::InvalidBlockName));
    assert_eq!(m.step("searchselect", ""), Err(ErrorKind::InvalidBlockName));
}

#[test]
fn end_while_idle_fails() {
    let mut m = Machine::new();
    assert_eq!(m.step("end", ""), Err(ErrorKind::UnexpectedEnd));
}

#[test]
fn unknown_keyword_fails() {
    let mut m = Machine::new();
    assert_eq!(m.step("frobnicate", "x"), Err(ErrorKind::UnknownKeyword));
}

#[test]
fn opening_a_block_inside_a_block_fails() {
    let mut m = Machine::new();
    m.step("select", "color").unwrap();
    assert_eq!(m.step("select", "other"), Err(ErrorKind::NestedBlock));
    assert_eq!(m.step("if", "color red"), Err(ErrorKind::NestedBlock));
}

#[test]
fn if_matches_single_binding() {
    let mut m = Machine::new();
    m.step("select", "color").unwrap();
    m.step("-", "red").unwrap();
    m.step("end", "").unwrap();
    m.provide_single(0);
    assert_eq!(m.step("if", "color red"), Ok(Action::Quiet));
    assert_eq!(m.mode(), Mode::Cond(true));
    assert_eq!(m.step("print", "hi"), Ok(Action::Print("hi".to_owned())));
    assert_eq!(m.step("end", ""), Ok(Action::Quiet));
    assert_eq!(m.mode(), Mode::Idle);
}

#[test]
fn if_matches_multi_binding() {
    let mut m = Machine::new();
    m.step("multiselect", "tools").unwrap();
    m.step("-", "git").unwrap();
    m.step("-", "make").unwrap();
    m.step("end", "").unwrap();
    m.provide_multi(&vec![1]);
    m.step("if", "tools make").unwrap();
    assert_eq!(m.mode(), Mode::Cond(true));
    m.step("end", "").unwrap();
    m.step("if", "tools git").unwrap();
    assert_eq!(m.mode(), Mode::Cond(false));
}

#[test]
fn if_unbound_name_skips_without_error() {
    let mut m = Machine::new();
    assert_eq!(m.step("if", "color red"), Ok(Action::Quiet));
    assert_eq!(m.mode(), Mode::Cond(false));
    assert_eq!(m.step("no such keyword", "x"), Ok(Action::Quiet));
    assert_eq!(m.step("end", ""), Ok(Action::Quiet));
    assert_eq!(m.mode(), Mode::Idle);
}

#[test]
fn shell_and_chdir_request_gateway_actions() {
    let mut m = Machine::new();
    assert_eq!(m.step("shell", "ls -la"), Ok(Action::Shell("ls -la".to_owned())));
    assert_eq!(m.step("chdir", "/tmp"), Ok(Action::Chdir("/tmp".to_owned())));
}

#[test]
fn rebinding_a_name_shadows_the_old_value() {
    let mut m = Machine::new();
    m.step("select", "color").unwrap();
    m.step("-", "red").unwrap();
    m.step("end", "").unwrap();
    m.provide_single(0);
    m.step("select", "color").unwrap();
    m.step("-", "blue").unwrap();
    m.step("end", "").unwrap();
    m.provide_single(0);
    assert_eq!(m.lookup_single("color"), Some("blue".to_owned()));
}

#[test]
fn multiselect_preserves_gateway_order() {
    let mut m = Machine::new();
    m.step("multiselect", "tools").unwrap();
    m.step("-", "A").unwrap();
    m.step("-", "B").unwrap();
    m.step("-", "C").unwrap();
    m.step("end", "").unwrap();
    m.provide_multi(&vec![2, 0]);
    assert_eq!(m.lookup_multi("tools"), Some(vec!["C".to_owned(), "A".to_owned()]));
}
