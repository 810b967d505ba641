use novarum::text::split_lines;
use novarum::token::{tokenize_line, LineTok};

#[test]
fn tokenize_blank_line() {
    assert_eq!(tokenize_line(""), Some(LineTok::Blank));
}

#[test]
fn tokenize_comment_line() {
    assert_eq!(tokenize_line("# a comment"), Some(LineTok::Comment));
    assert_eq!(tokenize_line("   #indented"), Some(LineTok::Comment));
    assert_eq!(tokenize_line("#"), Some(LineTok::Comment));
}

#[test]
fn tokenize_whitespace_only_is_malformed() {
    assert_eq!(tokenize_line("   "), None);
    assert_eq!(tokenize_line("\t"), None);
}

#[test]
fn tokenize_keyword_and_argument() {
    assert_eq!(
        tokenize_line("select color"),
        Some(LineTok::Tok { keyword: "select".to_owned(), argument: "color".to_owned() })
    );
    assert_eq!(
        tokenize_line("  print  hello  world  "),
        Some(LineTok::Tok { keyword: "print".to_owned(), argument: "hello  world".to_owned() })
    );
    assert_eq!(
        tokenize_line("end"),
        Some(LineTok::Tok { keyword: "end".to_owned(), argument: "".to_owned() })
    );
}

#[test]
fn tokenize_list_operator() {
    assert_eq!(
        tokenize_line("- red blue"),
        Some(LineTok::Tok { keyword: "-".to_owned(), argument: "red blue".to_owned() })
    );
}

#[test]
fn tokenize_is_deterministic() {
    let a = tokenize_line("select color");
    let b = tokenize_line("select color");
    assert_eq!(a, b);
    let c = tokenize_line("   # note");
    let d = tokenize_line("   # note");
    assert_eq!(c, d);
}

#[test]
fn split_lines_on_newlines() {
    assert_eq!(split_lines("a\nb"), vec!["a".to_owned(), "b".to_owned()]);
    assert_eq!(split_lines("a\nb\n"), vec!["a".to_owned(), "b".to_owned()]);
    assert_eq!(
        split_lines("a\n\nb"),
        vec!["a".to_owned(), "".to_owned(), "b".to_owned()]
    );
    assert_eq!(split_lines(""), Vec::<String>::new());
}

#[test]
fn split_lines_strips_carriage_returns() {
    assert_eq!(split_lines("a\r\nb\r\n"), vec!["a".to_owned(), "b".to_owned()]);
}
