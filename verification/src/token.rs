//! The tokenizer: classifies one physical line of script text as blank,
//! comment, or a `(keyword, argument)` pair, and splits a whole script into
//! physical lines.

use vstd::prelude::*;

use crate::text::{first_non_space, rest_of, scan_non_space, split_word, word_of};

verus! {

/// What one physical line of the script tokenizes to.
#[derive(Debug, Clone, PartialEq, Eq)]
pub enum LineTok {
    /// A line of zero length, or one holding only whitespace after the first
    /// character position.
    Blank,
    /// A line whose first non-space character is `#`.
    Comment,
    /// A command line: the first whitespace-delimited word and the trimmed
    /// remainder.
    Tok { keyword: String, argument: String },
}

/// Ghost counterpart of [`LineTok`].
pub enum LineTokView {
    Blank,
    Comment,
    Tok { keyword: Seq<char>, argument: Seq<char> },
}

impl View for LineTok {
    type V = LineTokView;

    open spec fn view(&self) -> LineTokView {
        match self {
            LineTok::Blank => LineTokView::Blank,
            LineTok::Comment => LineTokView::Comment,
            LineTok::Tok { keyword, argument } => LineTokView::Tok {
                keyword: keyword@,
                argument: argument@,
            },
        }
    }
}

/// How one physical line tokenizes: an empty line is blank, an
/// all-whitespace line is malformed (it yields no keyword), a line whose
/// first non-space character is `#` is a comment, and any other line splits
/// into its first word and the trimmed remainder.  `None` stands for the
/// malformed case.
pub open spec fn tokenize_line_spec(s: Seq<char>) -> Option<LineTokView> {
    if s.len() == 0 {
        Some(LineTokView::Blank)
    } else {
        let i = first_non_space(s, 0);
        if i == s.len() {
            None
        } else if s[i] == '#' {
            Some(LineTokView::Comment)
        } else {
            Some(LineTokView::Tok { keyword: word_of(s), argument: rest_of(s) })
        }
    }
}

/// Tokenizes one physical line.  `None` reports a malformed line: one that
/// is non-empty yet yields no keyword.  The result is a function of the
/// line's text alone.
pub fn tokenize_line(line: &str) -> (r: Option<LineTok>)
    ensures
        match r {
            Some(t) => tokenize_line_spec(line@) == Some(t@),
            None => tokenize_line_spec(line@) is None,
        },
{
    let n = line.unicode_len();
    if n == 0 {
        return Some(LineTok::Blank);
    }
    let i = scan_non_space(line, 0);
    proof {
        crate::text::lemma_first_non_space_bounds(line@, 0);
    }
    if i == n {
        return None;
    }
    if line.get_char(i) == '#' {
        return Some(LineTok::Comment);
    }
    let (keyword, argument) = split_word(line);
    Some(LineTok::Tok { keyword, argument })
}

} // verus!
