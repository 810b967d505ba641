//! The interpreter state machine: the current mode, the pending block being
//! collected, the binding store, and the dispatch of one tokenized line.
//!
//! Interactive prompting is a collaborator the machine does not implement:
//! closing a choice block yields an [`Action`] describing the prompt that
//! must be made, the machine waits, and the chosen index (or indices) is
//! handed back through [`Machine::provide_single`] or
//! [`Machine::provide_multi`].

use vstd::prelude::*;

use crate::text::{rest_of, str_eq, trim, trim_of, word_of};
use crate::text::{lemma_deep_view_push, split_word};

verus! {

/// The interpreter's parsing context.
///
/// `AwaitSingle` and `AwaitMulti` are the spans between closing a choice
/// block (which requests a prompt) and receiving the reply; no line may be
/// fed to the machine while it waits.
#[derive(Debug, Clone, Copy, PartialEq, Eq, Structural)]
pub enum Mode {
    /// No block is open.
    Idle,
    /// Collecting options for a single-choice block.
    CollectSingle,
    /// Collecting options for a multi-choice block.
    CollectMulti,
    /// Collecting options for a fuzzy-search choice block.
    CollectSearch,
    /// Inside a conditional block; the payload says whether its body runs.
    Cond(bool),
    /// A single-choice prompt was requested and its reply is outstanding.
    AwaitSingle,
    /// A multi-choice prompt was requested and its reply is outstanding.
    AwaitMulti,
}

/// Every fatal condition an interpretation can end with.  All errors abort
/// the run immediately; there is no recovery.
#[derive(Debug, Clone, Copy, PartialEq, Eq, Structural)]
pub enum ErrorKind {
    /// A non-empty line yielded no keyword.
    MalformedLine,
    /// `-` was used outside a collecting mode.
    InvalidListOperator,
    /// A choice block was opened with an empty (after trimming) name.
    InvalidBlockName,
    /// `end` was seen while no block was open.
    UnexpectedEnd,
    /// The first word of a line is not a recognized keyword.
    UnknownKeyword,
    /// A block-opening keyword was seen while a block was already open.
    NestedBlock,
    /// The external shell command reported failure.
    CommandFailed,
    /// The working-directory change failed.
    ChdirFailed,
    /// The user cancelled an interactive prompt.
    PromptAborted,
}

/// What the interpreter asks its collaborators to do after one line.
#[derive(Debug, Clone, PartialEq, Eq)]
pub enum Action {
    /// No external effect.
    Quiet,
    /// Write the text to standard output.
    Print(String),
    /// Run the command line through the action gateway.
    Shell(String),
    /// Change the working directory through the action gateway.
    Chdir(String),
    /// Present a single-choice prompt (exact list) and reply with
    /// [`Machine::provide_single`].
    AskSingle { message: String, options: Vec<String> },
    /// Present a fuzzy-search single-choice prompt and reply with
    /// [`Machine::provide_single`].
    AskSearch { message: String, options: Vec<String> },
    /// Present a multi-choice prompt and reply with
    /// [`Machine::provide_multi`].
    AskMulti { message: String, options: Vec<String> },
}

/// Ghost counterpart of [`Action`]; `Fail` stands for the fatal errors.
#[verifier::ext_equal]
pub enum ActionView {
    Quiet,
    Print(Seq<char>),
    Shell(Seq<char>),
    Chdir(Seq<char>),
    AskSingle(Seq<char>, Seq<Seq<char>>),
    AskSearch(Seq<char>, Seq<Seq<char>>),
    AskMulti(Seq<char>, Seq<Seq<char>>),
    Fail(ErrorKind),
}

impl View for Action {
    type V = ActionView;

    open spec fn view(&self) -> ActionView {
        match self {
            Action::Quiet => ActionView::Quiet,
            Action::Print(t) => ActionView::Print(t@),
            Action::Shell(t) => ActionView::Shell(t@),
            Action::Chdir(t) => ActionView::Chdir(t@),
            Action::AskSingle { message, options } => ActionView::AskSingle(
                message@,
                options.deep_view(),
            ),
            Action::AskSearch { message, options } => ActionView::AskSearch(
                message@,
                options.deep_view(),
            ),
            Action::AskMulti { message, options } => ActionView::AskMulti(
                message@,
                options.deep_view(),
            ),
        }
    }
}

/// Mathematical model of the machine: mode, pending block, and bindings.
/// Bindings are sequences of `(name, value)` pairs in insertion order; a
/// later pair for the same name shadows an earlier one.
#[verifier::ext_equal]
pub struct MachineView {
    pub mode: Mode,
    pub name: Seq<char>,
    pub opts: Seq<Seq<char>>,
    pub message: Seq<char>,
    pub singles: Seq<(Seq<char>, Seq<char>)>,
    pub multis: Seq<(Seq<char>, Seq<Seq<char>>)>,
}

/// The prompt message a block carries until `message` overrides it.
pub open spec fn default_message() -> Seq<char> {
    "Select"@
}

/// Looks a key up in an association sequence; the latest pair wins.
pub open spec fn assoc_lookup<V>(pairs: Seq<(Seq<char>, V)>, key: Seq<char>) -> Option<V>
    decreases pairs.len(),
{
    if pairs.len() == 0 {
        None
    } else if pairs.last().0 == key {
        Some(pairs.last().1)
    } else {
        assoc_lookup(pairs.drop_last(), key)
    }
}

/// Whether `if name target` matches: the single binding for `name` equals
/// `target`, or the multi binding for `name` contains it.  A missing
/// binding of either kind is a non-match, never an error.
pub open spec fn cond_matches(st: MachineView, name: Seq<char>, target: Seq<char>) -> bool {
    assoc_lookup(st.singles, name) == Some(target) || match assoc_lookup(st.multis, name) {
        Some(vs) => vs.contains(target),
        None => false,
    }
}

/// The machine accepts a line only while no prompt reply is outstanding.
pub open spec fn ready(st: MachineView) -> bool {
    st.mode != Mode::AwaitSingle && st.mode != Mode::AwaitMulti
}

/// Opening a choice block: fatal while any block is open, fatal on an
/// empty name, otherwise the trimmed argument becomes the pending name and
/// the option list restarts empty.
pub open spec fn open_block_spec(st: MachineView, arg: Seq<char>, m: Mode) -> (MachineView,
    ActionView) {
    if st.mode != Mode::Idle {
        (st, ActionView::Fail(ErrorKind::NestedBlock))
    } else if trim_of(arg).len() == 0 {
        (st, ActionView::Fail(ErrorKind::InvalidBlockName))
    } else {
        (
            MachineView { mode: m, name: trim_of(arg), opts: Seq::empty(), ..st },
            ActionView::Quiet,
        )
    }
}

/// One step of the interpreter on a tokenized line: the next state and the
/// requested external action.  While the mode is `Cond(false)`, every
/// keyword but `end` is inert.
pub open spec fn step_spec(st: MachineView, kw: Seq<char>, arg: Seq<char>) -> (MachineView,
    ActionView) {
    if st.mode == Mode::Cond(false) && kw != "end"@ {
        (st, ActionView::Quiet)
    } else if kw == "-"@ {
        if st.mode == Mode::CollectSingle || st.mode == Mode::CollectSearch || st.mode
            == Mode::CollectMulti {
            (MachineView { opts: st.opts.push(arg), ..st }, ActionView::Quiet)
        } else {
            (st, ActionView::Fail(ErrorKind::InvalidListOperator))
        }
    } else if kw == "shell"@ {
        (st, ActionView::Shell(arg))
    } else if kw == "select"@ {
        open_block_spec(st, arg, Mode::CollectSingle)
    } else if kw == "multiselect"@ {
        open_block_spec(st, arg, Mode::CollectMulti)
    } else if kw == "searchselect"@ {
        open_block_spec(st, arg, Mode::CollectSearch)
    } else if kw == "print"@ {
        (st, ActionView::Print(arg))
    } else if kw == "message"@ {
        (MachineView { message: arg, ..st }, ActionView::Quiet)
    } else if kw == "end"@ {
        match st.mode {
            Mode::CollectSingle => (
                MachineView { mode: Mode::AwaitSingle, message: default_message(), ..st },
                ActionView::AskSingle(st.message, st.opts),
            ),
            Mode::CollectSearch => (
                MachineView { mode: Mode::AwaitSingle, message: default_message(), ..st },
                ActionView::AskSearch(st.message, st.opts),
            ),
            Mode::CollectMulti => (
                MachineView { mode: Mode::AwaitMulti, message: default_message(), ..st },
                ActionView::AskMulti(st.message, st.opts),
            ),
            Mode::Cond(_) => (MachineView { mode: Mode::Idle, ..st }, ActionView::Quiet),
            _ => (st, ActionView::Fail(ErrorKind::UnexpectedEnd)),
        }
    } else if kw == "if"@ {
        if st.mode == Mode::Idle {
            (
                MachineView {
                    mode: Mode::Cond(cond_matches(st, word_of(arg), rest_of(arg))),
                    ..st
                },
                ActionView::Quiet,
            )
        } else {
            (st, ActionView::Fail(ErrorKind::NestedBlock))
        }
    } else if kw == "chdir"@ {
        (st, ActionView::Chdir(arg))
    } else {
        (st, ActionView::Fail(ErrorKind::UnknownKeyword))
    }
}

/// Resolving a single-choice prompt: the label at the chosen index is bound
/// to the pending name, and the pending block resets.
pub open spec fn provide_single_spec(st: MachineView, choice: usize) -> MachineView {
    MachineView {
        mode: Mode::Idle,
        name: Seq::empty(),
        opts: Seq::empty(),
        message: default_message(),
        singles: st.singles.push((st.name, st.opts[choice as int])),
        multis: st.multis,
    }
}

/// Resolving a multi-choice prompt: the labels at the chosen indices, in
/// the order the gateway reported them, are bound to the pending name.
pub open spec fn provide_multi_spec(st: MachineView, picks: Seq<usize>) -> MachineView {
    MachineView {
        mode: Mode::Idle,
        name: Seq::empty(),
        opts: Seq::empty(),
        message: default_message(),
        singles: st.singles,
        multis: st.multis.push(
            (st.name, Seq::new(picks.len(), |j: int| st.opts[picks[j] as int])),
        ),
    }
}

/// The state a fresh machine starts in.
pub open spec fn init_spec() -> MachineView {
    MachineView {
        mode: Mode::Idle,
        name: Seq::empty(),
        opts: Seq::empty(),
        message: default_message(),
        singles: Seq::empty(),
        multis: Seq::empty(),
    }
}

/// The interpreter state machine.
#[derive(Debug)]
pub struct Machine {
    mode: Mode,
    name: String,
    opts: Vec<String>,
    message: String,
    singles: Vec<(String, String)>,
    multis: Vec<(String, Vec<String>)>,
}

impl View for Machine {
    type V = MachineView;

    closed spec fn view(&self) -> MachineView {
        MachineView {
            mode: self.mode,
            name: self.name@,
            opts: self.opts.deep_view(),
            message: self.message@,
            singles: self.singles.deep_view(),
            multis: self.multis.deep_view(),
        }
    }
}

/// Clones every string of `v`.
fn clone_string_vec(v: &Vec<String>) -> (r: Vec<String>)
    ensures
        r@ == v@,
{
    let mut r: Vec<String> = Vec::new();
    let mut k: usize = 0;
    while k < v.len()
        invariant
            k <= v@.len(),
            r@ =~= v@.subrange(0, k as int),
        decreases v@.len() - k,
    {
        r.push(v[k].clone());
        k += 1;
    }
    proof {
        assert(r@ =~= v@);
    }
    r
}

/// Whether some string of `v` equals `target`.
fn vec_contains_str(v: &Vec<String>, target: &str) -> (r: bool)
    ensures
        r == v.deep_view().contains(target@),
{
    let mut k: usize = 0;
    while k < v.len()
        invariant
            k <= v@.len(),
            forall|j: int| 0 <= j < k ==> v.deep_view()[j] != target@,
        decreases v@.len() - k,
    {
        if str_eq(v[k].as_str(), target) {
            assert(v.deep_view()[k as int] == target@);
            return true;
        }
        k += 1;
    }
    assert(!v.deep_view().contains(target@)) by {
        if v.deep_view().contains(target@) {
            let j = choose|j: int| 0 <= j < v.deep_view().len() && v.deep_view()[j] == target@;
            assert(v.deep_view()[j] != target@);
        }
    }
    false
}

impl Machine {
    /// A fresh machine: idle, no pending block, no bindings, and the
    /// default prompt message.
    pub fn new() -> (m: Machine)
        ensures
            m@ == init_spec(),
    {
        let m = Machine {
            mode: Mode::Idle,
            name: String::new(),
            opts: Vec::new(),
            message: "Select".to_owned(),
            singles: Vec::new(),
            multis: Vec::new(),
        };
        proof {
            assert(m@ =~= init_spec());
        }
        m
    }

    /// The current parsing context.
    pub fn mode(&self) -> (m: Mode)
        ensures
            m == self@.mode,
    {
        self.mode
    }

    /// The latest single binding stored under `key`, if any.
    pub fn lookup_single(&self, key: &str) -> (r: Option<String>)
        ensures
            match r {
                Some(v) => assoc_lookup(self@.singles, key@) == Some(v@),
                None => assoc_lookup(self@.singles, key@) is None,
            },
    {
        match self.find_single(key) {
            Some(v) => Some(v.clone()),
            None => None,
        }
    }

    /// The latest multi binding stored under `key`, if any.
    pub fn lookup_multi(&self, key: &str) -> (r: Option<Vec<String>>)
        ensures
            match r {
                Some(vs) => assoc_lookup(self@.multis, key@) == Some(vs.deep_view()),
                None => assoc_lookup(self@.multis, key@) is None,
            },
    {
        match self.find_multi(key) {
            Some(vs) => Some(clone_string_vec(vs)),
            None => None,
        }
    }

    /// Scans the single bindings for the latest pair named `key`.
    fn find_single(&self, key: &str) -> (r: Option<&String>)
        ensures
            match r {
                Some(v) => assoc_lookup(self@.singles, key@) == Some(v@),
                None => assoc_lookup(self@.singles, key@) is None,
            },
    {
        let ghost dv = self@.singles;
        proof {
            assert(dv.subrange(0, dv.len() as int) =~= dv);
        }
        let mut i: usize = self.singles.len();
        while i > 0
            invariant
                i <= self.singles@.len(),
                dv == self@.singles,
                dv.len() == self.singles@.len(),
                assoc_lookup(dv, key@) == assoc_lookup(dv.subrange(0, i as int), key@),
            decreases i,
        {
            let idx = i - 1;
            if str_eq(self.singles[idx].0.as_str(), key) {
                proof {
                    assert(dv.subrange(0, i as int).last() == dv[idx as int]);
                }
                return Some(&self.singles[idx].1);
            }
            proof {
                assert(dv.subrange(0, i as int).last() == dv[idx as int]);
                assert(dv.subrange(0, i as int).drop_last() =~= dv.subrange(0, idx as int));
            }
            i = idx;
        }
        proof {
            assert(dv.subrange(0, 0).len() == 0);
        }
        None
    }

    /// Scans the multi bindings for the latest pair named `key`.
    fn find_multi(&self, key: &str) -> (r: Option<&Vec<String>>)
        ensures
            match r {
                Some(vs) => assoc_lookup(self@.multis, key@) == Some(vs.deep_view()),
                None => assoc_lookup(self@.multis, key@) is None,
            },
    {
        let ghost dv = self@.multis;
        proof {
            assert(dv.subrange(0, dv.len() as int) =~= dv);
        }
        let mut i: usize = self.multis.len();
        while i > 0
            invariant
                i <= self.multis@.len(),
                dv == self@.multis,
                dv.len() == self.multis@.len(),
                assoc_lookup(dv, key@) == assoc_lookup(dv.subrange(0, i as int), key@),
            decreases i,
        {
            let idx = i - 1;
            if str_eq(self.multis[idx].0.as_str(), key) {
                proof {
                    assert(dv.subrange(0, i as int).last() == dv[idx as int]);
                }
                return Some(&self.multis[idx].1);
            }
            proof {
                assert(dv.subrange(0, i as int).last() == dv[idx as int]);
                assert(dv.subrange(0, i as int).drop_last() =~= dv.subrange(0, idx as int));
            }
            i = idx;
        }
        proof {
            assert(dv.subrange(0, 0).len() == 0);
        }
        None
    }

    /// Evaluates an `if` condition against the current bindings.
    fn eval_cond(&self, name: &str, target: &str) -> (r: bool)
        ensures
            r == cond_matches(self@, name@, target@),
    {
        let single_hit = match self.find_single(name) {
            Some(v) => str_eq(v.as_str(), target),
            None => false,
        };
        if single_hit {
            return true;
        }
        match self.find_multi(name) {
            Some(vs) => vec_contains_str(vs, target),
            None => false,
        }
    }

    /// Opens a choice block in mode `m` with the trimmed argument as name.
    fn open_block(&mut self, argument: &str, m: Mode) -> (r: Result<Action, ErrorKind>)
        ensures
            ({
                let (st2, act) = open_block_spec(old(self)@, argument@, m);
                match r {
                    Ok(a) => final(self)@ == st2 && a@ == act,
                    Err(e) => final(self)@ == old(self)@ && act == ActionView::Fail(e),
                }
            }),
    {
        if !(self.mode == Mode::Idle) {
            return Err(ErrorKind::NestedBlock);
        }
        let nm = trim(argument);
        if nm.unicode_len() == 0 {
            return Err(ErrorKind::InvalidBlockName);
        }
        self.name = nm;
        self.opts = Vec::new();
        self.mode = m;
        proof {
            let (st2, act) = open_block_spec(old(self)@, argument@, m);
            assert(self@ =~= st2);
        }
        Ok(Action::Quiet)
    }

    /// Feeds one tokenized line to the machine: either the requested
    /// external action, or the fatal error the line provokes.  On an error
    /// the machine is unchanged.
    pub fn step(&mut self, keyword: &str, argument: &str) -> (r: Result<Action, ErrorKind>)
        requires
            ready(old(self)@),
        ensures
            ({
                let (st2, act) = step_spec(old(self)@, keyword@, argument@);
                match r {
                    Ok(a) => final(self)@ == st2 && a@ == act,
                    Err(e) => final(self)@ == old(self)@ && act == ActionView::Fail(e),
                }
            }),
            r matches Ok(a) ==> match a@ {
                ActionView::AskSingle(m, os) => final(self)@.mode == Mode::AwaitSingle
                    && final(self)@.opts == os,
                ActionView::AskSearch(m, os) => final(self)@.mode == Mode::AwaitSingle
                    && final(self)@.opts == os,
                ActionView::AskMulti(m, os) => final(self)@.mode == Mode::AwaitMulti
                    && final(self)@.opts == os,
                _ => ready(final(self)@),
            },
    {
        if self.mode == Mode::Cond(false) && !str_eq(keyword, "end") {
            return Ok(Action::Quiet);
        }
        if str_eq(keyword, "-") {
            match self.mode {
                Mode::CollectSingle | Mode::CollectSearch | Mode::CollectMulti => {
                    self.opts.push(argument.to_owned());
                    proof {
                        let (st2, act) = step_spec(old(self)@, keyword@, argument@);
                        assert(self@ =~= st2);
                    }
                    Ok(Action::Quiet)
                },
                _ => Err(ErrorKind::InvalidListOperator),
            }
        } else if str_eq(keyword, "shell") {
            Ok(Action::Shell(argument.to_owned()))
        } else if str_eq(keyword, "select") {
            self.open_block(argument, Mode::CollectSingle)
        } else if str_eq(keyword, "multiselect") {
            self.open_block(argument, Mode::CollectMulti)
        } else if str_eq(keyword, "searchselect") {
            self.open_block(argument, Mode::CollectSearch)
        } else if str_eq(keyword, "print") {
            Ok(Action::Print(argument.to_owned()))
        } else if str_eq(keyword, "message") {
            self.message = argument.to_owned();
            proof {
                let (st2, act) = step_spec(old(self)@, keyword@, argument@);
                assert(self@ =~= st2);
            }
            Ok(Action::Quiet)
        } else if str_eq(keyword, "end") {
            match self.mode {
                Mode::CollectSingle => {
                    let mut message = "Select".to_owned();
                    core::mem::swap(&mut self.message, &mut message);
                    let options = clone_string_vec(&self.opts);
                    self.mode = Mode::AwaitSingle;
                    proof {
                        let (st2, act) = step_spec(old(self)@, keyword@, argument@);
                        assert(self@ =~= st2);
                    }
                    Ok(Action::AskSingle { message, options })
                },
                Mode::CollectSearch => {
                    let mut message = "Select".to_owned();
                    core::mem::swap(&mut self.message, &mut message);
                    let options = clone_string_vec(&self.opts);
                    self.mode = Mode::AwaitSingle;
                    proof {
                        let (st2, act) = step_spec(old(self)@, keyword@, argument@);
                        assert(self@ =~= st2);
                    }
                    Ok(Action::AskSearch { message, options })
                },
                Mode::CollectMulti => {
                    let mut message = "Select".to_owned();
                    core::mem::swap(&mut self.message, &mut message);
                    let options = clone_string_vec(&self.opts);
                    self.mode = Mode::AwaitMulti;
                    proof {
                        let (st2, act) = step_spec(old(self)@, keyword@, argument@);
                        assert(self@ =~= st2);
                    }
                    Ok(Action::AskMulti { message, options })
                },
                Mode::Cond(_) => {
                    self.mode = Mode::Idle;
                    proof {
                        let (st2, act) = step_spec(old(self)@, keyword@, argument@);
                        assert(self@ =~= st2);
                    }
                    Ok(Action::Quiet)
                },
                _ => Err(ErrorKind::UnexpectedEnd),
            }
        } else if str_eq(keyword, "if") {
            if self.mode == Mode::Idle {
                let (name, target) = split_word(argument);
                let c = self.eval_cond(name.as_str(), target.as_str());
                self.mode = Mode::Cond(c);
                proof {
                    let (st2, act) = step_spec(old(self)@, keyword@, argument@);
                    assert(self@ =~= st2);
                }
                Ok(Action::Quiet)
            } else {
                Err(ErrorKind::NestedBlock)
            }
        } else if str_eq(keyword, "chdir") {
            Ok(Action::Chdir(argument.to_owned()))
        } else {
            Err(ErrorKind::UnknownKeyword)
        }
    }

    /// Hands the machine the index chosen at a single-choice (or
    /// fuzzy-search) prompt.
    pub fn provide_single(&mut self, choice: usize)
        requires
            old(self)@.mode == Mode::AwaitSingle,
            (choice as int) < old(self)@.opts.len(),
        ensures
            final(self)@ == provide_single_spec(old(self)@, choice),
    {
        let label = self.opts[choice].clone();
        let mut name = String::new();
        core::mem::swap(&mut self.name, &mut name);
        self.singles.push((name, label));
        self.opts = Vec::new();
        self.message = "Select".to_owned();
        self.mode = Mode::Idle;
        proof {
            assert(self@ =~= provide_single_spec(old(self)@, choice));
        }
    }

    /// Hands the machine the indices chosen at a multi-choice prompt, in
    /// the order the gateway reported them.
    pub fn provide_multi(&mut self, picks: &Vec<usize>)
        requires
            old(self)@.mode == Mode::AwaitMulti,
            forall|k: int| 0 <= k < picks@.len() ==> (picks@[k] as int) < old(self)@.opts.len(),
        ensures
            final(self)@ == provide_multi_spec(old(self)@, picks@),
    {
        let ghost opts0 = self@.opts;
        let mut labels: Vec<String> = Vec::new();
        proof {
            assert(labels.deep_view() =~= Seq::new(0, |j: int| opts0[picks@[j] as int]));
        }
        let mut k: usize = 0;
        while k < picks.len()
            invariant
                k <= picks@.len(),
                self == old(self),
                opts0 == self@.opts,
                forall|j: int| 0 <= j < picks@.len() ==> (picks@[j] as int) < opts0.len(),
                labels.deep_view() == Seq::new(k as nat, |j: int| opts0[picks@[j] as int]),
            decreases picks@.len() - k,
        {
            let idx = picks[k];
            let elem = self.opts[idx].clone();
            let ghost labels_snap = labels;
            let ghost elem_snap = elem;
            labels.push(elem);
            k += 1;
            proof {
                lemma_deep_view_push(labels_snap, labels, elem_snap);
                assert(labels.deep_view() =~= Seq::new(
                    k as nat,
                    |j: int| opts0[picks@[j] as int],
                ));
            }
        }
        let mut name = String::new();
        core::mem::swap(&mut self.name, &mut name);
        self.multis.push((name, labels));
        self.opts = Vec::new();
        self.message = "Select".to_owned();
        self.mode = Mode::Idle;
        proof {
            assert(self@ =~= provide_multi_spec(old(self)@, picks@));
        }
    }
}

/// Makes every keyword literal's characters available, so that the
/// keyword comparisons inside [`step_spec`] can be decided.
proof fn reveal_keywords()
    ensures
        "-"@.len() == 1,
        "end"@.len() == 3,
        "if"@.len() == 2,
        "print"@ != "shell"@,
        "print"@ != "chdir"@,
        "shell"@ != "chdir"@,
        "shell"@.len() == 5,
        "print"@.len() == 5,
        "chdir"@.len() == 5,
        "select"@.len() == 6,
        "message"@.len() == 7,
        "multiselect"@.len() == 11,
        "searchselect"@.len() == 12,
{
    reveal_strlit("-");
    reveal_strlit("shell");
    reveal_strlit("select");
    reveal_strlit("multiselect");
    reveal_strlit("searchselect");
    reveal_strlit("print");
    reveal_strlit("message");
    reveal_strlit("end");
    reveal_strlit("if");
    reveal_strlit("chdir");
    assert(("print"@)[0] == 'p' && ("shell"@)[0] == 's' && ("chdir"@)[0] == 'c');
}

/// Law: closing a single-choice (or fuzzy-search) block offers exactly the
/// collected labels under the pending message, and resolving the prompt at
/// any valid index binds the pending name to the label at that index, its
/// text unchanged.  The multi bindings are untouched.
pub proof fn lemma_close_single_binds_label(st: MachineView, arg: Seq<char>, choice: usize)
    requires
        st.mode == Mode::CollectSingle || st.mode == Mode::CollectSearch,
        (choice as int) < st.opts.len(),
    ensures
        ({
            let (st2, act) = step_spec(st, "end"@, arg);
            &&& act == if st.mode == Mode::CollectSingle {
                ActionView::AskSingle(st.message, st.opts)
            } else {
                ActionView::AskSearch(st.message, st.opts)
            }
            &&& assoc_lookup(provide_single_spec(st2, choice).singles, st.name) == Some(
                st.opts[choice as int],
            )
            &&& provide_single_spec(st2, choice).multis == st.multis
            &&& provide_single_spec(st2, choice).mode == Mode::Idle
        }),
{
    reveal_keywords();
    let (st2, act) = step_spec(st, "end"@, arg);
    let ps = provide_single_spec(st2, choice).singles;
    assert(ps.last() == (st.name, st.opts[choice as int]));
}

/// Law: closing a multi-choice block offers exactly the collected labels,
/// and resolving the prompt with any valid index sequence binds the
/// pending name to the labels at those indices, in the order the gateway
/// reported them.  The single bindings are untouched.
pub proof fn lemma_close_multi_binds_labels(st: MachineView, arg: Seq<char>, picks: Seq<usize>)
    requires
        st.mode == Mode::CollectMulti,
        forall|j: int| 0 <= j < picks.len() ==> (picks[j] as int) < st.opts.len(),
    ensures
        ({
            let (st2, act) = step_spec(st, "end"@, arg);
            &&& act == ActionView::AskMulti(st.message, st.opts)
            &&& assoc_lookup(provide_multi_spec(st2, picks).multis, st.name) == Some(
                Seq::new(picks.len(), |j: int| st.opts[picks[j] as int]),
            )
            &&& provide_multi_spec(st2, picks).singles == st.singles
            &&& provide_multi_spec(st2, picks).mode == Mode::Idle
        }),
{
    reveal_keywords();
    let (st2, act) = step_spec(st, "end"@, arg);
    let pm = provide_multi_spec(st2, picks).multis;
    assert(Seq::new(picks.len(), |j: int| st2.opts[picks[j] as int]) =~= Seq::new(
        picks.len(),
        |j: int| st.opts[picks[j] as int],
    ));
    assert(pm.last() == (st.name, Seq::new(picks.len(), |j: int| st.opts[picks[j] as int])));
}

/// Law: an `if` line from the idle mode never fails.  It opens a
/// conditional whose body runs exactly when a prior single binding for the
/// first word of the argument equals the rest, or a prior multi binding
/// for it contains the rest; a name never bound of either kind opens the
/// skipping conditional.
pub proof fn lemma_if_evaluates(st: MachineView, arg: Seq<char>)
    requires
        st.mode == Mode::Idle,
    ensures
        step_spec(st, "if"@, arg) == (
            MachineView { mode: Mode::Cond(cond_matches(st, word_of(arg), rest_of(arg))), ..st },
            ActionView::Quiet,
        ),
        assoc_lookup(st.singles, word_of(arg)) is None && assoc_lookup(st.multis, word_of(arg))
            is None ==> !cond_matches(st, word_of(arg), rest_of(arg)),
{
    reveal_keywords();
}

/// Law: while a false conditional is open, every keyword except `end` is
/// inert — no state change, no effect, no error.
pub proof fn lemma_false_cond_skips(st: MachineView, kw: Seq<char>, arg: Seq<char>)
    requires
        st.mode == Mode::Cond(false),
        kw != "end"@,
    ensures
        step_spec(st, kw, arg) == (st, ActionView::Quiet),
{
}

/// Law: while a true conditional is open, the body keywords `print`,
/// `shell`, `chdir` and `message` behave exactly as outside any block: the
/// same action is requested, and the state changes in the same way except
/// that the conditional stays open.
pub proof fn lemma_true_cond_executes(st: MachineView, kw: Seq<char>, arg: Seq<char>)
    requires
        st.mode == Mode::Cond(true),
        kw == "print"@ || kw == "shell"@ || kw == "chdir"@ || kw == "message"@,
    ensures
        ({
            let idle = MachineView { mode: Mode::Idle, ..st };
            &&& step_spec(st, kw, arg).1 == step_spec(idle, kw, arg).1
            &&& step_spec(st, kw, arg).0 == MachineView {
                mode: Mode::Cond(true),
                ..step_spec(idle, kw, arg).0
            }
        }),
{
    reveal_keywords();
    let idle = MachineView { mode: Mode::Idle, ..st };
    assert(step_spec(st, kw, arg).0 =~= MachineView {
        mode: Mode::Cond(true),
        ..step_spec(idle, kw, arg).0
    });
}

} // verus!
