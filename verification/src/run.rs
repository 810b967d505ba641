//! Running a whole script: the per-line loop that tokenizes, steps the
//! machine, performs the machine's requested actions against scripted
//! gateway replies, and collects the external effects in source order.
//!
//! The gateways are modelled as data: a [`Replies`] value lists, in order,
//! the index each single-choice prompt returns, the index set each
//! multi-choice prompt returns, and whether each shell command or directory
//! change succeeds.  A prompt whose reply stream is exhausted, or whose
//! reply is out of range for the offered options, counts as a cancelled
//! prompt; a shell or directory reply stream that runs out means the
//! remaining commands succeed.

use vstd::prelude::*;

use crate::machine::{
    init_spec, provide_multi_spec, provide_single_spec, ready, step_spec, Action, ActionView,
    ErrorKind, Machine, MachineView, Mode,
};
use crate::text::{split_lines, split_lines_spec};
use crate::token::{tokenize_line, tokenize_line_spec, LineTok, LineTokView};

verus! {

/// One external effect performed during a run, in source order.
#[derive(Debug, Clone, PartialEq, Eq)]
pub enum Effect {
    /// Text written to standard output.
    Print(String),
    /// A command line run through the action gateway.
    Shell(String),
    /// A working-directory change through the action gateway.
    Chdir(String),
}

/// Ghost counterpart of [`Effect`].
pub enum EffectView {
    Print(Seq<char>),
    Shell(Seq<char>),
    Chdir(Seq<char>),
}

impl View for Effect {
    type V = EffectView;

    open spec fn view(&self) -> EffectView {
        match self {
            Effect::Print(t) => EffectView::Print(t@),
            Effect::Shell(t) => EffectView::Shell(t@),
            Effect::Chdir(t) => EffectView::Chdir(t@),
        }
    }
}

impl DeepView for Effect {
    type V = EffectView;

    open spec fn deep_view(&self) -> EffectView {
        self.view()
    }
}

/// Scripted gateway replies, each stream consumed in order.
#[derive(Debug, Clone, PartialEq, Eq)]
pub struct Replies {
    /// Replies to single-choice and fuzzy-search prompts.
    pub singles: Vec<usize>,
    /// Replies to multi-choice prompts.
    pub multis: Vec<Vec<usize>>,
    /// Outcomes of shell commands; an exhausted stream means success.
    pub shells: Vec<bool>,
    /// Outcomes of directory changes; an exhausted stream means success.
    pub chdirs: Vec<bool>,
}

/// Ghost counterpart of [`Replies`].
pub struct RepliesView {
    pub singles: Seq<usize>,
    pub multis: Seq<Seq<usize>>,
    pub shells: Seq<bool>,
    pub chdirs: Seq<bool>,
}

impl View for Replies {
    type V = RepliesView;

    open spec fn view(&self) -> RepliesView {
        RepliesView {
            singles: self.singles@,
            multis: self.multis.deep_view(),
            shells: self.shells@,
            chdirs: self.chdirs@,
        }
    }
}

/// How far each reply stream has been consumed.
#[verifier::ext_equal]
pub struct Cursor {
    pub singles_at: int,
    pub multis_at: int,
    pub shells_at: int,
    pub chdirs_at: int,
}

/// The cursor a run starts with.
pub open spec fn cursor_start() -> Cursor {
    Cursor { singles_at: 0, multis_at: 0, shells_at: 0, chdirs_at: 0 }
}

/// A finished run: the final machine (with its bindings) and the effects
/// performed, in source order.
#[derive(Debug)]
pub struct RunOutput {
    pub effects: Vec<Effect>,
    pub machine: Machine,
}

/// A fatal outcome: the 1-based physical line it arose on, and its kind.
#[derive(Debug, Clone, Copy, PartialEq, Eq, Structural)]
pub struct RunError {
    pub line: usize,
    pub kind: ErrorKind,
}

/// Prepends already-performed effects to the outcome of the rest of a run.
pub open spec fn with_effects(
    pre: Seq<EffectView>,
    rest: Result<(MachineView, Seq<EffectView>), (int, ErrorKind)>,
) -> Result<(MachineView, Seq<EffectView>), (int, ErrorKind)> {
    match rest {
        Ok((stf, effs)) => Ok((stf, pre + effs)),
        Err(x) => Err(x),
    }
}

/// Interprets `lines[i..]` from state `st` with the reply streams at `c`:
/// either the final state with the effects performed from here on, or the
/// fatal error and the 1-based line it arose on.
pub open spec fn run_lines(
    lines: Seq<Seq<char>>,
    i: int,
    st: MachineView,
    r: RepliesView,
    c: Cursor,
) -> Result<(MachineView, Seq<EffectView>), (int, ErrorKind)>
    decreases lines.len() - i,
{
    if i < 0 || i >= lines.len() {
        Ok((st, Seq::empty()))
    } else {
        match tokenize_line_spec(lines[i]) {
            None => Err((i + 1, ErrorKind::MalformedLine)),
            Some(LineTokView::Blank) => run_lines(lines, i + 1, st, r, c),
            Some(LineTokView::Comment) => run_lines(lines, i + 1, st, r, c),
            Some(LineTokView::Tok { keyword, argument }) => {
                let (st2, act) = step_spec(st, keyword, argument);
                match act {
                    ActionView::Quiet => run_lines(lines, i + 1, st2, r, c),
                    ActionView::Fail(k) => Err((i + 1, k)),
                    ActionView::Print(t) => with_effects(
                        seq![EffectView::Print(t)],
                        run_lines(lines, i + 1, st2, r, c),
                    ),
                    ActionView::Shell(t) => {
                        if c.shells_at < r.shells.len() && !r.shells[c.shells_at] {
                            Err((i + 1, ErrorKind::CommandFailed))
                        } else {
                            with_effects(
                                seq![EffectView::Shell(t)],
                                run_lines(
                                    lines,
                                    i + 1,
                                    st2,
                                    r,
                                    Cursor { shells_at: c.shells_at + 1, ..c },
                                ),
                            )
                        }
                    },
                    ActionView::Chdir(t) => {
                        if c.chdirs_at < r.chdirs.len() && !r.chdirs[c.chdirs_at] {
                            Err((i + 1, ErrorKind::ChdirFailed))
                        } else {
                            with_effects(
                                seq![EffectView::Chdir(t)],
                                run_lines(
                                    lines,
                                    i + 1,
                                    st2,
                                    r,
                                    Cursor { chdirs_at: c.chdirs_at + 1, ..c },
                                ),
                            )
                        }
                    },
                    ActionView::AskSingle(m, os) => {
                        if c.singles_at < r.singles.len() && (r.singles[c.singles_at] as int)
                            < os.len() {
                            run_lines(
                                lines,
                                i + 1,
                                provide_single_spec(st2, r.singles[c.singles_at]),
                                r,
                                Cursor { singles_at: c.singles_at + 1, ..c },
                            )
                        } else {
                            Err((i + 1, ErrorKind::PromptAborted))
                        }
                    },
                    ActionView::AskSearch(m, os) => {
                        if c.singles_at < r.singles.len() && (r.singles[c.singles_at] as int)
                            < os.len() {
                            run_lines(
                                lines,
                                i + 1,
                                provide_single_spec(st2, r.singles[c.singles_at]),
                                r,
                                Cursor { singles_at: c.singles_at + 1, ..c },
                            )
                        } else {
                            Err((i + 1, ErrorKind::PromptAborted))
                        }
                    },
                    ActionView::AskMulti(m, os) => {
                        if c.multis_at < r.multis.len() && (forall|j: int|
                            0 <= j < r.multis[c.multis_at].len() ==> (
                            r.multis[c.multis_at][j] as int) < os.len()) {
                            run_lines(
                                lines,
                                i + 1,
                                provide_multi_spec(st2, r.multis[c.multis_at]),
                                r,
                                Cursor { multis_at: c.multis_at + 1, ..c },
                            )
                        } else {
                            Err((i + 1, ErrorKind::PromptAborted))
                        }
                    },
                }
            },
        }
    }
}

/// Interpreting a whole script from a fresh machine.
pub open spec fn run_spec(script: Seq<char>, r: RepliesView) -> Result<
    (MachineView, Seq<EffectView>),
    (int, ErrorKind),
> {
    run_lines(split_lines_spec(script), 0, init_spec(), r, cursor_start())
}

/// Merging one performed effect into the already-performed prefix.
proof fn lemma_with_effects_merge(
    pre: Seq<EffectView>,
    e: EffectView,
    x: Result<(MachineView, Seq<EffectView>), (int, ErrorKind)>,
)
    ensures
        with_effects(pre, with_effects(seq![e], x)) == with_effects(pre.push(e), x),
{
    match x {
        Ok((stf, effs)) => {
            assert(pre + (seq![e] + effs) =~= pre.push(e) + effs);
        },
        Err(_) => {},
    }
}

/// Whether every index of `picks` is below `n`.
fn all_below(picks: &Vec<usize>, n: usize) -> (r: bool)
    ensures
        r == (forall|j: int| 0 <= j < picks@.len() ==> (picks@[j] as int) < n),
{
    let mut k: usize = 0;
    while k < picks.len()
        invariant
            k <= picks@.len(),
            forall|j: int| 0 <= j < k ==> (picks@[j] as int) < n,
        decreases picks@.len() - k,
    {
        if picks[k] >= n {
            return false;
        }
        k += 1;
    }
    true
}

/// Interprets a whole script against scripted gateway replies, from a
/// fresh machine: the effects performed in source order and the final
/// bindings, or the first fatal error with its 1-based line number.
pub fn run_script(script: &str, replies: &Replies) -> (r: Result<RunOutput, RunError>)
    ensures
        match r {
            Ok(out) => run_spec(script@, replies@) == Ok::<_, (int, ErrorKind)>(
                (out.machine@, out.effects.deep_view()),
            ),
            Err(e) => run_spec(script@, replies@) == Err::<(MachineView, Seq<EffectView>), _>(
                (e.line as int, e.kind),
            ),
        },
{
    let lines = split_lines(script);
    let mut m = Machine::new();
    let mut effects: Vec<Effect> = Vec::new();
    let mut singles_at: usize = 0;
    let mut multis_at: usize = 0;
    let mut shells_at: usize = 0;
    let mut chdirs_at: usize = 0;
    let ghost r0 = replies@;
    let ghost ld = lines.deep_view();
    let mut i: usize = 0;
    proof {
        let x = run_lines(ld, 0, init_spec(), r0, cursor_start());
        assert(with_effects(effects.deep_view(), x) == x) by {
            match x {
                Ok((stf, effs)) => {
                    assert(effects.deep_view() + effs =~= effs);
                },
                Err(_) => {},
            }
        }
    }
    while i < lines.len()
        invariant
            i <= lines@.len(),
            ld == lines.deep_view(),
            ld.len() == lines@.len(),
            r0 == replies@,
            ready(m@),
            singles_at <= i,
            multis_at <= i,
            shells_at <= i,
            chdirs_at <= i,
            run_spec(script@, r0) == with_effects(
                effects.deep_view(),
                run_lines(
                    ld,
                    i as int,
                    m@,
                    r0,
                    Cursor {
                        singles_at: singles_at as int,
                        multis_at: multis_at as int,
                        shells_at: shells_at as int,
                        chdirs_at: chdirs_at as int,
                    },
                ),
            ),
        decreases lines@.len() - i,
    {
        let ghost cur = Cursor {
            singles_at: singles_at as int,
            multis_at: multis_at as int,
            shells_at: shells_at as int,
            chdirs_at: chdirs_at as int,
        };
        let ghost i0 = i as int;
        let ghost st0 = m@;
        let line = &lines[i];
        proof {
            assert(line@ == ld[i0]);
        }
        match tokenize_line(line.as_str()) {
            None => {
                proof {
                    assert(run_lines(ld, i0, st0, r0, cur) == Err::<
                        (MachineView, Seq<EffectView>),
                        _,
                    >((i0 + 1, ErrorKind::MalformedLine)));
                }
                return Err(RunError { line: i + 1, kind: ErrorKind::MalformedLine });
            },
            Some(LineTok::Blank) => {
                proof {
                    assert(run_lines(ld, i0, st0, r0, cur) == run_lines(ld, i0 + 1, st0, r0, cur));
                }
                i += 1;
            },
            Some(LineTok::Comment) => {
                proof {
                    assert(run_lines(ld, i0, st0, r0, cur) == run_lines(ld, i0 + 1, st0, r0, cur));
                }
                i += 1;
            },
            Some(LineTok::Tok { keyword, argument }) => {
                let step_result = m.step(keyword.as_str(), argument.as_str());
                proof {
                    assert(tokenize_line_spec(ld[i0]) == Some(LineTokView::Tok {
                        keyword: keyword@,
                        argument: argument@,
                    }));
                }
                match step_result {
                    Err(k) => {
                        proof {
                            assert(run_lines(ld, i0, st0, r0, cur) == Err::<
                                (MachineView, Seq<EffectView>),
                                _,
                            >((i0 + 1, k)));
                        }
                        return Err(RunError { line: i + 1, kind: k });
                    },
                    Ok(Action::Quiet) => {
                        proof {
                            assert(run_lines(ld, i0, st0, r0, cur) == run_lines(
                                ld,
                                i0 + 1,
                                m@,
                                r0,
                                cur,
                            ));
                        }
                        i += 1;
                    },
                    Ok(Action::Print(t)) => {
                        let ghost effects_snap = effects;
                        let eff = Effect::Print(t);
                        let ghost eff_snap = eff;
                        effects.push(eff);
                        proof {
                            crate::text::lemma_deep_view_push(effects_snap, effects, eff_snap);
                            assert(run_lines(ld, i0, st0, r0, cur) == with_effects(
                                seq![eff_snap@],
                                run_lines(ld, i0 + 1, m@, r0, cur),
                            ));
                            lemma_with_effects_merge(
                                effects_snap.deep_view(),
                                eff_snap@,
                                run_lines(ld, i0 + 1, m@, r0, cur),
                            );
                        }
                        i += 1;
                    },
                    Ok(Action::Shell(t)) => {
                        let ok = if shells_at < replies.shells.len() {
                            replies.shells[shells_at]
                        } else {
                            true
                        };
                        if !ok {
                            proof {
                                assert(run_lines(ld, i0, st0, r0, cur) == Err::<
                                    (MachineView, Seq<EffectView>),
                                    _,
                                >((i0 + 1, ErrorKind::CommandFailed)));
                            }
                            return Err(RunError { line: i + 1, kind: ErrorKind::CommandFailed });
                        }
                        let ghost effects_snap = effects;
                        let eff = Effect::Shell(t);
                        let ghost eff_snap = eff;
                        effects.push(eff);
                        shells_at += 1;
                        proof {
                            crate::text::lemma_deep_view_push(effects_snap, effects, eff_snap);
                            let cur2 = Cursor { shells_at: shells_at as int, ..cur };
                            assert(run_lines(ld, i0, st0, r0, cur) == with_effects(
                                seq![eff_snap@],
                                run_lines(ld, i0 + 1, m@, r0, cur2),
                            ));
                            lemma_with_effects_merge(
                                effects_snap.deep_view(),
                                eff_snap@,
                                run_lines(ld, i0 + 1, m@, r0, cur2),
                            );
                        }
                        i += 1;
                    },
                    Ok(Action::Chdir(t)) => {
                        let ok = if chdirs_at < replies.chdirs.len() {
                            replies.chdirs[chdirs_at]
                        } else {
                            true
                        };
                        if !ok {
                            proof {
                                assert(run_lines(ld, i0, st0, r0, cur) == Err::<
                                    (MachineView, Seq<EffectView>),
                                    _,
                                >((i0 + 1, ErrorKind::ChdirFailed)));
                            }
                            return Err(RunError { line: i + 1, kind: ErrorKind::ChdirFailed });
                        }
                        let ghost effects_snap = effects;
                        let eff = Effect::Chdir(t);
                        let ghost eff_snap = eff;
                        effects.push(eff);
                        chdirs_at += 1;
                        proof {
                            crate::text::lemma_deep_view_push(effects_snap, effects, eff_snap);
                            let cur2 = Cursor { chdirs_at: chdirs_at as int, ..cur };
                            assert(run_lines(ld, i0, st0, r0, cur) == with_effects(
                                seq![eff_snap@],
                                run_lines(ld, i0 + 1, m@, r0, cur2),
                            ));
                            lemma_with_effects_merge(
                                effects_snap.deep_view(),
                                eff_snap@,
                                run_lines(ld, i0 + 1, m@, r0, cur2),
                            );
                        }
                        i += 1;
                    },
                    Ok(Action::AskSingle { message, options }) => {
                        if singles_at >= replies.singles.len() {
                            proof {
                                assert(run_lines(ld, i0, st0, r0, cur) == Err::<
                                    (MachineView, Seq<EffectView>),
                                    _,
                                >((i0 + 1, ErrorKind::PromptAborted)));
                            }
                            return Err(RunError { line: i + 1, kind: ErrorKind::PromptAborted });
                        }
                        let pick = replies.singles[singles_at];
                        if pick >= options.len() {
                            proof {
                                assert(run_lines(ld, i0, st0, r0, cur) == Err::<
                                    (MachineView, Seq<EffectView>),
                                    _,
                                >((i0 + 1, ErrorKind::PromptAborted)));
                            }
                            return Err(RunError { line: i + 1, kind: ErrorKind::PromptAborted });
                        }
                        m.provide_single(pick);
                        singles_at += 1;
                        proof {
                            let cur2 = Cursor { singles_at: singles_at as int, ..cur };
                            assert(run_lines(ld, i0, st0, r0, cur) == run_lines(
                                ld,
                                i0 + 1,
                                m@,
                                r0,
                                cur2,
                            ));
                        }
                        i += 1;
                    },
                    Ok(Action::AskSearch { message, options }) => {
                        if singles_at >= replies.singles.len() {
                            proof {
                                assert(run_lines(ld, i0, st0, r0, cur) == Err::<
                                    (MachineView, Seq<EffectView>),
                                    _,
                                >((i0 + 1, ErrorKind::PromptAborted)));
                            }
                            return Err(RunError { line: i + 1, kind: ErrorKind::PromptAborted });
                        }
                        let pick = replies.singles[singles_at];
                        if pick >= options.len() {
                            proof {
                                assert(run_lines(ld, i0, st0, r0, cur) == Err::<
                                    (MachineView, Seq<EffectView>),
                                    _,
                                >((i0 + 1, ErrorKind::PromptAborted)));
                            }
                            return Err(RunError { line: i + 1, kind: ErrorKind::PromptAborted });
                        }
                        m.provide_single(pick);
                        singles_at += 1;
                        proof {
                            let cur2 = Cursor { singles_at: singles_at as int, ..cur };
                            assert(run_lines(ld, i0, st0, r0, cur) == run_lines(
                                ld,
                                i0 + 1,
                                m@,
                                r0,
                                cur2,
                            ));
                        }
                        i += 1;
                    },
                    Ok(Action::AskMulti { message, options }) => {
                        if multis_at >= replies.multis.len() {
                            proof {
                                assert(run_lines(ld, i0, st0, r0, cur) == Err::<
                                    (MachineView, Seq<EffectView>),
                                    _,
                                >((i0 + 1, ErrorKind::PromptAborted)));
                            }
                            return Err(RunError { line: i + 1, kind: ErrorKind::PromptAborted });
                        }
                        let picks = &replies.multis[multis_at];
                        if !all_below(picks, options.len()) {
                            proof {
                                assert(r0.multis[multis_at as int] == picks@);
                                assert(run_lines(ld, i0, st0, r0, cur) == Err::<
                                    (MachineView, Seq<EffectView>),
                                    _,
                                >((i0 + 1, ErrorKind::PromptAborted)));
                            }
                            return Err(RunError { line: i + 1, kind: ErrorKind::PromptAborted });
                        }
                        proof {
                            assert(r0.multis[multis_at as int] == picks@);
                        }
                        m.provide_multi(picks);
                        multis_at += 1;
                        proof {
                            let cur2 = Cursor { multis_at: multis_at as int, ..cur };
                            assert(run_lines(ld, i0, st0, r0, cur) == run_lines(
                                ld,
                                i0 + 1,
                                m@,
                                r0,
                                cur2,
                            ));
                        }
                        i += 1;
                    },
                }
            },
        }
    }
    proof {
        let c = Cursor {
            singles_at: singles_at as int,
            multis_at: multis_at as int,
            shells_at: shells_at as int,
            chdirs_at: chdirs_at as int,
        };
        assert(run_lines(ld, i as int, m@, r0, c) == Ok::<_, (int, ErrorKind)>(
            (m@, Seq::<EffectView>::empty()),
        ));
        assert(effects.deep_view() + Seq::<EffectView>::empty() =~= effects.deep_view());
    }
    Ok(RunOutput { effects, machine: m })
}

/// A line with no block structure: blank, a comment, or one of the plain
/// command keywords.
pub open spec fn straight_line(l: Seq<char>) -> bool {
    match tokenize_line_spec(l) {
        None => false,
        Some(LineTokView::Blank) => true,
        Some(LineTokView::Comment) => true,
        Some(LineTokView::Tok { keyword, argument }) => keyword == "print"@ || keyword == "shell"@
            || keyword == "chdir"@ || keyword == "message"@,
    }
}

/// The effects of the `print`, `shell` and `chdir` lines of
/// `lines[i..]`, in source order.
pub open spec fn straight_effects(lines: Seq<Seq<char>>, i: int) -> Seq<EffectView>
    decreases lines.len() - i,
{
    if i < 0 || i >= lines.len() {
        Seq::empty()
    } else {
        match tokenize_line_spec(lines[i]) {
            Some(LineTokView::Tok { keyword, argument }) => if keyword == "print"@ {
                seq![EffectView::Print(argument)] + straight_effects(lines, i + 1)
            } else if keyword == "shell"@ {
                seq![EffectView::Shell(argument)] + straight_effects(lines, i + 1)
            } else if keyword == "chdir"@ {
                seq![EffectView::Chdir(argument)] + straight_effects(lines, i + 1)
            } else {
                straight_effects(lines, i + 1)
            },
            _ => straight_effects(lines, i + 1),
        }
    }
}

/// Law: a script with no choice or conditional blocks, run while every
/// shell command and directory change succeeds, succeeds as a whole; it
/// performs exactly the effects of its `print`, `shell` and `chdir` lines
/// in source order, and leaves every binding untouched (`message` lines
/// have no observable effect).
#[verifier::rlimit(50)]
pub proof fn lemma_straight_line_run(
    lines: Seq<Seq<char>>,
    i: int,
    st: MachineView,
    r: RepliesView,
    c: Cursor,
)
    requires
        0 <= i <= lines.len(),
        st.mode == Mode::Idle,
        forall|j: int| i <= j < lines.len() ==> straight_line(#[trigger] lines[j]),
        forall|k: int| 0 <= k < r.shells.len() ==> r.shells[k],
        forall|k: int| 0 <= k < r.chdirs.len() ==> r.chdirs[k],
        c.shells_at >= 0,
        c.chdirs_at >= 0,
    ensures
        ({
            let res = run_lines(lines, i, st, r, c);
            &&& res is Ok
            &&& res matches Ok((stf, effs)) ==> effs == straight_effects(lines, i)
                && stf.mode == Mode::Idle && stf.singles == st.singles && stf.multis == st.multis
        }),
    decreases lines.len() - i,
{
    reveal_strlit("-");
    reveal_strlit("shell");
    reveal_strlit("select");
    reveal_strlit("multiselect");
    reveal_strlit("searchselect");
    reveal_strlit("print");
    reveal_strlit("message");
    reveal_strlit("end");
    reveal_strlit("if");
    reveal_strlit("chdir");
    assert(("print"@)[0] == 'p' && ("shell"@)[0] == 's' && ("chdir"@)[0] == 'c');
    if i < lines.len() {
        assert(straight_line(lines[i]));
        match tokenize_line_spec(lines[i]) {
            None => {
                assert(false);
            },
            Some(LineTokView::Blank) => {
                lemma_straight_line_run(lines, i + 1, st, r, c);
            },
            Some(LineTokView::Comment) => {
                lemma_straight_line_run(lines, i + 1, st, r, c);
            },
            Some(LineTokView::Tok { keyword, argument }) => {
                let (st2, act) = step_spec(st, keyword, argument);
                if keyword == "print"@ {
                    assert(st2 == st);
                    assert(act == ActionView::Print(argument));
                    lemma_straight_line_run(lines, i + 1, st2, r, c);
                } else if keyword == "shell"@ {
                    assert(st2 == st);
                    assert(act == ActionView::Shell(argument));
                    assert(!(c.shells_at < r.shells.len() && !r.shells[c.shells_at]));
                    let c2 = Cursor { shells_at: c.shells_at + 1, ..c };
                    lemma_straight_line_run(lines, i + 1, st2, r, c2);
                } else if keyword == "chdir"@ {
                    assert(st2 == st);
                    assert(act == ActionView::Chdir(argument));
                    assert(!(c.chdirs_at < r.chdirs.len() && !r.chdirs[c.chdirs_at]));
                    let c2 = Cursor { chdirs_at: c.chdirs_at + 1, ..c };
                    lemma_straight_line_run(lines, i + 1, st2, r, c2);
                } else {
                    assert(keyword == "message"@);
                    assert(st2.mode == Mode::Idle && st2.singles == st.singles && st2.multis
                        == st.multis);
                    assert(act == ActionView::Quiet);
                    lemma_straight_line_run(lines, i + 1, st2, r, c);
                }
            },
        }
    }
}

} // verus!
