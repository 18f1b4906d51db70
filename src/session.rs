//! The read loop's decisions: from the session state and what the line
//! reader delivered, the next state and what to do.
//!
//! The loop that reads lines and hands the expressions on runs outside the
//! library; it calls `Session::step` once per event and performs the action.

use crate::expr::{tree_of, Expr, Tree};
use crate::history::{add_spec, History};
use crate::parser::{parse_spec, ParseError, WLParser};
use vstd::prelude::*;

verus! {

/// What the line reader delivered.
pub enum Event {
    /// A line of text, without its line break.
    Line(String),
    /// The end of the input.
    Eof,
    /// The user cancelled the line being read.
    Interrupted,
}

/// Where the loop stands.
#[derive(Clone, Copy, Debug, PartialEq, Eq, Structural)]
pub enum Mode {
    /// Waiting for the first line of an expression.
    AwaitingLine,
    /// Holding the beginning of an expression and waiting for more of it.
    Accumulating,
    /// The session has ended.
    Terminated,
}

/// Which prompt to show before reading.
#[derive(Clone, Copy, Debug, PartialEq, Eq, Structural)]
pub enum Prompt {
    /// The input prompt for the expression with this number.
    Input(u64),
    /// The continuation prompt of an unfinished expression.
    Continuation,
}

/// What the loop is to do after an event.
#[derive(Debug)]
pub enum Action {
    /// Hand the expression with this number to the evaluator.
    Dispatch(u64, Expr),
    /// Show the error; the input is dropped.
    Report(ParseError),
    /// Read a continuation line.
    Continue,
    /// Nothing to do: the line held no expression.
    Skip,
    /// The unfinished expression was abandoned.
    Cancelled,
    /// Leave the loop.
    Terminate,
}

/// The model of an event.
pub enum EventView {
    Line(Seq<char>),
    Eof,
    Interrupted,
}

/// The model of an action.
pub enum Outcome {
    Dispatch(u64, Tree),
    Report(ParseError),
    Continue,
    Skip,
    Cancelled,
    Terminate,
}

/// The model of a session.
pub struct SessionView {
    pub seq: u64,
    pub pending: Seq<char>,
    pub mode: Mode,
    pub history: Seq<Seq<char>>,
    pub max_history: nat,
    pub ignore_dups: bool,
}

pub open spec fn event_view(e: &Event) -> EventView {
    match e {
        Event::Line(s) => EventView::Line(s@),
        Event::Eof => EventView::Eof,
        Event::Interrupted => EventView::Interrupted,
    }
}

pub open spec fn outcome_of(a: &Action) -> Outcome {
    match a {
        Action::Dispatch(n, e) => Outcome::Dispatch(*n, tree_of(*e)),
        Action::Report(err) => Outcome::Report(*err),
        Action::Continue => Outcome::Continue,
        Action::Skip => Outcome::Skip,
        Action::Cancelled => Outcome::Cancelled,
        Action::Terminate => Outcome::Terminate,
    }
}

/// The number after `n`; the largest number stays as it is.
pub open spec fn next_number(n: u64) -> u64 {
    if n < u64::MAX { (n + 1) as u64 } else { n }
}

/// A fresh session: number 0, nothing pending, an empty history.
pub open spec fn initial_view(max_history: nat, ignore_dups: bool) -> SessionView {
    SessionView {
        seq: 0,
        pending: Seq::empty(),
        mode: Mode::AwaitingLine,
        history: Seq::empty(),
        max_history,
        ignore_dups,
    }
}

/// The session after `v` received the line `line`.
pub open spec fn after_line(v: SessionView, line: Seq<char>) -> (SessionView, Outcome) {
    let history = add_spec(v.history, line, v.max_history, v.ignore_dups);
    let buf = v.pending + line;
    let idle = SessionView { pending: Seq::empty(), mode: Mode::AwaitingLine, history, ..v };
    match parse_spec(buf) {
        Ok(t) => (SessionView { seq: next_number(v.seq), ..idle }, Outcome::Dispatch(v.seq, t)),
        Err(ParseError::Incomplete { .. }) => (
            SessionView { pending: buf, mode: Mode::Accumulating, history, ..v },
            Outcome::Continue,
        ),
        Err(ParseError::Syntax { offset, expected }) => (idle, Outcome::Report(ParseError::Syntax { offset, expected })),
        Err(ParseError::Empty) => (idle, Outcome::Skip),
    }
}

/// One step of the read loop.
pub open spec fn step_spec(v: SessionView, ev: EventView) -> (SessionView, Outcome) {
    match ev {
        EventView::Line(line) => after_line(v, line),
        EventView::Interrupted => {
            if v.mode == Mode::Accumulating {
                (SessionView { pending: Seq::empty(), mode: Mode::AwaitingLine, ..v }, Outcome::Cancelled)
            } else {
                (SessionView { pending: Seq::empty(), mode: Mode::Terminated, ..v }, Outcome::Terminate)
            }
        },
        EventView::Eof => (SessionView { pending: Seq::empty(), mode: Mode::Terminated, ..v }, Outcome::Terminate),
    }
}

/// The state of one read loop: the number of the next expression, the
/// unfinished input, where the loop stands, and the line history.
pub struct Session {
    seq: u64,
    pending: String,
    mode: Mode,
    history: History,
}

impl View for Session {
    type V = SessionView;

    closed spec fn view(&self) -> SessionView {
        SessionView {
            seq: self.seq,
            pending: self.pending@,
            mode: self.mode,
            history: self.history@,
            max_history: self.history.capacity(),
            ignore_dups: self.history.ignores_dups(),
        }
    }
}

impl Session {
    pub closed spec fn wf(&self) -> bool {
        self.history.wf()
    }

    /// A fresh session whose history keeps at most `max_history` lines and,
    /// when `ignore_dups` is set, skips a line that repeats the newest one.
    pub fn new(max_history: usize, ignore_dups: bool) -> (r: Session)
        ensures
            r.wf(),
            r@ == initial_view(max_history as nat, ignore_dups),
    {
        let r = Session {
            seq: 0,
            pending: String::new(),
            mode: Mode::AwaitingLine,
            history: History::new(max_history, ignore_dups),
        };
        assert(r@.pending =~= Seq::<char>::empty());
        r
    }

    /// The prompt to show before the next read.
    pub fn prompt(&self) -> (r: Prompt)
        ensures
            self@.mode == Mode::Accumulating ==> r == Prompt::Continuation,
            self@.mode != Mode::Accumulating ==> r == Prompt::Input(self@.seq),
    {
        if self.mode == Mode::Accumulating {
            Prompt::Continuation
        } else {
            Prompt::Input(self.seq)
        }
    }

    /// The number the next complete expression will get.
    pub fn sequence_number(&self) -> (r: u64)
        ensures
            r == self@.seq,
    {
        self.seq
    }

    /// The text of the unfinished expression.
    pub fn pending(&self) -> (r: &String)
        ensures
            r@ == self@.pending,
    {
        &self.pending
    }

    /// Where the loop stands.
    pub fn mode(&self) -> (r: Mode)
        ensures
            r == self@.mode,
    {
        self.mode
    }

    /// The accepted lines.
    pub fn history(&self) -> (r: &History)
        ensures
            r@ == self@.history,
            r.capacity() == self@.max_history,
    {
        &self.history
    }

    /// Takes one event from the line reader: records a line in the history,
    /// adds it to the unfinished input and parses that; a complete
    /// expression gets the next number, an error drops the input, an
    /// incomplete one waits for more. An interrupt abandons the unfinished
    /// input, or ends the session when there is none; the end of the input
    /// ends it.
    pub fn step(&mut self, ev: Event) -> (a: Action)
        requires
            old(self).wf(),
            old(self)@.mode != Mode::Terminated,
        ensures
            final(self).wf(),
            (final(self)@, outcome_of(&a)) == step_spec(old(self)@, event_view(&ev)),
    {
        match ev {
            Event::Line(line) => {
                self.history.add(line.as_str());
                self.pending.append(line.as_str());
                match WLParser::parse(self.pending.as_str()) {
                    Ok(e) => {
                        let n = self.seq;
                        if self.seq < u64::MAX {
                            self.seq = self.seq + 1;
                        }
                        self.pending = String::new();
                        self.mode = Mode::AwaitingLine;
                        Action::Dispatch(n, e)
                    },
                    Err(err) => {
                        match err {
                            ParseError::Incomplete { .. } => {
                                self.mode = Mode::Accumulating;
                                Action::Continue
                            },
                            ParseError::Syntax { .. } => {
                                self.pending = String::new();
                                self.mode = Mode::AwaitingLine;
                                Action::Report(err)
                            },
                            ParseError::Empty => {
                                self.pending = String::new();
                                self.mode = Mode::AwaitingLine;
                                Action::Skip
                            },
                        }
                    },
                }
            },
            Event::Interrupted => {
                self.pending = String::new();
                if self.mode == Mode::Accumulating {
                    self.mode = Mode::AwaitingLine;
                    Action::Cancelled
                } else {
                    self.mode = Mode::Terminated;
                    Action::Terminate
                }
            },
            Event::Eof => {
                self.pending = String::new();
                self.mode = Mode::Terminated;
                Action::Terminate
            },
        }
    }
}

/// A session waiting for a first line, with nothing pending.
pub open spec fn awaiting(v: SessionView) -> bool {
    v.mode == Mode::AwaitingLine && v.pending == Seq::<char>::empty()
}

/// Lines that fail to parse take no number: from a session waiting for a
/// line, two lines with syntax errors and then a complete expression give
/// that expression the number the session had before them (0 in a fresh
/// session).
pub proof fn lemma_failed_lines_take_no_number(v: SessionView, a: Seq<char>, b: Seq<char>, c: Seq<char>)
    requires
        awaiting(v),
        parse_spec(a) matches Err(ParseError::Syntax { .. }),
        parse_spec(b) matches Err(ParseError::Syntax { .. }),
        parse_spec(c) is Ok,
    ensures
        ({
            let (v1, o1) = step_spec(v, EventView::Line(a));
            let (v2, o2) = step_spec(v1, EventView::Line(b));
            let (v3, o3) = step_spec(v2, EventView::Line(c));
            &&& o1 is Report
            &&& o2 is Report
            &&& o3 == Outcome::Dispatch(v.seq, parse_spec(c)->Ok_0)
            &&& v3.seq == next_number(v.seq)
        }),
{
    let e = Seq::<char>::empty();
    assert(e + a =~= a);
    assert(e + b =~= b);
    assert(e + c =~= c);
}

/// A line that leaves the expression unfinished is joined by the next one:
/// the two lines together are parsed as their concatenation.
pub proof fn lemma_continuation_parses_concatenation(v: SessionView, a: Seq<char>, b: Seq<char>)
    requires
        awaiting(v),
        parse_spec(a) is Err,
        parse_spec(a)->Err_0 is Incomplete,
    ensures
        ({
            let (v1, o1) = step_spec(v, EventView::Line(a));
            let (v2, o2) = step_spec(v1, EventView::Line(b));
            &&& o1 == Outcome::Continue
            &&& v1.mode == Mode::Accumulating
            &&& v1.pending == a
            &&& (parse_spec(a + b) is Ok ==> o2 == Outcome::Dispatch(v.seq, parse_spec(a + b)->Ok_0))
        }),
{
    assert(Seq::<char>::empty() + a =~= a);
}

/// An interrupt while an expression is unfinished drops all of it and keeps
/// the number; the next line is then parsed on its own, as if the
/// abandoned input had never been read.
pub proof fn lemma_interrupt_abandons_input(v: SessionView, line: Seq<char>)
    requires
        v.mode == Mode::Accumulating,
    ensures
        ({
            let (v1, o1) = step_spec(v, EventView::Interrupted);
            &&& o1 == Outcome::Cancelled
            &&& awaiting(v1)
            &&& v1.seq == v.seq
            &&& v1.history == v.history
            &&& (parse_spec(line) is Ok ==> step_spec(v1, EventView::Line(line)).1 == Outcome::Dispatch(v.seq, parse_spec(line)->Ok_0))
            &&& step_spec(v1, EventView::Line(line)).0.pending == (if parse_spec(line) is Err && parse_spec(line)->Err_0 is Incomplete { line } else { Seq::<char>::empty() })
        }),
{
    assert(Seq::<char>::empty() + line =~= line);
}

} // verus!
