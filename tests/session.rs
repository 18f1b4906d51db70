use wl::{Action, Event, ExprKind, History, LeafKind, Mode, ParseError, Prompt, Session, WLParser};

fn line(s: &str) -> Event {
    Event::Line(s.to_string())
}

#[test]
fn failed_lines_take_no_number() {
    let mut s = Session::new(100, true);
    assert!(matches!(s.step(line("1+)")), Action::Report(ParseError::Syntax { .. })));
    assert!(matches!(s.step(line("1 2")), Action::Report(ParseError::Syntax { .. })));
    match s.step(line("x+1")) {
        Action::Dispatch(n, e) => {
            assert_eq!(n, 0);
            assert_eq!(Ok(e), WLParser::parse("x+1"));
        }
        other => panic!("unexpected {:?}", other),
    }
    assert_eq!(s.sequence_number(), 1);
    assert_eq!(s.prompt(), Prompt::Input(1));
}

#[test]
fn numbers_count_complete_expressions() {
    let mut s = Session::new(10, true);
    assert_eq!(s.prompt(), Prompt::Input(0));
    assert!(matches!(s.step(line("a")), Action::Dispatch(0, _)));
    assert!(matches!(s.step(line("b")), Action::Dispatch(1, _)));
    assert!(matches!(s.step(line("   ")), Action::Skip));
    assert_eq!(s.prompt(), Prompt::Input(2));
}

#[test]
fn repeated_line_is_stored_once() {
    let mut s = Session::new(10, true);
    s.step(line("x"));
    s.step(line("x"));
    assert_eq!(s.history().len(), 1);
    let mut t = Session::new(10, true);
    t.step(line("x"));
    t.step(line("y"));
    t.step(line("x"));
    let h = t.history();
    let kept: Vec<&str> = (0..h.len()).map(|i| h.get(i).as_str()).collect();
    assert_eq!(kept, vec!["x", "y", "x"]);
}

#[test]
fn history_is_bounded() {
    let mut h = History::new(2, true);
    assert!(h.add("a"));
    assert!(h.add("b"));
    assert!(h.add("c"));
    assert!(!h.add("c"));
    assert_eq!(h.len(), 2);
    assert_eq!(h.get(0).as_str(), "b");
    assert_eq!(h.get(1).as_str(), "c");
    let mut none = History::new(0, true);
    assert!(!none.add("a"));
    assert_eq!(none.len(), 0);
}

#[test]
fn continuation_joins_lines() {
    let mut s = Session::new(10, true);
    assert!(matches!(s.step(line("{1,2,")), Action::Continue));
    assert_eq!(s.mode(), Mode::Accumulating);
    assert_eq!(s.prompt(), Prompt::Continuation);
    assert_eq!(s.pending().as_str(), "{1,2,");
    match s.step(line("3}")) {
        Action::Dispatch(0, e) => assert_eq!(Ok(e), WLParser::parse("{1,2,3}")),
        other => panic!("unexpected {:?}", other),
    }
    assert_eq!(s.pending().as_str(), "");
}

#[test]
fn interrupt_abandons_unfinished_input() {
    let mut s = Session::new(10, true);
    assert!(matches!(s.step(line("{1,")), Action::Continue));
    assert!(matches!(s.step(Event::Interrupted), Action::Cancelled));
    assert_eq!(s.pending().as_str(), "");
    assert_eq!(s.mode(), Mode::AwaitingLine);
    match s.step(line("2")) {
        Action::Dispatch(0, e) => assert_eq!(e.kind, ExprKind::Leaf(LeafKind::Number, "2".to_string())),
        other => panic!("unexpected {:?}", other),
    }
}

#[test]
fn session_ends_on_eof_or_interrupt_when_idle() {
    let mut s = Session::new(10, true);
    assert!(matches!(s.step(Event::Eof), Action::Terminate));
    assert_eq!(s.mode(), Mode::Terminated);
    let mut t = Session::new(10, true);
    assert!(matches!(t.step(Event::Interrupted), Action::Terminate));
    assert_eq!(t.mode(), Mode::Terminated);
    let mut u = Session::new(10, true);
    u.step(line("f["));
    assert!(matches!(u.step(Event::Eof), Action::Terminate));
}

#[test]
fn repeats_are_kept_without_suppression() {
    let mut h = History::new(5, false);
    assert!(h.add("x"));
    assert!(h.add("x"));
    assert_eq!(h.len(), 2);
}
