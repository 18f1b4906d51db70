use wl::lexer::Bracket;
use wl::{Expected, Expr, ExprKind, LeafKind, Op, ParseError, Reason, WLParser};

fn op_name(op: Op) -> &'static str {
    match op {
        Op::Assign => "Set",
        Op::SetDelayed => "SetDelayed",
        Op::Rule => "Rule",
        Op::Or => "Or",
        Op::And => "And",
        Op::Not => "Not",
        Op::Equal => "Equal",
        Op::Unequal => "Unequal",
        Op::Less => "Less",
        Op::Greater => "Greater",
        Op::LessEqual => "LessEqual",
        Op::GreaterEqual => "GreaterEqual",
        Op::Plus => "Plus",
        Op::Subtract => "Subtract",
        Op::Times => "Times",
        Op::Divide => "Divide",
        Op::Power => "Power",
        Op::Minus => "Minus",
        Op::Factorial => "Factorial",
    }
}

fn join(es: &[Expr]) -> String {
    es.iter().map(form).collect::<Vec<_>>().join(",")
}

/// A compact rendering of a tree, for comparing shapes.
fn form(e: &Expr) -> String {
    match &e.kind {
        ExprKind::Leaf(LeafKind::Str, t) => format!("\"{}\"", t),
        ExprKind::Leaf(_, t) => t.clone(),
        ExprKind::Call(h, args) => format!("{}[{}]", form(h), join(args)),
        ExprKind::List(items) => format!("{{{}}}", join(items)),
        ExprKind::Infix(op, args) => format!("{}[{}]", op_name(*op), join(args)),
        ExprKind::Prefix(op, a) | ExprKind::Postfix(op, a) => format!("{}[{}]", op_name(*op), form(a)),
        ExprKind::Group(a) => format!("({})", form(a)),
    }
}

fn shape(text: &str) -> String {
    form(&WLParser::parse(text).expect("parses"))
}

#[test]
fn times_binds_tighter_than_plus() {
    let e = WLParser::parse("1+2*3").unwrap();
    match &e.kind {
        ExprKind::Infix(Op::Plus, args) => {
            assert_eq!(args.len(), 2);
            assert_eq!(args[0].kind, ExprKind::Leaf(LeafKind::Number, "1".to_string()));
            match &args[1].kind {
                ExprKind::Infix(Op::Times, inner) => {
                    assert_eq!(inner.len(), 2);
                    assert_eq!(inner[0].kind, ExprKind::Leaf(LeafKind::Number, "2".to_string()));
                    assert_eq!(inner[1].kind, ExprKind::Leaf(LeafKind::Number, "3".to_string()));
                    assert_eq!((args[1].start, args[1].end), (2, 5));
                }
                other => panic!("unexpected {:?}", other),
            }
        }
        other => panic!("unexpected {:?}", other),
    }
    assert_eq!((e.start, e.end), (0, 5));
    assert_eq!(shape("2*3+1"), "Plus[Times[2,3],1]");
}

#[test]
fn flat_plus_is_one_node() {
    let e = WLParser::parse("1+2+3").unwrap();
    match &e.kind {
        ExprKind::Infix(Op::Plus, args) => {
            let texts: Vec<String> = args.iter().map(form).collect();
            assert_eq!(texts, vec!["1", "2", "3"]);
        }
        other => panic!("unexpected {:?}", other),
    }
    assert_eq!(shape("a*b*c*d"), "Times[a,b,c,d]");
    assert_eq!(shape("a == b == c"), "Equal[a,b,c]");
}

#[test]
fn left_and_right_grouping() {
    assert_eq!(shape("5-2-1"), "Subtract[Subtract[5,2],1]");
    assert_eq!(shape("2^3^4"), "Power[2,Power[3,4]]");
    assert_eq!(shape("x = y = 1"), "Set[x,Set[y,1]]");
    assert_eq!(shape("a/b/c"), "Divide[Divide[a,b],c]");
    assert_eq!(shape("a+b-c"), "Subtract[Plus[a,b],c]");
    assert_eq!(shape("a-b+c"), "Plus[Subtract[a,b],c]");
    assert_eq!(shape("a && b || c"), "Or[And[a,b],c]");
    assert_eq!(shape("x -> y + 1"), "Rule[x,Plus[y,1]]");
    assert_eq!(shape("f[x] := x^2"), "SetDelayed[f[x],Power[x,2]]");
}

#[test]
fn prefix_and_postfix_by_position() {
    assert_eq!(shape("-x^2"), "Minus[Power[x,2]]");
    assert_eq!(shape("-a*b"), "Times[Minus[a],b]");
    assert_eq!(shape("1 - -2"), "Subtract[1,Minus[2]]");
    assert_eq!(shape("n!"), "Factorial[n]");
    assert_eq!(shape("!a"), "Not[a]");
    assert_eq!(shape("a != b"), "Unequal[a,b]");
    assert_eq!(shape("n! + 1"), "Plus[Factorial[n],1]");
}

#[test]
fn calls_lists_and_groups() {
    assert_eq!(shape("f[x, y]"), "f[x,y]");
    assert_eq!(shape("f[]"), "f[]");
    assert_eq!(shape("f[x][y]"), "f[x][y]");
    assert_eq!(shape("{}"), "{}");
    assert_eq!(shape("{1, {2, 3}}"), "{1,{2,3}}");
    assert_eq!(shape("(1+2)*3"), "Times[(Plus[1,2]),3]");
    let e = WLParser::parse("f[x]").unwrap();
    assert_eq!((e.start, e.end), (0, 4));
}

#[test]
fn literals() {
    assert_eq!(shape("\"a\\\"b\""), "\"a\\\"b\"");
    let e = WLParser::parse("1.5*^-3").unwrap();
    assert_eq!(e.kind, ExprKind::Leaf(LeafKind::Number, "1.5*^-3".to_string()));
    assert_eq!(shape("2*^3"), "2*^3");
    assert_eq!(shape("2*x"), "Times[2,x]");
    let e = WLParser::parse("$x`y1").unwrap();
    assert_eq!(e.kind, ExprKind::Leaf(LeafKind::Symbol, "$x`y1".to_string()));
    let e = WLParser::parse("αβ1").unwrap();
    assert_eq!(e.kind, ExprKind::Leaf(LeafKind::Symbol, "αβ1".to_string()));
}

#[test]
fn comments_nest_and_are_skipped() {
    assert_eq!(shape("1 (* c (* nested *) *) + 2"), "Plus[1,2]");
    assert_eq!(
        WLParser::parse("1 (* open (* *)"),
        Err(ParseError::Incomplete { offset: 2, reason: Reason::UnterminatedComment })
    );
}

#[test]
fn incomplete_inputs() {
    assert_eq!(
        WLParser::parse("{1,2,"),
        Err(ParseError::Incomplete { offset: 5, reason: Reason::EndOfInput })
    );
    assert_eq!(
        WLParser::parse("1+"),
        Err(ParseError::Incomplete { offset: 2, reason: Reason::EndOfInput })
    );
    assert_eq!(
        WLParser::parse("f[\"ab"),
        Err(ParseError::Incomplete { offset: 2, reason: Reason::UnterminatedString })
    );
    let joined = format!("{}{}", "{1,2,", "3}");
    assert_eq!(WLParser::parse(&joined), WLParser::parse("{1,2,3}"));
    assert_eq!(shape(&joined), "{1,2,3}");
}

#[test]
fn syntax_errors() {
    assert_eq!(
        WLParser::parse("1 2"),
        Err(ParseError::Syntax { offset: 2, expected: Expected::OperatorOrEnd })
    );
    assert_eq!(
        WLParser::parse("1+)"),
        Err(ParseError::Syntax { offset: 2, expected: Expected::Operand })
    );
    assert_eq!(
        WLParser::parse("{1 2}"),
        Err(ParseError::Syntax { offset: 3, expected: Expected::CommaOrClose(Bracket::Brace) })
    );
    assert_eq!(
        WLParser::parse("(1]"),
        Err(ParseError::Syntax { offset: 2, expected: Expected::Close(Bracket::Paren) })
    );
    assert_eq!(
        WLParser::parse("#"),
        Err(ParseError::Syntax { offset: 0, expected: Expected::Token })
    );
}

#[test]
fn blank_input_is_empty() {
    assert_eq!(WLParser::parse(""), Err(ParseError::Empty));
    assert_eq!(WLParser::parse("  (* note *) "), Err(ParseError::Empty));
}

#[test]
fn reparsing_gives_the_same_tree() {
    let text = "f[x, {1, -2.5}] := x^2 + 3*x!";
    assert_eq!(WLParser::parse(&text), WLParser::parse(&text));
}
