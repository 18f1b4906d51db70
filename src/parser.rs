//! The expression parser: precedence climbing over the token sequence.
//!
//! Each `*_spec` function states what the parser produces from token
//! position `p`: a tree and the position after it, or an error. The
//! executable functions below are proved to compute exactly those results.
//!
//! Where a spec function goes on from the position another one returned, it
//! first checks that the position moved forward: that check is what makes
//! the recursion terminate. The executable functions prove that a success
//! always moves forward, so the check never decides a result.

use crate::expr::{
    infix_info, infix_op, lemma_trees_of_index, lemma_trees_of_push, postfix_info, postfix_op, prefix_info, prefix_op,
    tree_of, trees_of, Assoc, Expr, ExprKind, LeafKind, Op, Tree, TreeKind,
};
use crate::lexer::{lex, lex_spec, tokens_fit, Bracket, LexError, Sym, Token, TokenKind};
use vstd::prelude::*;

verus! {

/// What the parser expected where it stopped.
#[derive(Clone, Copy, Debug, PartialEq, Eq, Structural)]
pub enum Expected {
    /// A symbol, number, string, opening bracket or prefix operator.
    Operand,
    /// The closing bracket of this pair.
    Close(Bracket),
    /// A comma or the closing bracket of this pair.
    CommaOrClose(Bracket),
    /// An operator, or the end of the input.
    OperatorOrEnd,
    /// Any token: the character at the offset starts none.
    Token,
}

/// Why an input is not yet a complete expression.
#[derive(Clone, Copy, Debug, PartialEq, Eq, Structural)]
pub enum Reason {
    UnterminatedString,
    UnterminatedComment,
    /// The input ends where more of an expression is needed.
    EndOfInput,
}

/// Why a parse gives no expression.
#[derive(Clone, Copy, Debug, PartialEq, Eq, Structural)]
pub enum ParseError {
    /// The input is a valid beginning of a longer expression; `offset` is
    /// where the unfinished part starts.
    Incomplete { offset: usize, reason: Reason },
    /// The input cannot be continued into an expression.
    Syntax { offset: usize, expected: Expected },
    /// The input holds only whitespace and comments.
    Empty,
}

/// The kind of the token at `p`; past the last token, `End`.
pub open spec fn kind_at(ts: Seq<Token>, p: int) -> TokenKind {
    if 0 <= p < ts.len() { ts[p].kind } else { TokenKind::End }
}

/// The error for stopping at `p`: incomplete at the end of the input, a
/// syntax error anywhere else.
pub open spec fn fail_at(s: Seq<char>, ts: Seq<Token>, p: int, expected: Expected) -> ParseError {
    if kind_at(ts, p) is End {
        ParseError::Incomplete { offset: s.len() as usize, reason: Reason::EndOfInput }
    } else {
        ParseError::Syntax { offset: ts[p].start, expected }
    }
}

pub open spec fn mk_tree(kind: TreeKind, start: nat, end: nat) -> Tree {
    Tree { kind, start, end }
}

pub type Parsed = Result<(Tree, int), ParseError>;

pub type ParsedItems = Result<(Seq<Tree>, int), ParseError>;

/// The leaf for the token at `p`, if it is a symbol, number or string.
pub open spec fn leaf_spec(s: Seq<char>, t: Token) -> Option<Tree> {
    match t.kind {
        TokenKind::Symbol => Some(
            mk_tree(TreeKind::Leaf(LeafKind::Symbol, s.subrange(t.start as int, t.end as int)), t.start as nat, t.end as nat),
        ),
        TokenKind::Number => Some(
            mk_tree(TreeKind::Leaf(LeafKind::Number, s.subrange(t.start as int, t.end as int)), t.start as nat, t.end as nat),
        ),
        TokenKind::Str => Some(
            mk_tree(TreeKind::Leaf(LeafKind::Str, s.subrange(t.start + 1, t.end - 1)), t.start as nat, t.end as nat),
        ),
        _ => None,
    }
}

/// An expression whose operators all bind at least as tightly as `min`.
pub open spec fn expr_spec(s: Seq<char>, ts: Seq<Token>, p: int, min: u32) -> Parsed
    decreases ts.len() - p, 3nat,
{
    match unary_spec(s, ts, p) {
        Err(e) => Err(e),
        Ok((lhs, q)) => {
            if p < q <= ts.len() {
                tail_spec(s, ts, lhs, q, min)
            } else {
                Err(fail_at(s, ts, p, Expected::Operand))
            }
        },
    }
}

/// A prefix operator and its operand, or an operand with its calls.
pub open spec fn unary_spec(s: Seq<char>, ts: Seq<Token>, p: int) -> Parsed
    decreases ts.len() - p, 2nat,
{
    if p < 0 || p >= ts.len() {
        Err(fail_at(s, ts, p, Expected::Operand))
    } else if ts[p].kind is Operator && prefix_info(ts[p].kind->Operator_0) is Some {
        let (op, prec) = prefix_info(ts[p].kind->Operator_0)->0;
        match expr_spec(s, ts, p + 1, prec) {
            Err(e) => Err(e),
            Ok((a, q)) => Ok((mk_tree(TreeKind::Prefix(op, Box::new(a)), ts[p].start as nat, a.end), q)),
        }
    } else {
        match primary_spec(s, ts, p) {
            Err(e) => Err(e),
            Ok((a, q)) => {
                if p < q <= ts.len() {
                    calls_spec(s, ts, a, q)
                } else {
                    Err(fail_at(s, ts, p, Expected::Operand))
                }
            },
        }
    }
}

/// A leaf, a parenthesized expression, or a list `{...}`.
pub open spec fn primary_spec(s: Seq<char>, ts: Seq<Token>, p: int) -> Parsed
    decreases ts.len() - p, 1nat,
{
    if p < 0 || p >= ts.len() {
        Err(fail_at(s, ts, p, Expected::Operand))
    } else if leaf_spec(s, ts[p]) is Some {
        Ok((leaf_spec(s, ts[p])->0, p + 1))
    } else if ts[p].kind == TokenKind::Open(Bracket::Paren) {
        match expr_spec(s, ts, p + 1, 0) {
            Err(e) => Err(e),
            Ok((a, q)) => {
                if kind_at(ts, q) == TokenKind::Close(Bracket::Paren) {
                    Ok((mk_tree(TreeKind::Group(Box::new(a)), ts[p].start as nat, ts[q].end as nat), q + 1))
                } else {
                    Err(fail_at(s, ts, q, Expected::Close(Bracket::Paren)))
                }
            },
        }
    } else if ts[p].kind == TokenKind::Open(Bracket::Brace) {
        match items_spec(s, ts, p + 1, Bracket::Brace, Seq::empty()) {
            Err(e) => Err(e),
            Ok((xs, q)) => Ok((mk_tree(TreeKind::List(xs), ts[p].start as nat, ts[q - 1].end as nat), q)),
        }
    } else {
        Err(fail_at(s, ts, p, Expected::Operand))
    }
}

/// Applications `head[args...]`, any number of them, after `head`.
pub open spec fn calls_spec(s: Seq<char>, ts: Seq<Token>, head: Tree, p: int) -> Parsed
    decreases ts.len() - p, 0nat,
{
    if 0 <= p < ts.len() && ts[p].kind == TokenKind::Open(Bracket::Square) {
        match items_spec(s, ts, p + 1, Bracket::Square, Seq::empty()) {
            Err(e) => Err(e),
            Ok((args, q)) => {
                if p < q <= ts.len() {
                    calls_spec(s, ts, mk_tree(TreeKind::Call(Box::new(head), args), head.start, ts[q - 1].end as nat), q)
                } else {
                    Err(fail_at(s, ts, p, Expected::Operand))
                }
            },
        }
    } else {
        Ok((head, p))
    }
}

/// Comma-separated items up to the closing bracket `close`, after the items
/// `acc` already read; the position returned is after the closing bracket.
pub open spec fn items_spec(s: Seq<char>, ts: Seq<Token>, p: int, close: Bracket, acc: Seq<Tree>) -> ParsedItems
    decreases ts.len() - p, 4nat,
{
    if acc.len() == 0 && kind_at(ts, p) == TokenKind::Close(close) {
        Ok((acc, p + 1))
    } else {
        match expr_spec(s, ts, p, 0) {
            Err(e) => Err(e),
            Ok((x, q)) => {
                if p < q <= ts.len() {
                    if kind_at(ts, q) == TokenKind::Operator(Sym::Comma) {
                        items_spec(s, ts, q + 1, close, acc.push(x))
                    } else if kind_at(ts, q) == TokenKind::Close(close) {
                        Ok((acc.push(x), q + 1))
                    } else {
                        Err(fail_at(s, ts, q, Expected::CommaOrClose(close)))
                    }
                } else {
                    Err(fail_at(s, ts, p, Expected::Operand))
                }
            },
        }
    }
}

pub open spec fn postfix_prec(sym: Sym) -> u32 {
    let (op, prec) = postfix_info(sym)->0;
    prec
}

pub open spec fn infix_prec(sym: Sym) -> u32 {
    let (op, prec, assoc) = infix_info(sym)->0;
    prec
}

/// The operators after `lhs` that bind at least as tightly as `min`.
pub open spec fn tail_spec(s: Seq<char>, ts: Seq<Token>, lhs: Tree, p: int, min: u32) -> Parsed
    decreases ts.len() - p, 0nat,
{
    if p < 0 || p >= ts.len() || !(ts[p].kind is Operator) {
        Ok((lhs, p))
    } else {
        let sym = ts[p].kind->Operator_0;
        if postfix_info(sym) is Some && postfix_prec(sym) >= min {
            let (op, prec) = postfix_info(sym)->0;
            tail_spec(s, ts, mk_tree(TreeKind::Postfix(op, Box::new(lhs)), lhs.start, ts[p].end as nat), p + 1, min)
        } else if infix_info(sym) is Some && infix_prec(sym) >= min {
            let (op, prec, assoc) = infix_info(sym)->0;
            let rmin: u32 = if assoc == Assoc::Right { prec } else { (prec + 1) as u32 };
            match expr_spec(s, ts, p + 1, rmin) {
                Err(e) => Err(e),
                Ok((rhs, q)) => {
                    if p < q <= ts.len() {
                        if assoc == Assoc::Flat {
                            match flat_spec(s, ts, sym, op, rmin, seq![lhs, rhs], q) {
                                Err(e) => Err(e),
                                Ok((node, q2)) => {
                                    if p < q2 <= ts.len() {
                                        tail_spec(s, ts, node, q2, min)
                                    } else {
                                        Err(fail_at(s, ts, p, Expected::Operand))
                                    }
                                },
                            }
                        } else {
                            tail_spec(s, ts, mk_tree(TreeKind::Infix(op, seq![lhs, rhs]), lhs.start, rhs.end), q, min)
                        }
                    } else {
                        Err(fail_at(s, ts, p, Expected::Operand))
                    }
                },
            }
        } else {
            Ok((lhs, p))
        }
    }
}

/// The further operands of a run of the `Flat` operator `sym`, after the
/// operands `items` already read; gives the one n-ary node of the run.
pub open spec fn flat_spec(s: Seq<char>, ts: Seq<Token>, sym: Sym, op: Op, rmin: u32, items: Seq<Tree>, p: int) -> Parsed
    decreases ts.len() - p, 0nat,
{
    if 0 <= p < ts.len() && ts[p].kind == TokenKind::Operator(sym) {
        match expr_spec(s, ts, p + 1, rmin) {
            Err(e) => Err(e),
            Ok((x, q)) => {
                if p < q <= ts.len() {
                    flat_spec(s, ts, sym, op, rmin, items.push(x), q)
                } else {
                    Err(fail_at(s, ts, p, Expected::Operand))
                }
            },
        }
    } else {
        Ok((mk_tree(TreeKind::Infix(op, items), items[0].start, items.last().end), p))
    }
}

/// The expression of a whole token sequence.
pub open spec fn parse_tokens_spec(s: Seq<char>, ts: Seq<Token>) -> Result<Tree, ParseError> {
    if kind_at(ts, 0) is End {
        Err(ParseError::Empty)
    } else {
        match expr_spec(s, ts, 0, 0) {
            Err(e) => Err(e),
            Ok((x, q)) => {
                if kind_at(ts, q) is End {
                    Ok(x)
                } else {
                    Err(ParseError::Syntax { offset: ts[q].start, expected: Expected::OperatorOrEnd })
                }
            },
        }
    }
}

/// The parse error for a lexical error.
pub open spec fn lex_failure(s: Seq<char>, e: LexError) -> ParseError {
    match e {
        LexError::UnterminatedString(i) => ParseError::Incomplete { offset: i, reason: Reason::UnterminatedString },
        LexError::UnterminatedComment(i) => ParseError::Incomplete { offset: i, reason: Reason::UnterminatedComment },
        LexError::Unexpected(i) => ParseError::Syntax { offset: i, expected: Expected::Token },
    }
}

/// What parsing the text `s` gives.
pub open spec fn parse_spec(s: Seq<char>) -> Result<Tree, ParseError> {
    match lex_spec(s) {
        Err(e) => Err(lex_failure(s, e)),
        Ok(ts) => parse_tokens_spec(s, ts),
    }
}

/// The executable result `r` from position `p` is the specified result `spec`,
/// and a success moves past `p` without passing the last token.
pub open spec fn agrees(r: Result<(Expr, usize), ParseError>, spec: Parsed, p: int, len: int) -> bool {
    match r {
        Ok((e, q)) => spec == Ok::<(Tree, int), ParseError>((tree_of(e), q as int)) && p < q <= len,
        Err(err) => spec == Err::<(Tree, int), ParseError>(err),
    }
}

pub open spec fn agrees_items(r: Result<(Vec<Expr>, usize), ParseError>, spec: ParsedItems, p: int, len: int) -> bool {
    match r {
        Ok((es, q)) => spec == Ok::<(Seq<Tree>, int), ParseError>((trees_of(es@), q as int)) && p < q <= len,
        Err(err) => spec == Err::<(Seq<Tree>, int), ParseError>(err),
    }
}

/// The source text, its length in characters, and its tokens.
pub struct Source<'a> {
    pub text: &'a str,
    pub len: usize,
    pub tokens: Vec<Token>,
}

impl<'a> Source<'a> {
    pub open spec fn wf(&self) -> bool {
        &&& self.len == self.text@.len()
        &&& tokens_fit(self.text@.len(), self.tokens@)
    }

    pub open spec fn chars(&self) -> Seq<char> {
        self.text@
    }

    pub open spec fn toks(&self) -> Seq<Token> {
        self.tokens@
    }

    fn kind(&self, p: usize) -> (r: TokenKind)
        ensures
            r == kind_at(self.toks(), p as int),
    {
        if p < self.tokens.len() {
            self.tokens[p].kind
        } else {
            TokenKind::End
        }
    }

    fn fail(&self, p: usize, expected: Expected) -> (r: ParseError)
        requires
            self.wf(),
        ensures
            r == fail_at(self.chars(), self.toks(), p as int, expected),
    {
        if p < self.tokens.len() {
            if self.tokens[p].kind == TokenKind::End {
                ParseError::Incomplete { offset: self.len, reason: Reason::EndOfInput }
            } else {
                ParseError::Syntax { offset: self.tokens[p].start, expected }
            }
        } else {
            ParseError::Incomplete { offset: self.len, reason: Reason::EndOfInput }
        }
    }

    fn leaf(&self, t: Token) -> (r: Option<Expr>)
        requires
            self.wf(),
            t.start <= t.end <= self.text@.len(),
            t.kind is Str ==> t.start + 2 <= t.end,
        ensures
            r is Some == leaf_spec(self.chars(), t) is Some,
            r matches Some(e) ==> leaf_spec(self.chars(), t) == Some(tree_of(e)),
    {
        match t.kind {
            TokenKind::Symbol => {
                let text = self.text.substring_char(t.start, t.end).to_owned();
                Some(Expr { kind: ExprKind::Leaf(LeafKind::Symbol, text), start: t.start, end: t.end })
            },
            TokenKind::Number => {
                let text = self.text.substring_char(t.start, t.end).to_owned();
                Some(Expr { kind: ExprKind::Leaf(LeafKind::Number, text), start: t.start, end: t.end })
            },
            TokenKind::Str => {
                let text = self.text.substring_char(t.start + 1, t.end - 1).to_owned();
                Some(Expr { kind: ExprKind::Leaf(LeafKind::Str, text), start: t.start, end: t.end })
            },
            _ => None,
        }
    }

    fn expr(&self, p: usize, min: u32) -> (r: Result<(Expr, usize), ParseError>)
        requires
            self.wf(),
            p <= self.tokens.len(),
        ensures
            agrees(r, expr_spec(self.chars(), self.toks(), p as int, min), p as int, self.tokens.len() as int),
        decreases self.tokens.len() - p, 3nat,
    {
        match self.unary(p) {
            Err(e) => Err(e),
            Ok((lhs, q)) => self.tail(lhs, q, min),
        }
    }

    fn unary(&self, p: usize) -> (r: Result<(Expr, usize), ParseError>)
        requires
            self.wf(),
            p <= self.tokens.len(),
        ensures
            agrees(r, unary_spec(self.chars(), self.toks(), p as int), p as int, self.tokens.len() as int),
        decreases self.tokens.len() - p, 2nat,
    {
        if p >= self.tokens.len() {
            return Err(self.fail(p, Expected::Operand));
        }
        let t = self.tokens[p];
        if let TokenKind::Operator(sym) = t.kind {
            if let Some((op, prec)) = prefix_op(sym) {
                return match self.expr(p + 1, prec) {
                    Err(e) => Err(e),
                    Ok((a, q)) => {
                        let end = a.end;
                        Ok((Expr { kind: ExprKind::Prefix(op, Box::new(a)), start: t.start, end }, q))
                    },
                };
            }
        }
        match self.primary(p) {
            Err(e) => Err(e),
            Ok((a, q)) => self.calls(a, q),
        }
    }

    fn primary(&self, p: usize) -> (r: Result<(Expr, usize), ParseError>)
        requires
            self.wf(),
            p <= self.tokens.len(),
        ensures
            agrees(r, primary_spec(self.chars(), self.toks(), p as int), p as int, self.tokens.len() as int),
        decreases self.tokens.len() - p, 1nat,
    {
        if p >= self.tokens.len() {
            return Err(self.fail(p, Expected::Operand));
        }
        let t = self.tokens[p];
        assert(t.start <= t.end <= self.text@.len());
        if let Some(e) = self.leaf(t) {
            return Ok((e, p + 1));
        }
        if t.kind == TokenKind::Open(Bracket::Paren) {
            match self.expr(p + 1, 0) {
                Err(e) => Err(e),
                Ok((a, q)) => {
                    if self.kind(q) == TokenKind::Close(Bracket::Paren) {
                        let end = self.tokens[q].end;
                        Ok((Expr { kind: ExprKind::Group(Box::new(a)), start: t.start, end }, q + 1))
                    } else {
                        Err(self.fail(q, Expected::Close(Bracket::Paren)))
                    }
                },
            }
        } else if t.kind == TokenKind::Open(Bracket::Brace) {
            match self.items(p + 1, Bracket::Brace, Vec::new()) {
                Err(e) => Err(e),
                Ok((xs, q)) => {
                    let end = self.tokens[q - 1].end;
                    Ok((Expr { kind: ExprKind::List(xs), start: t.start, end }, q))
                },
            }
        } else {
            Err(self.fail(p, Expected::Operand))
        }
    }

    fn calls(&self, head: Expr, p: usize) -> (r: Result<(Expr, usize), ParseError>)
        requires
            self.wf(),
            0 < p <= self.tokens.len(),
        ensures
            agrees(r, calls_spec(self.chars(), self.toks(), tree_of(head), p as int), p as int - 1, self.tokens.len() as int),
            r matches Ok((e, q)) ==> p <= q,
        decreases self.tokens.len() - p, 0nat,
    {
        if p < self.tokens.len() && self.tokens[p].kind == TokenKind::Open(Bracket::Square) {
            match self.items(p + 1, Bracket::Square, Vec::new()) {
                Err(e) => Err(e),
                Ok((args, q)) => {
                    let start = head.start;
                    let end = self.tokens[q - 1].end;
                    let call = Expr { kind: ExprKind::Call(Box::new(head), args), start, end };
                    self.calls(call, q)
                },
            }
        } else {
            Ok((head, p))
        }
    }

    fn items(&self, p: usize, close: Bracket, acc: Vec<Expr>) -> (r: Result<(Vec<Expr>, usize), ParseError>)
        requires
            self.wf(),
            0 < p <= self.tokens.len(),
        ensures
            agrees_items(r, items_spec(self.chars(), self.toks(), p as int, close, trees_of(acc@)), p as int, self.tokens.len() as int),
        decreases self.tokens.len() - p, 4nat,
    {
        if acc.len() == 0 && self.kind(p) == TokenKind::Close(close) {
            proof {
                assert(trees_of(acc@).len() == 0);
            }
            return Ok((acc, p + 1));
        }
        proof {
            if acc.len() > 0 {
                assert(trees_of(acc@).len() > 0);
            }
        }
        match self.expr(p, 0) {
            Err(e) => Err(e),
            Ok((x, q)) => {
                let k = self.kind(q);
                if k == TokenKind::Operator(Sym::Comma) {
                    let mut acc = acc;
                    proof {
                        lemma_trees_of_push(acc@, x);
                    }
                    acc.push(x);
                    self.items(q + 1, close, acc)
                } else if k == TokenKind::Close(close) {
                    let mut acc = acc;
                    proof {
                        lemma_trees_of_push(acc@, x);
                    }
                    acc.push(x);
                    Ok((acc, q + 1))
                } else {
                    Err(self.fail(q, Expected::CommaOrClose(close)))
                }
            },
        }
    }

    fn tail(&self, lhs: Expr, p: usize, min: u32) -> (r: Result<(Expr, usize), ParseError>)
        requires
            self.wf(),
            0 < p <= self.tokens.len(),
        ensures
            agrees(r, tail_spec(self.chars(), self.toks(), tree_of(lhs), p as int, min), p as int - 1, self.tokens.len() as int),
            r matches Ok((e, q)) ==> p <= q,
        decreases self.tokens.len() - p, 0nat,
    {
        if p >= self.tokens.len() {
            return Ok((lhs, p));
        }
        let t = self.tokens[p];
        let sym = match t.kind {
            TokenKind::Operator(sym) => sym,
            _ => {
                return Ok((lhs, p));
            },
        };
        if let Some((op, prec)) = postfix_op(sym) {
            if prec >= min {
                let start = lhs.start;
                let node = Expr { kind: ExprKind::Postfix(op, Box::new(lhs)), start, end: t.end };
                return self.tail(node, p + 1, min);
            }
        }
        match infix_op(sym) {
            Some((op, prec, assoc)) => {
                if prec < min {
                    return Ok((lhs, p));
                }
                let rmin: u32 = if assoc == Assoc::Right { prec } else { prec + 1 };
                match self.expr(p + 1, rmin) {
                    Err(e) => Err(e),
                    Ok((rhs, q)) => {
                        if assoc == Assoc::Flat {
                            let mut items: Vec<Expr> = Vec::new();
                            proof {
                                lemma_trees_of_push(items@, lhs);
                            }
                            items.push(lhs);
                            proof {
                                lemma_trees_of_push(items@, rhs);
                                assert(trees_of(items@.push(rhs)) =~= seq![tree_of(lhs), tree_of(rhs)]);
                            }
                            items.push(rhs);
                            match self.flat(sym, op, rmin, items, q) {
                                Err(e) => Err(e),
                                Ok((node, q2)) => self.tail(node, q2, min),
                            }
                        } else {
                            let start = lhs.start;
                            let end = rhs.end;
                            let mut args: Vec<Expr> = Vec::new();
                            proof {
                                lemma_trees_of_push(args@, lhs);
                            }
                            args.push(lhs);
                            proof {
                                lemma_trees_of_push(args@, rhs);
                                assert(trees_of(args@.push(rhs)) =~= seq![tree_of(lhs), tree_of(rhs)]);
                            }
                            args.push(rhs);
                            let node = Expr { kind: ExprKind::Infix(op, args), start, end };
                            self.tail(node, q, min)
                        }
                    },
                }
            },
            None => Ok((lhs, p)),
        }
    }

    fn flat(&self, sym: Sym, op: Op, rmin: u32, items: Vec<Expr>, p: usize) -> (r: Result<(Expr, usize), ParseError>)
        requires
            self.wf(),
            0 < p <= self.tokens.len(),
            items.len() >= 2,
        ensures
            agrees(r, flat_spec(self.chars(), self.toks(), sym, op, rmin, trees_of(items@), p as int), p as int - 1, self.tokens.len() as int),
            r matches Ok((e, q)) ==> p <= q,
        decreases self.tokens.len() - p, 0nat,
    {
        if p < self.tokens.len() && self.tokens[p].kind == TokenKind::Operator(sym) {
            match self.expr(p + 1, rmin) {
                Err(e) => Err(e),
                Ok((x, q)) => {
                    let mut items = items;
                    proof {
                        lemma_trees_of_push(items@, x);
                    }
                    items.push(x);
                    self.flat(sym, op, rmin, items, q)
                },
            }
        } else {
            let start = items[0].start;
            let end = items[items.len() - 1].end;
            proof {
                lemma_trees_of_index(items@);
            }
            Ok((Expr { kind: ExprKind::Infix(op, items), start, end }, p))
        }
    }
}

/// The parser of the language. It holds no state: the operator table is fixed.
pub struct WLParser;

fn chars_of(text: &str) -> (r: Vec<char>)
    ensures
        r@ == text@,
{
    let n = text.unicode_len();
    let mut out: Vec<char> = Vec::new();
    let mut i: usize = 0;
    while i < n
        invariant
            n == text@.len(),
            i <= n,
            out@ == text@.subrange(0, i as int),
        decreases n - i,
    {
        out.push(text.get_char(i));
        i = i + 1;
        assert(out@ =~= text@.subrange(0, i as int));
    }
    assert(out@ =~= text@);
    out
}

fn lex_error_to_parse(e: LexError) -> (r: ParseError)
    ensures
        forall|s: Seq<char>| r == #[trigger] lex_failure(s, e),
{
    match e {
        LexError::UnterminatedString(i) => ParseError::Incomplete { offset: i, reason: Reason::UnterminatedString },
        LexError::UnterminatedComment(i) => ParseError::Incomplete { offset: i, reason: Reason::UnterminatedComment },
        LexError::Unexpected(i) => ParseError::Syntax { offset: i, expected: Expected::Token },
    }
}

impl WLParser {
    /// Parses one logical input into an expression.
    ///
    /// Gives `Incomplete` when the text is the beginning of a longer
    /// expression (an open bracket, string or comment, or an operator that
    /// still needs its operand at the end), `Syntax` when it can not be
    /// continued into one, and `Empty` when it holds no token.
    pub fn parse(text: &str) -> (r: Result<Expr, ParseError>)
        ensures
            r matches Ok(e) ==> parse_spec(text@) == Ok::<Tree, ParseError>(tree_of(e)),
            r matches Err(err) ==> parse_spec(text@) == Err::<Tree, ParseError>(err),
    {
        let chars = chars_of(text);
        let tokens = match lex(&chars) {
            Ok(ts) => ts,
            Err(e) => {
                let r = lex_error_to_parse(e);
                assert(r == lex_failure(text@, e));
                return Err(r);
            },
        };
        let src = Source { text, len: chars.len(), tokens };
        if src.kind(0) == TokenKind::End {
            return Err(ParseError::Empty);
        }
        match src.expr(0, 0) {
            Err(e) => Err(e),
            Ok((x, q)) => {
                if src.kind(q) == TokenKind::End {
                    Ok(x)
                } else {
                    Err(ParseError::Syntax { offset: src.tokens[q].start, expected: Expected::OperatorOrEnd })
                }
            },
        }
    }
}

/// Parsing depends on the text alone: parsing the same text again gives the
/// same tree, or the same error.
pub proof fn lemma_reparse_same(text: Seq<char>, again: Seq<char>)
    requires
        again == text,
    ensures
        parse_spec(again) == parse_spec(text),
{
}

/// The number of line breaks before offset `i`.
pub open spec fn breaks_before(s: Seq<char>, i: int) -> nat
    decreases i,
{
    if i <= 0 {
        0
    } else {
        breaks_before(s, i - 1) + if s[i - 1] == '\n' { 1nat } else { 0nat }
    }
}

/// The offset where the line holding offset `i` starts.
pub open spec fn line_start(s: Seq<char>, i: int) -> int
    decreases i,
{
    if i <= 0 {
        0
    } else if s[i - 1] == '\n' {
        i
    } else {
        line_start(s, i - 1)
    }
}

/// The line and column, both counted from 1, of the character offset
/// `offset` in `text`; an error offset is turned into a caret position with it.
pub fn line_col(text: &str, offset: usize) -> (r: (usize, usize))
    requires
        offset <= text@.len(),
        offset < usize::MAX,
    ensures
        r.0 == breaks_before(text@, offset as int) + 1,
        r.1 == offset - line_start(text@, offset as int) + 1,
{
    let chars = chars_of(text);
    let mut line: usize = 0;
    let mut start: usize = 0;
    let mut i: usize = 0;
    while i < offset
        invariant
            offset <= chars.len(),
            chars@ == text@,
            i <= offset,
            line == breaks_before(text@, i as int),
            line <= i,
            start as int == line_start(text@, i as int),
            start <= i,
        decreases offset - i,
    {
        if chars[i] == '\n' {
            line = line + 1;
            start = i + 1;
        }
        i = i + 1;
    }
    (line + 1, offset - start + 1)
}

} // verus!
