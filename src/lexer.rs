//! Lexical analysis: a character sequence to a sequence of tokens.
//!
//! Whitespace and comments `(* ... *)`, which nest, are skipped between any
//! two tokens. The token list always ends with one `End` token placed at the
//! length of the input.

use vstd::prelude::*;

verus! {

/// The three bracket pairs: `( )`, `{ }` and `[ ]`.
#[derive(Clone, Copy, Debug, PartialEq, Eq, Structural)]
pub enum Bracket {
    Paren,
    Brace,
    Square,
}

/// The operator and separator symbols of the language.
#[derive(Clone, Copy, Debug, PartialEq, Eq, Structural)]
pub enum Sym {
    /// `=`
    Assign,
    /// `:=`
    Define,
    /// `->`
    Arrow,
    /// `||`
    OrOr,
    /// `&&`
    AndAnd,
    /// `!`
    Bang,
    /// `==`
    EqEq,
    /// `!=`
    BangEq,
    /// `<`
    Less,
    /// `>`
    Greater,
    /// `<=`
    LessEq,
    /// `>=`
    GreaterEq,
    /// `+`
    Plus,
    /// `-`
    Minus,
    /// `*`
    Star,
    /// `/`
    Slash,
    /// `^`
    Caret,
    /// `,`
    Comma,
}

/// What a token is.
#[derive(Clone, Copy, Debug, PartialEq, Eq, Structural)]
pub enum TokenKind {
    Symbol,
    Number,
    /// A double-quoted string; the token spans the quotes too.
    Str,
    Operator(Sym),
    Open(Bracket),
    Close(Bracket),
    End,
}

/// A token: its kind and the character offsets `start..end` it covers.
#[derive(Clone, Copy, Debug, PartialEq, Eq, Structural)]
pub struct Token {
    pub kind: TokenKind,
    pub start: usize,
    pub end: usize,
}

/// Why an input cannot be split into tokens.
#[derive(Clone, Copy, Debug, PartialEq, Eq, Structural)]
pub enum LexError {
    /// A string opened at this offset is not closed before the end.
    UnterminatedString(usize),
    /// A comment opened at this offset is not closed before the end.
    UnterminatedComment(usize),
    /// No token starts with the character at this offset.
    Unexpected(usize),
}

pub open spec fn is_space(c: char) -> bool {
    c == ' ' || c == '\t' || c == '\n' || c == '\r'
}

pub open spec fn is_digit(c: char) -> bool {
    '0' <= c && c <= '9'
}

pub open spec fn is_ascii_letter(c: char) -> bool {
    ('a' <= c && c <= 'z') || ('A' <= c && c <= 'Z')
}

/// Whether a character has the Unicode `Alphabetic` property.
pub uninterp spec fn alphabetic(c: char) -> bool;

/// Letters: the ASCII letters, and beyond ASCII the Unicode alphabetic characters.
pub open spec fn is_letter(c: char) -> bool {
    is_ascii_letter(c) || (c as u32 >= 128 && alphabetic(c))
}

pub open spec fn starts_symbol(c: char) -> bool {
    is_letter(c) || c == '$'
}

pub open spec fn continues_symbol(c: char) -> bool {
    is_letter(c) || is_digit(c) || c == '$' || c == '`'
}

/// Whether `s` holds character `c` at offset `i`.
pub open spec fn at(s: Seq<char>, i: int, c: char) -> bool {
    0 <= i < s.len() && s[i] == c
}

/// The end of the run of digits that starts at `i`.
pub open spec fn digits_end(s: Seq<char>, i: int) -> int
    decreases s.len() - i,
{
    if 0 <= i < s.len() && is_digit(s[i]) {
        digits_end(s, i + 1)
    } else {
        i
    }
}

/// The end of the run of symbol characters that starts at `i`.
pub open spec fn symbol_end(s: Seq<char>, i: int) -> int
    decreases s.len() - i,
{
    if 0 <= i < s.len() && continues_symbol(s[i]) {
        symbol_end(s, i + 1)
    } else {
        i
    }
}

/// The end of a number whose first digit is at `i`: digits, an optional
/// fraction `.digits`, and an optional exponent `*^digits` with an optional sign.
pub open spec fn number_end(s: Seq<char>, i: int) -> int {
    let a = digits_end(s, i);
    let b = if at(s, a, '.') { digits_end(s, a + 1) } else { a };
    if at(s, b, '*') && at(s, b + 1, '^') && b + 2 < s.len() && is_digit(s[b + 2]) {
        digits_end(s, b + 2)
    } else if at(s, b, '*') && at(s, b + 1, '^') && (at(s, b + 2, '-') || at(s, b + 2, '+'))
        && b + 3 < s.len() && is_digit(s[b + 3]) {
        digits_end(s, b + 3)
    } else {
        b
    }
}

/// The end of a string whose body starts at `i` (after the opening quote):
/// the offset after the closing quote, or `None` when the input ends first.
/// A backslash escapes the character after it.
pub open spec fn string_end(s: Seq<char>, i: int) -> Option<int>
    decreases s.len() - i,
{
    if i < 0 || i >= s.len() {
        None
    } else if s[i] == '"' {
        Some(i + 1)
    } else if s[i] == '\\' {
        if i + 1 >= s.len() {
            None
        } else {
            string_end(s, i + 2)
        }
    } else {
        string_end(s, i + 1)
    }
}

/// Skips whitespace and comments from `i`. `depth` is the number of comments
/// open at `i` and `open` is where the outermost of them started.
pub open spec fn trivia_end(s: Seq<char>, i: int, depth: nat, open: int) -> Result<int, LexError>
    decreases s.len() - i,
{
    if i < 0 || i >= s.len() {
        if depth == 0 {
            Ok(i)
        } else {
            Err(LexError::UnterminatedComment(open as usize))
        }
    } else if at(s, i, '(') && at(s, i + 1, '*') {
        trivia_end(s, i + 2, depth + 1, if depth == 0 { i } else { open })
    } else if depth > 0 && at(s, i, '*') && at(s, i + 1, ')') {
        trivia_end(s, i + 2, (depth - 1) as nat, open)
    } else if depth > 0 || is_space(s[i]) {
        trivia_end(s, i + 1, depth, open)
    } else {
        Ok(i)
    }
}

/// The operator or separator at `i`, with its length; two-character
/// operators take precedence over their one-character prefixes.
pub open spec fn operator_at(s: Seq<char>, i: int) -> Option<(Sym, int)> {
    if at(s, i, ':') && at(s, i + 1, '=') {
        Some((Sym::Define, 2))
    } else if at(s, i, '-') && at(s, i + 1, '>') {
        Some((Sym::Arrow, 2))
    } else if at(s, i, '=') && at(s, i + 1, '=') {
        Some((Sym::EqEq, 2))
    } else if at(s, i, '!') && at(s, i + 1, '=') {
        Some((Sym::BangEq, 2))
    } else if at(s, i, '<') && at(s, i + 1, '=') {
        Some((Sym::LessEq, 2))
    } else if at(s, i, '>') && at(s, i + 1, '=') {
        Some((Sym::GreaterEq, 2))
    } else if at(s, i, '&') && at(s, i + 1, '&') {
        Some((Sym::AndAnd, 2))
    } else if at(s, i, '|') && at(s, i + 1, '|') {
        Some((Sym::OrOr, 2))
    } else if at(s, i, '=') {
        Some((Sym::Assign, 1))
    } else if at(s, i, '!') {
        Some((Sym::Bang, 1))
    } else if at(s, i, '<') {
        Some((Sym::Less, 1))
    } else if at(s, i, '>') {
        Some((Sym::Greater, 1))
    } else if at(s, i, '+') {
        Some((Sym::Plus, 1))
    } else if at(s, i, '-') {
        Some((Sym::Minus, 1))
    } else if at(s, i, '*') {
        Some((Sym::Star, 1))
    } else if at(s, i, '/') {
        Some((Sym::Slash, 1))
    } else if at(s, i, '^') {
        Some((Sym::Caret, 1))
    } else if at(s, i, ',') {
        Some((Sym::Comma, 1))
    } else {
        None
    }
}

/// The bracket character `c`, as (which pair, whether it opens).
pub open spec fn bracket_of(c: char) -> Option<(Bracket, bool)> {
    if c == '(' {
        Some((Bracket::Paren, true))
    } else if c == ')' {
        Some((Bracket::Paren, false))
    } else if c == '{' {
        Some((Bracket::Brace, true))
    } else if c == '}' {
        Some((Bracket::Brace, false))
    } else if c == '[' {
        Some((Bracket::Square, true))
    } else if c == ']' {
        Some((Bracket::Square, false))
    } else {
        None
    }
}

pub open spec fn mk_token(kind: TokenKind, start: int, end: int) -> Token {
    Token { kind, start: start as usize, end: end as usize }
}

/// The token that starts at `i`, where `i` is inside `s` and not in trivia.
pub open spec fn token_at(s: Seq<char>, i: int) -> Result<Token, LexError> {
    let c = s[i];
    if is_digit(c) {
        Ok(mk_token(TokenKind::Number, i, number_end(s, i)))
    } else if starts_symbol(c) {
        Ok(mk_token(TokenKind::Symbol, i, symbol_end(s, i + 1)))
    } else if c == '"' {
        match string_end(s, i + 1) {
            Some(j) => Ok(mk_token(TokenKind::Str, i, j)),
            None => Err(LexError::UnterminatedString(i as usize)),
        }
    } else if bracket_of(c) is Some {
        let (b, opens) = bracket_of(c)->0;
        Ok(mk_token(if opens { TokenKind::Open(b) } else { TokenKind::Close(b) }, i, i + 1))
    } else if operator_at(s, i) is Some {
        let (op, n) = operator_at(s, i)->0;
        Ok(mk_token(TokenKind::Operator(op), i, i + n))
    } else {
        Err(LexError::Unexpected(i as usize))
    }
}

/// The tokens of `s` from offset `i` on, ending with the `End` token. A token
/// always ends after `i` (as `lex` proves); the check on it bounds the recursion.
pub open spec fn lex_from(s: Seq<char>, i: int) -> Result<Seq<Token>, LexError>
    decreases s.len() - i,
{
    match trivia_end(s, i, 0, i) {
        Err(e) => Err(e),
        Ok(j) => {
            if j < 0 || j >= s.len() {
                Ok(seq![mk_token(TokenKind::End, s.len() as int, s.len() as int)])
            } else {
                match token_at(s, j) {
                    Err(e) => Err(e),
                    Ok(t) => {
                        if i < t.end <= s.len() {
                            match lex_from(s, t.end as int) {
                                Err(e) => Err(e),
                                Ok(rest) => Ok(seq![t] + rest),
                            }
                        } else {
                            Err(LexError::Unexpected(j as usize))
                        }
                    }
                }
            }
        }
    }
}

/// The tokens of the whole of `s`.
pub open spec fn lex_spec(s: Seq<char>) -> Result<Seq<Token>, LexError> {
    lex_from(s, 0)
}

/// Relies on `char::is_alphabetic`, which tests the Unicode `Alphabetic` property.
#[verifier::external_body]
fn is_alphabetic(c: char) -> (r: bool)
    ensures
        r == alphabetic(c),
{
    c.is_alphabetic()
}

fn is_letter_exec(c: char) -> (r: bool)
    ensures
        r == is_letter(c),
{
    if ('a' <= c && c <= 'z') || ('A' <= c && c <= 'Z') {
        true
    } else if (c as u32) >= 128 {
        is_alphabetic(c)
    } else {
        false
    }
}

fn scan_digits(s: &Vec<char>, i: usize) -> (r: usize)
    requires
        i <= s.len(),
    ensures
        r as int == digits_end(s@, i as int),
        i <= r <= s.len(),
{
    let mut j: usize = i;
    while j < s.len() && '0' <= s[j] && s[j] <= '9'
        invariant
            i <= j <= s.len(),
            digits_end(s@, j as int) == digits_end(s@, i as int),
        decreases s.len() - j,
    {
        j = j + 1;
    }
    j
}

fn scan_symbol(s: &Vec<char>, i: usize) -> (r: usize)
    requires
        i <= s.len(),
    ensures
        r as int == symbol_end(s@, i as int),
        i <= r <= s.len(),
{
    let mut j: usize = i;
    while j < s.len() && continues_symbol_exec(s[j])
        invariant
            i <= j <= s.len(),
            symbol_end(s@, j as int) == symbol_end(s@, i as int),
        decreases s.len() - j,
    {
        j = j + 1;
    }
    j
}

fn continues_symbol_exec(c: char) -> (r: bool)
    ensures
        r == continues_symbol(c),
{
    is_letter_exec(c) || ('0' <= c && c <= '9') || c == '$' || c == '`'
}

fn char_at(s: &Vec<char>, i: usize, c: char) -> (r: bool)
    ensures
        r == at(s@, i as int, c),
{
    i < s.len() && s[i] == c
}

fn scan_number(s: &Vec<char>, i: usize) -> (r: usize)
    requires
        i < s.len(),
        is_digit(s@[i as int]),
    ensures
        r as int == number_end(s@, i as int),
        i < r <= s.len(),
{
    let a = scan_digits(s, i + 1);
    assert(digits_end(s@, i as int) == digits_end(s@, i + 1));
    let b = if char_at(s, a, '.') { scan_digits(s, a + 1) } else { a };
    if char_at(s, b, '*') && char_at(s, b + 1, '^') && b + 2 < s.len() && '0' <= s[b + 2] && s[b + 2] <= '9' {
        scan_digits(s, b + 2)
    } else if char_at(s, b, '*') && char_at(s, b + 1, '^') && (char_at(s, b + 2, '-') || char_at(s, b + 2, '+'))
        && b + 3 < s.len() && '0' <= s[b + 3] && s[b + 3] <= '9' {
        scan_digits(s, b + 3)
    } else {
        b
    }
}

fn scan_string(s: &Vec<char>, i: usize) -> (r: Option<usize>)
    requires
        i <= s.len(),
    ensures
        r matches Some(j) ==> string_end(s@, i as int) == Some(j as int) && i < j <= s.len(),
        r is None ==> string_end(s@, i as int) is None,
{
    let mut j: usize = i;
    while j < s.len()
        invariant
            i <= j <= s.len(),
            string_end(s@, j as int) == string_end(s@, i as int),
        decreases s.len() - j,
    {
        if s[j] == '"' {
            return Some(j + 1);
        } else if s[j] == '\\' {
            if j + 1 >= s.len() {
                return None;
            }
            j = j + 2;
        } else {
            j = j + 1;
        }
    }
    None
}

fn skip_trivia(s: &Vec<char>, i: usize) -> (r: Result<usize, LexError>)
    requires
        i <= s.len(),
    ensures
        r matches Ok(j) ==> trivia_end(s@, i as int, 0, i as int) == Ok::<int, LexError>(j as int) && i <= j <= s.len(),
        r matches Err(e) ==> trivia_end(s@, i as int, 0, i as int) == Err::<int, LexError>(e),
{
    let mut j: usize = i;
    let mut depth: usize = 0;
    let mut open: usize = i;
    while j < s.len()
        invariant
            i <= j <= s.len(),
            depth <= j,
            open <= j,
            trivia_end(s@, j as int, depth as nat, open as int) == trivia_end(s@, i as int, 0, i as int),
        decreases s.len() - j,
    {
        if char_at(s, j, '(') && char_at(s, j + 1, '*') {
            if depth == 0 {
                open = j;
            }
            depth = depth + 1;
            j = j + 2;
        } else if depth > 0 && char_at(s, j, '*') && char_at(s, j + 1, ')') {
            depth = depth - 1;
            j = j + 2;
        } else if depth > 0 || s[j] == ' ' || s[j] == '\t' || s[j] == '\n' || s[j] == '\r' {
            j = j + 1;
        } else {
            return Ok(j);
        }
    }
    if depth == 0 {
        Ok(j)
    } else {
        Err(LexError::UnterminatedComment(open))
    }
}

fn operator_exec(s: &Vec<char>, i: usize) -> (r: Option<(Sym, usize)>)
    requires
        i < s.len(),
    ensures
        r matches Some((op, n)) ==> operator_at(s@, i as int) == Some((op, n as int)) && 1 <= n
            && i + n <= s.len(),
        r is None ==> operator_at(s@, i as int) is None,
{
    if char_at(s, i, ':') && char_at(s, i + 1, '=') {
        Some((Sym::Define, 2))
    } else if char_at(s, i, '-') && char_at(s, i + 1, '>') {
        Some((Sym::Arrow, 2))
    } else if char_at(s, i, '=') && char_at(s, i + 1, '=') {
        Some((Sym::EqEq, 2))
    } else if char_at(s, i, '!') && char_at(s, i + 1, '=') {
        Some((Sym::BangEq, 2))
    } else if char_at(s, i, '<') && char_at(s, i + 1, '=') {
        Some((Sym::LessEq, 2))
    } else if char_at(s, i, '>') && char_at(s, i + 1, '=') {
        Some((Sym::GreaterEq, 2))
    } else if char_at(s, i, '&') && char_at(s, i + 1, '&') {
        Some((Sym::AndAnd, 2))
    } else if char_at(s, i, '|') && char_at(s, i + 1, '|') {
        Some((Sym::OrOr, 2))
    } else if char_at(s, i, '=') {
        Some((Sym::Assign, 1))
    } else if char_at(s, i, '!') {
        Some((Sym::Bang, 1))
    } else if char_at(s, i, '<') {
        Some((Sym::Less, 1))
    } else if char_at(s, i, '>') {
        Some((Sym::Greater, 1))
    } else if char_at(s, i, '+') {
        Some((Sym::Plus, 1))
    } else if char_at(s, i, '-') {
        Some((Sym::Minus, 1))
    } else if char_at(s, i, '*') {
        Some((Sym::Star, 1))
    } else if char_at(s, i, '/') {
        Some((Sym::Slash, 1))
    } else if char_at(s, i, '^') {
        Some((Sym::Caret, 1))
    } else if char_at(s, i, ',') {
        Some((Sym::Comma, 1))
    } else {
        None
    }
}

fn bracket_exec(c: char) -> (r: Option<(Bracket, bool)>)
    ensures
        r == bracket_of(c),
{
    if c == '(' {
        Some((Bracket::Paren, true))
    } else if c == ')' {
        Some((Bracket::Paren, false))
    } else if c == '{' {
        Some((Bracket::Brace, true))
    } else if c == '}' {
        Some((Bracket::Brace, false))
    } else if c == '[' {
        Some((Bracket::Square, true))
    } else if c == ']' {
        Some((Bracket::Square, false))
    } else {
        None
    }
}

fn next_token(s: &Vec<char>, i: usize) -> (r: Result<Token, LexError>)
    requires
        i < s.len(),
    ensures
        r == token_at(s@, i as int),
        r matches Ok(t) ==> t.start == i && i < t.end <= s.len() && (t.kind is Str ==> t.start + 2 <= t.end),
{
    let c = s[i];
    if '0' <= c && c <= '9' {
        let e = scan_number(s, i);
        Ok(Token { kind: TokenKind::Number, start: i, end: e })
    } else if is_letter_exec(c) || c == '$' {
        let e = scan_symbol(s, i + 1);
        Ok(Token { kind: TokenKind::Symbol, start: i, end: e })
    } else if c == '"' {
        match scan_string(s, i + 1) {
            Some(j) => Ok(Token { kind: TokenKind::Str, start: i, end: j }),
            None => Err(LexError::UnterminatedString(i)),
        }
    } else {
        match bracket_exec(c) {
            Some((b, opens)) => {
                let kind = if opens { TokenKind::Open(b) } else { TokenKind::Close(b) };
                Ok(Token { kind, start: i, end: i + 1 })
            },
            None => match operator_exec(s, i) {
                Some((op, n)) => Ok(Token { kind: TokenKind::Operator(op), start: i, end: i + n }),
                None => Err(LexError::Unexpected(i)),
            },
        }
    }
}

/// `done` followed by the outcome `rest` of lexing what comes after it.
pub open spec fn after(done: Seq<Token>, rest: Result<Seq<Token>, LexError>) -> Result<Seq<Token>, LexError> {
    match rest {
        Ok(ts) => Ok(done + ts),
        Err(e) => Err(e),
    }
}

/// Every token lies within an input of length `n`, and a string token holds
/// at least its two quotes.
pub open spec fn tokens_fit(n: nat, ts: Seq<Token>) -> bool {
    forall|i: int|
        0 <= i < ts.len() ==> #[trigger] ts[i].start <= ts[i].end && ts[i].end <= n && (ts[i].kind is Str
            ==> ts[i].start + 2 <= ts[i].end)
}

/// Splits `s` into tokens, skipping whitespace and comments; the last token
/// is `End`, at the length of `s`.
pub fn lex(s: &Vec<char>) -> (r: Result<Vec<Token>, LexError>)
    ensures
        r matches Ok(ts) ==> lex_spec(s@) == Ok::<Seq<Token>, LexError>(ts@) && tokens_fit(s@.len(), ts@),
        r matches Err(e) ==> lex_spec(s@) == Err::<Seq<Token>, LexError>(e),
{
    let mut out: Vec<Token> = Vec::new();
    let mut i: usize = 0;
    loop
        invariant
            i <= s.len(),
            lex_spec(s@) == after(out@, lex_from(s@, i as int)),
            tokens_fit(s@.len(), out@),
        decreases s.len() - i,
    {
        let j = match skip_trivia(s, i) {
            Ok(j) => j,
            Err(e) => {
                return Err(e);
            },
        };
        if j >= s.len() {
            let end = Token { kind: TokenKind::End, start: s.len(), end: s.len() };
            let ghost prev = out@;
            out.push(end);
            assert(prev + seq![end] =~= out@);
            return Ok(out);
        }
        let t = match next_token(s, j) {
            Ok(t) => t,
            Err(e) => {
                return Err(e);
            },
        };
        let ghost prev = out@;
        out.push(t);
        proof {
            match lex_from(s@, t.end as int) {
                Ok(rest) => {
                    assert(prev + (seq![t] + rest) =~= out@ + rest);
                },
                Err(_) => {},
            }
        }
        i = t.end;
    }
}

} // verus!
