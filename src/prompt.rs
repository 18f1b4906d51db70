//! Prompt texts shown before input (`In[n]`) and output (`Out[n]`).

use colored::Colorize;
use vstd::prelude::*;

verus! {

/// The decimal digits of a natural number, most significant first.
pub open spec fn digits_of(n: nat) -> Seq<char>
    decreases n,
{
    if n < 10 {
        seq![char_of_digit(n)]
    } else {
        digits_of(n / 10).push(char_of_digit(n % 10))
    }
}

/// The character of one decimal digit.
pub open spec fn char_of_digit(d: nat) -> char {
    if d == 0 { '0' } else if d == 1 { '1' } else if d == 2 { '2' } else if d == 3 { '3' }
    else if d == 4 { '4' } else if d == 5 { '5' } else if d == 6 { '6' } else if d == 7 { '7' }
    else if d == 8 { '8' } else { '9' }
}

/// An integer written in decimal, with a leading `-` when negative.
pub open spec fn decimal(n: int) -> Seq<char> {
    if n < 0 {
        seq!['-'] + digits_of((-n) as nat)
    } else {
        digits_of(n as nat)
    }
}

/// The two forms a text painted blue can take: the text itself when the
/// terminal is not colorized, or the text framed by the blue and reset
/// escape sequences.
pub open spec fn painted_blue(r: Seq<char>, s: Seq<char>) -> bool {
    r == s || r == seq!['\x1b', '[', '3', '4', 'm'] + s + seq!['\x1b', '[', '0', 'm']
}

/// An input prompt whose `In[` and `]` are written as `open` and `close`.
pub open spec fn framed_in_prompt(open: Seq<char>, n: int, close: Seq<char>) -> Seq<char> {
    seq![' '] + open + decimal(n) + close + seq![' ', ':', '=', ' ']
}

/// An output prompt whose `Out[` and `]` are written as `open` and `close`.
pub open spec fn framed_out_prompt(open: Seq<char>, n: int, close: Seq<char>) -> Seq<char> {
    open + decimal(n) + close + seq![' ', ' ', '=', ' ']
}

/// The plain input prompt: ` In[n] := `.
pub open spec fn in_prompt(n: int) -> Seq<char> {
    seq![' ', 'I', 'n', '['] + decimal(n) + seq![']', ' ', ':', '=', ' ']
}

/// The plain output prompt: `Out[n]  = `.
pub open spec fn out_prompt(n: int) -> Seq<char> {
    seq!['O', 'u', 't', '['] + decimal(n) + seq![']', ' ', ' ', '=', ' ']
}

/// Relies on `Display` for `i32`: the number in decimal, `-` first when negative.
#[verifier::external_body]
fn decimal_string(n: i32) -> (r: String)
    ensures
        r@ == decimal(n as int),
{
    n.to_string()
}

/// Relies on colored's `Colorize::blue` and the `Display` of `ColoredString`:
/// the text is printed as it is when colorizing is off, and otherwise between
/// `ESC[34m` and `ESC[0m`; inner reset sequences are only rewritten when the
/// text holds an escape character.
#[verifier::external_body]
fn paint_blue(s: &str) -> (r: String)
    ensures
        (forall|i: int| 0 <= i < s@.len() ==> s@[i] != '\x1b') ==> painted_blue(r@, s@),
{
    s.blue().to_string()
}

/// Builds `left + number + right + tail` from its parts.
fn join_prompt(left: String, n: i32, right: String, tail: &str) -> (r: String)
    ensures
        r@ == left@ + decimal(n as int) + right@ + tail@,
{
    let num = decimal_string(n);
    let r = left.concat(num.as_str());
    let r = r.concat(right.as_str());
    r.concat(tail)
}

/// The prompt shown before input number `line_number`: ` In[n] := `, with
/// `In[` and `]` painted blue when color is enabled.
pub fn get_in_prompt(line_number: i32, color_enabled: bool) -> (r: String)
    ensures
        !color_enabled ==> r@ == in_prompt(line_number as int),
        color_enabled ==> exists|a: Seq<char>, b: Seq<char>|
            painted_blue(a, seq!['I', 'n', '['])
            && painted_blue(b, seq![']'])
            && r@ == #[trigger] framed_in_prompt(a, line_number as int, b),
{
    proof {
        reveal_strlit(" In[");
        reveal_strlit("In[");
        reveal_strlit(" ");
        reveal_strlit("]");
        reveal_strlit("] := ");
        reveal_strlit(" := ");
        reveal_strlit("");
        assert("In["@ =~= seq!['I', 'n', '[']);
        assert("]"@ =~= seq![']']);
        assert(""@ =~= Seq::<char>::empty());
    }
    if color_enabled {
        let open = paint_blue("In[");
        let close = paint_blue("]");
        let lead = String::from_str(" ").concat(open.as_str());
        let r = join_prompt(lead, line_number, close, " := ");
        assert(r@ =~= framed_in_prompt(open@, line_number as int, close@));
        r
    } else {
        let r = join_prompt(String::from_str(" In["), line_number, String::from_str("] := "), "");
        assert(r@ =~= in_prompt(line_number as int));
        r
    }
}

/// The prompt shown before output number `line_number`: `Out[n]  = `, with
/// `Out[` and `]` painted blue when color is enabled.
pub fn get_out_prompt(line_number: i32, color_enabled: bool) -> (r: String)
    ensures
        !color_enabled ==> r@ == out_prompt(line_number as int),
        color_enabled ==> exists|a: Seq<char>, b: Seq<char>|
            painted_blue(a, seq!['O', 'u', 't', '['])
            && painted_blue(b, seq![']'])
            && r@ == #[trigger] framed_out_prompt(a, line_number as int, b),
{
    proof {
        reveal_strlit("Out[");
        reveal_strlit("]");
        reveal_strlit("]  = ");
        reveal_strlit("  = ");
        reveal_strlit("");
        assert("Out["@ =~= seq!['O', 'u', 't', '[']);
        assert("]"@ =~= seq![']']);
        assert(""@ =~= Seq::<char>::empty());
    }
    if color_enabled {
        let open = paint_blue("Out[");
        let close = paint_blue("]");
        let ghost (a, b) = (open@, close@);
        let r = join_prompt(open, line_number, close, "  = ");
        assert(r@ =~= framed_out_prompt(a, line_number as int, b));
        r
    } else {
        let r = join_prompt(String::from_str("Out["), line_number, String::from_str("]  = "), "");
        assert(r@ =~= out_prompt(line_number as int));
        r
    }
}

} // verus!
