use vstd::prelude::*;

use crate::token::{Token, TokenType};

verus! {

/// One collected scan or parse problem: the line it was seen on, a short
/// location phrase such as `at 'foo'`, and the human-readable message.
#[derive(Debug)]
pub struct Diagnostic {
    pub line: i32,
    pub place: String,
    pub message: String,
}

/// A failure met while evaluating: the token it is blamed on (for its
/// line) and the message shown to the user.
#[derive(Debug)]
pub struct RuntimeError {
    pub token: Token,
    pub message: String,
}

/// A failure met while parsing: the offending token and a message.
#[derive(Debug)]
pub struct ParseError {
    pub token: Token,
    pub message: String,
}

pub open spec fn spec_digit_char(d: int) -> char {
    if d == 0 {
        '0'
    } else if d == 1 {
        '1'
    } else if d == 2 {
        '2'
    } else if d == 3 {
        '3'
    } else if d == 4 {
        '4'
    } else if d == 5 {
        '5'
    } else if d == 6 {
        '6'
    } else if d == 7 {
        '7'
    } else if d == 8 {
        '8'
    } else {
        '9'
    }
}

/// Decimal digits of a non-negative number, most significant first.
pub open spec fn spec_dec_digits(n: int) -> Seq<char>
    decreases n,
{
    if n < 10 {
        seq![spec_digit_char(if n < 0 { 0 } else { n })]
    } else {
        spec_dec_digits(n / 10) + seq![spec_digit_char(n % 10)]
    }
}

/// Decimal rendering of a signed number: a leading minus sign, then digits.
pub open spec fn spec_dec_int(n: int) -> Seq<char> {
    if n < 0 {
        seq!['-'] + spec_dec_digits(-n)
    } else {
        spec_dec_digits(n)
    }
}

fn push_digit(s: &mut String, d: u64)
    requires
        d < 10,
    ensures
        final(s)@ == old(s)@ + seq![spec_digit_char(d as int)],
{
    proof {
        reveal_strlit("0");
        reveal_strlit("1");
        reveal_strlit("2");
        reveal_strlit("3");
        reveal_strlit("4");
        reveal_strlit("5");
        reveal_strlit("6");
        reveal_strlit("7");
        reveal_strlit("8");
        reveal_strlit("9");
    }
    match d {
        0 => s.append("0"),
        1 => s.append("1"),
        2 => s.append("2"),
        3 => s.append("3"),
        4 => s.append("4"),
        5 => s.append("5"),
        6 => s.append("6"),
        7 => s.append("7"),
        8 => s.append("8"),
        _ => s.append("9"),
    }
}

/// Appends the decimal digits of `n` to `s`, most significant first.
pub fn push_decimal(s: &mut String, n: u64)
    ensures
        final(s)@ == old(s)@ + spec_dec_digits(n as int),
    decreases n,
{
    if n >= 10 {
        push_decimal(s, n / 10);
    }
    push_digit(s, n % 10);
    proof {
        if n >= 10 {
            assert(spec_dec_digits(n as int) == spec_dec_digits(n as int / 10) + seq![
                spec_digit_char(n as int % 10),
            ]);
        }
    }
}

/// Appends the decimal rendering of a signed number, minus sign included.
pub fn push_decimal_signed(s: &mut String, n: i32)
    ensures
        final(s)@ == old(s)@ + spec_dec_int(n as int),
{
    if n < 0 {
        proof {
            reveal_strlit("-");
        }
        s.append("-");
        let magnitude: u64 = (-(n as i64)) as u64;
        push_decimal(s, magnitude);
    } else {
        push_decimal(s, n as u64);
    }
}

impl Diagnostic {
    /// The printed form of a diagnostic:
    /// `[line L] Error P: M`, with the place omitted when it is empty.
    pub open spec fn spec_render(&self) -> Seq<char> {
        "[line "@ + spec_dec_int(self.line as int) + "] Error"@ + (if self.place@.len() == 0 {
            Seq::<char>::empty()
        } else {
            " "@ + self.place@
        }) + ": "@ + self.message@
    }

    /// Builds the text a driver shows for this diagnostic.
    pub fn render(&self) -> (r: String)
        ensures
            r@ == self.spec_render(),
    {
        let mut s = String::new();
        s.append("[line ");
        push_decimal_signed(&mut s, self.line);
        s.append("] Error");
        if !self.place.as_str().is_empty() {
            s.append(" ");
            s.append(self.place.as_str());
        }
        s.append(": ");
        s.append(self.message.as_str());
        s
    }
}

/// Records a bare scan-level problem on the given line.
pub fn error(line: i32, message: String) -> (r: Diagnostic)
    ensures
        r.line == line,
        r.place@ == Seq::<char>::empty(),
        r.message == message,
{
    report(line, String::new(), message)
}

/// Records a problem at a location phrase, mirroring the line of the report.
fn report(line: i32, place: String, message: String) -> (r: Diagnostic)
    ensures
        r.line == line,
        r.place == place,
        r.message == message,
{
    Diagnostic { line, place, message }
}

/// Records a parse problem at a token: `at end` for the end of input,
/// `at '<lexeme>'` anywhere else.
pub fn parser_error(token: &Token, message: String) -> (r: Diagnostic)
    ensures
        r.line == token.line,
        token.token_type == TokenType::Eof ==> r.place@ == "at end"@,
        token.token_type != TokenType::Eof ==> r.place@ == "at '"@ + token.lexeme@ + "'"@,
        r.message == message,
{
    if token.token_type == TokenType::Eof {
        report(token.line, String::from_str("at end"), message)
    } else {
        let mut place = String::from_str("at '");
        place.append(token.lexeme.as_str());
        place.append("'");
        report(token.line, place, message)
    }
}

} // verus!
