//! What the table looks like on a screen, as plain values: runs of text,
//! each with its colour and weight, gathered into lines.

use vstd::prelude::*;

verus! {

/// The colours the table is drawn in. `Plain` is the terminal's own.
#[derive(Debug, Clone, Copy, PartialEq, Eq, Structural)]
pub enum Tint {
    Plain,
    White,
    Red,
    LightBlue,
    Blue,
    Green,
    Yellow,
}

/// A run of text in one colour and weight.
#[derive(Debug, PartialEq, Eq)]
pub struct Span {
    pub tint: Tint,
    pub bold: bool,
    pub text: String,
}

/// A run of text as a mathematical value.
pub struct Piece {
    pub tint: Tint,
    pub bold: bool,
    pub text: Seq<char>,
}

impl View for Span {
    type V = Piece;

    open spec fn view(&self) -> Piece {
        Piece { tint: self.tint, bold: self.bold, text: self.text@ }
    }
}

/// A run of text in the terminal's own colour.
pub open spec fn plain(text: Seq<char>) -> Piece {
    Piece { tint: Tint::Plain, bold: false, text }
}

/// A run of text in the given colour, at normal weight.
pub open spec fn tinted(tint: Tint, text: Seq<char>) -> Piece {
    Piece { tint, bold: false, text }
}

/// A line of spans, piece by piece.
pub open spec fn pieces(line: Seq<Span>) -> Seq<Piece> {
    line.map_values(|span: Span| span@)
}

/// A run of lines, each piece by piece.
pub open spec fn page(lines: Seq<Vec<Span>>) -> Seq<Seq<Piece>> {
    lines.map_values(|line: Vec<Span>| pieces(line@))
}

/// A span added to a line adds its piece.
pub proof fn pieces_of_push(line: Seq<Span>, span: Span)
    ensures
        pieces(line.push(span)) == pieces(line).push(span@),
{
    assert(pieces(line.push(span)) =~= pieces(line).push(span@));
}

/// Lines set one after the other give their pieces one after the other.
pub proof fn page_of_concat(first: Seq<Vec<Span>>, second: Seq<Vec<Span>>)
    ensures
        page(first + second) == page(first) + page(second),
{
    assert(page(first + second) =~= page(first) + page(second));
}

impl Span {
    /// A span in the terminal's own colour.
    pub fn plain(text: &str) -> (span: Span)
        ensures
            span@ == plain(text@),
    {
        Span { tint: Tint::Plain, bold: false, text: String::from_str(text) }
    }

    /// A span in the given colour.
    pub fn tinted(tint: Tint, text: &str) -> (span: Span)
        ensures
            span@ == tinted(tint, text@),
    {
        Span { tint, bold: false, text: String::from_str(text) }
    }
}

/// The numeral for one decimal digit; `"9"` for anything above nine.
pub open spec fn digit_text(digit: nat) -> Seq<char> {
    if digit == 0 {
        "0"@
    } else if digit == 1 {
        "1"@
    } else if digit == 2 {
        "2"@
    } else if digit == 3 {
        "3"@
    } else if digit == 4 {
        "4"@
    } else if digit == 5 {
        "5"@
    } else if digit == 6 {
        "6"@
    } else if digit == 7 {
        "7"@
    } else if digit == 8 {
        "8"@
    } else {
        "9"@
    }
}

/// A number written in decimal, without leading zeros.
pub open spec fn decimal_text(n: nat) -> Seq<char>
    decreases n,
{
    if n < 10 {
        digit_text(n)
    } else {
        decimal_text(n / 10) + digit_text(n % 10)
    }
}

/// The numeral for one decimal digit.
fn digit(d: u8) -> (text: &'static str)
    requires
        d < 10,
    ensures
        text@ == digit_text(d as nat),
{
    if d == 0 {
        "0"
    } else if d == 1 {
        "1"
    } else if d == 2 {
        "2"
    } else if d == 3 {
        "3"
    } else if d == 4 {
        "4"
    } else if d == 5 {
        "5"
    } else if d == 6 {
        "6"
    } else if d == 7 {
        "7"
    } else if d == 8 {
        "8"
    } else {
        "9"
    }
}

/// Writes a number in decimal.
pub fn decimal(n: u8) -> (text: String)
    ensures
        text@ == decimal_text(n as nat),
{
    if n < 10 {
        String::from_str(digit(n))
    } else if n < 100 {
        proof {
            assert(decimal_text((n / 10) as nat) == digit_text((n / 10) as nat));
        }
        String::from_str(digit(n / 10)).concat(digit(n % 10))
    } else {
        let tens: u8 = n / 10;
        proof {
            assert(decimal_text((tens / 10) as nat) == digit_text((tens / 10) as nat));
            assert(decimal_text(tens as nat) == digit_text((tens / 10) as nat) + digit_text(
                (tens % 10) as nat,
            ));
        }
        String::from_str(digit(tens / 10)).concat(digit(tens % 10)).concat(digit(n % 10))
    }
}

} // verus!
