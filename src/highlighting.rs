use crate::text::decimal;
use vstd::prelude::*;

verus! {

/// How a cluster of a row is shown.
#[derive(PartialEq, Eq, Structural, Clone, Copy, Debug)]
pub enum Type {
    SearchSelected,
    Search,
    Plain,
}

/// A truecolor value: red, green, blue.
#[derive(PartialEq, Eq, Structural, Clone, Copy, Debug)]
pub struct Rgb(pub u8, pub u8, pub u8);

/// The colors that a highlight kind is drawn with.
#[derive(PartialEq, Eq, Structural, Clone, Copy, Debug)]
pub struct Highlight {
    pub bg_color: Rgb,
    pub fg_color: Rgb,
}

/// Color of error messages in the message bar.
pub open spec fn error_color_spec() -> Rgb {
    Rgb(197, 15, 31)
}

pub fn error_color() -> (r: Rgb)
    ensures
        r == error_color_spec(),
{
    Rgb(197, 15, 31)
}

pub open spec fn color_of(t: Type) -> Highlight {
    match t {
        Type::Search => Highlight { fg_color: Rgb(0, 0, 0), bg_color: Rgb(249, 241, 165) },
        Type::SearchSelected => Highlight { fg_color: Rgb(0, 0, 0), bg_color: Rgb(255, 255, 255) },
        Type::Plain => Highlight { fg_color: Rgb(255, 255, 255), bg_color: Rgb(0, 0, 0) },
    }
}

impl Type {
    pub fn to_color(&self) -> (r: Highlight)
        ensures
            r == color_of(*self),
    {
        match self {
            Type::Search => Highlight { fg_color: Rgb(0, 0, 0), bg_color: Rgb(249, 241, 165) },
            Type::SearchSelected => Highlight {
                fg_color: Rgb(0, 0, 0),
                bg_color: Rgb(255, 255, 255),
            },
            Type::Plain => Highlight { fg_color: Rgb(255, 255, 255), bg_color: Rgb(0, 0, 0) },
        }
    }
}

/// The escape sequence that sets the foreground to `c`.
pub open spec fn fg_sequence(c: Rgb) -> Seq<char> {
    "\x1b[38;2;"@ + decimal(c.0 as nat) + ";"@ + decimal(c.1 as nat) + ";"@ + decimal(c.2 as nat)
        + "m"@
}

/// The escape sequence that sets the background to `c`.
pub open spec fn bg_sequence(c: Rgb) -> Seq<char> {
    "\x1b[48;2;"@ + decimal(c.0 as nat) + ";"@ + decimal(c.1 as nat) + ";"@ + decimal(c.2 as nat)
        + "m"@
}

/// The escape sequences that reset background and foreground.
pub open spec fn reset_sequence() -> Seq<char> {
    "\x1b[49m"@ + "\x1b[39m"@
}

/// The escape sequences that switch to the colors of `t`.
pub open spec fn marker(t: Type) -> Seq<char> {
    if t == Type::Plain {
        reset_sequence()
    } else {
        bg_sequence(color_of(t).bg_color) + fg_sequence(color_of(t).fg_color)
    }
}

/// Relies on termion's `Rgb::fg_string`: `ESC [ 38;2;r;g;b m`, numbers in decimal.
#[verifier::external_body]
fn fg_string(c: Rgb) -> (r: String)
    ensures
        r@ == fg_sequence(c),
{
    termion::color::Rgb(c.0, c.1, c.2).fg_string()
}

/// Relies on termion's `Rgb::bg_string`: `ESC [ 48;2;r;g;b m`, numbers in decimal.
#[verifier::external_body]
fn bg_string(c: Rgb) -> (r: String)
    ensures
        r@ == bg_sequence(c),
{
    termion::color::Rgb(c.0, c.1, c.2).bg_string()
}

/// Relies on termion's `Reset::fg_str`: `ESC [ 39m`.
#[verifier::external_body]
fn reset_fg() -> (r: &'static str)
    ensures
        r@ == "\x1b[39m"@,
{
    termion::color::Reset.fg_str()
}

/// Relies on termion's `Reset::bg_str`: `ESC [ 49m`.
#[verifier::external_body]
fn reset_bg() -> (r: &'static str)
    ensures
        r@ == "\x1b[49m"@,
{
    termion::color::Reset.bg_str()
}

/// The escape sequences that reset background and foreground.
pub fn reset_string() -> (r: String)
    ensures
        r@ == reset_sequence(),
{
    let mut r = reset_bg().to_owned();
    r.append(reset_fg());
    r
}

/// The escape sequences that switch to the colors of `t`.
pub fn marker_string(t: Type) -> (r: String)
    ensures
        r@ == marker(t),
{
    if t == Type::Plain {
        reset_string()
    } else {
        let h = t.to_color();
        let mut r = bg_string(h.bg_color);
        r.append(fg_string(h.fg_color).as_str());
        r
    }
}

/// Every tag is `Plain`.
pub open spec fn all_plain(tags: Seq<Type>) -> bool {
    forall|i: int| 0 <= i < tags.len() ==> tags[i] == Type::Plain
}

/// A list of `n` plain tags.
pub fn plain_tags(n: usize) -> (r: Vec<Type>)
    ensures
        r@.len() == n,
        all_plain(r@),
{
    let mut r: Vec<Type> = Vec::new();
    let mut i: usize = 0;
    while i < n
        invariant
            i <= n,
            r@.len() == i,
            all_plain(r@),
        decreases n - i,
    {
        r.push(Type::Plain);
        i += 1;
    }
    r
}

} // verus!
