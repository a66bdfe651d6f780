//! Building texts: numbers in decimal, runs of one character, and padding
//! to a width counted in characters.

use vstd::prelude::*;
use vstd::string::StrSliceExecFns;
use vstd::string::StringExecFns;

verus! {

/// `String::push` of the standard library: the character is added at the end
/// of the text, and nothing else changes.
pub assume_specification[ String::push ](text: &mut String, ch: char)
    ensures
        final(text)@ == old(text)@.push(ch),
;

/// The character of a decimal digit.
pub open spec fn digit(d: int) -> char
    recommends
        0 <= d < 10,
{
    if d == 0 {
        '0'
    } else if d == 1 {
        '1'
    } else if d == 2 {
        '2'
    } else if d == 3 {
        '3'
    } else if d == 4 {
        '4'
    } else if d == 5 {
        '5'
    } else if d == 6 {
        '6'
    } else if d == 7 {
        '7'
    } else if d == 8 {
        '8'
    } else {
        '9'
    }
}

/// A number in decimal, without leading zeros.
pub open spec fn decimal(n: nat) -> Seq<char>
    decreases n,
{
    if n < 10 {
        seq![digit(n as int)]
    } else {
        decimal(n / 10).push(digit((n % 10) as int))
    }
}

/// A run of `count` times one character.
pub open spec fn run_of(ch: char, count: int) -> Seq<char> {
    Seq::new(
        if count > 0 {
            count as nat
        } else {
            0
        },
        |i: int| ch,
    )
}

/// A text with `fill` added at its end until it is `width` characters long.
/// A text that is as long already stays as it is.
pub open spec fn filled_right(text: Seq<char>, width: int, fill: char) -> Seq<char> {
    text + run_of(fill, width - text.len())
}

/// A text with `fill` added at its front until it is `width` characters
/// long. A text that is as long already stays as it is.
pub open spec fn filled_left(text: Seq<char>, width: int, fill: char) -> Seq<char> {
    run_of(fill, width - text.len()) + text
}

/// The character of a decimal digit.
pub fn digit_char(d: u8) -> (ch: char)
    requires
        d < 10,
    ensures
        ch == digit(d as int),
{
    match d {
        0 => '0',
        1 => '1',
        2 => '2',
        3 => '3',
        4 => '4',
        5 => '5',
        6 => '6',
        7 => '7',
        8 => '8',
        _ => '9',
    }
}

/// Adds a number in decimal at the end of a text.
pub fn push_decimal(text: &mut String, n: u64)
    ensures
        final(text)@ == old(text)@ + decimal(n as nat),
    decreases n,
{
    if n >= 10 {
        push_decimal(text, n / 10);
    }
    text.push(digit_char((n % 10) as u8));
    proof {
        if n >= 10 {
            assert((old(text)@ + decimal((n / 10) as nat)).push(digit((n % 10) as int)) =~= old(
                text,
            )@ + decimal(n as nat));
        } else {
            assert(old(text)@.push(digit(n as int)) =~= old(text)@ + decimal(n as nat));
        }
    }
}

/// Adds a run of `count` times one character at the end of a text.
pub fn push_run(text: &mut String, ch: char, count: usize)
    ensures
        final(text)@ == old(text)@ + run_of(ch, count as int),
{
    let mut done: usize = 0;
    assert(text@ =~= old(text)@ + run_of(ch, 0));
    while done < count
        invariant
            done <= count,
            text@ == old(text)@ + run_of(ch, done as int),
        decreases count - done,
    {
        text.push(ch);
        done += 1;
        assert(text@ =~= old(text)@ + run_of(ch, done as int));
    }
}

/// A number in decimal.
pub fn decimal_string(n: u64) -> (text: String)
    ensures
        text@ == decimal(n as nat),
{
    let mut text = String::new();
    push_decimal(&mut text, n);
    assert(Seq::<char>::empty() + decimal(n as nat) =~= decimal(n as nat));
    text
}

/// Adds a text at the end of another, filled at its end up to `width`
/// characters.
pub fn push_filled_right(text: &mut String, part: &str, width: usize, fill: char)
    ensures
        final(text)@ == old(text)@ + filled_right(part@, width as int, fill),
{
    let len = part.unicode_len();
    text.append(part);
    let missing = if len < width {
        width - len
    } else {
        0
    };
    push_run(text, fill, missing);
    assert(run_of(fill, missing as int) =~= run_of(fill, width - part@.len()));
    assert(old(text)@ + part@ + run_of(fill, width - part@.len()) =~= old(text)@ + filled_right(
        part@,
        width as int,
        fill,
    ));
}

/// Adds a text at the end of another, filled at its front up to `width`
/// characters.
pub fn push_filled_left(text: &mut String, part: &str, width: usize, fill: char)
    ensures
        final(text)@ == old(text)@ + filled_left(part@, width as int, fill),
{
    let len = part.unicode_len();
    let missing = if len < width {
        width - len
    } else {
        0
    };
    push_run(text, fill, missing);
    text.append(part);
    assert(run_of(fill, missing as int) =~= run_of(fill, width - part@.len()));
    assert(old(text)@ + run_of(fill, width - part@.len()) + part@ =~= old(text)@ + filled_left(
        part@,
        width as int,
        fill,
    ));
}

} // verus!
