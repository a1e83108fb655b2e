//! Small text helpers: decimal rendering, console colouring, and the
//! visible form of hierarchical deck names.

use vstd::prelude::*;
use vstd::string::StrSliceExecFns;
use vstd::string::StringExecFns;

verus! {

/// Relies on `String::push`: appends the given char to the end of the string.
pub assume_specification[ String::push ](s: &mut String, ch: char)
    ensures
        final(s)@ == old(s)@.push(ch),
;

/// The deck hierarchy delimiter stored inside deck names.
pub open spec fn deck_delimiter() -> char {
    '\u{001F}'
}

/// What one stored character contributes to the human-readable deck name.
pub open spec fn display_piece(c: char) -> Seq<char> {
    if c == deck_delimiter() {
        seq![':', ':']
    } else {
        seq![c]
    }
}

/// The human-readable form of a stored deck name: every hierarchy
/// delimiter becomes a visible `::`.
pub open spec fn display_form(s: Seq<char>) -> Seq<char>
    decreases s.len(),
{
    if s.len() == 0 {
        Seq::empty()
    } else {
        display_form(s.drop_last()) + display_piece(s.last())
    }
}

/// Renders a stored deck name for the operator, with the hierarchy
/// delimiter shown as `::`.
pub fn replace_deck_delimiter(deck_name: &str) -> (r: String)
    ensures
        r@ == display_form(deck_name@),
{
    let n = deck_name.unicode_len();
    let mut out = String::new();
    let mut i: usize = 0;
    while i < n
        invariant
            i <= n,
            n == deck_name@.len(),
            out@ == display_form(deck_name@.subrange(0, i as int)),
        decreases n - i,
    {
        let c = deck_name.get_char(i);
        if c == '\u{001F}' {
            out.push(':');
            out.push(':');
        } else {
            out.push(c);
        }
        proof {
            let pre = deck_name@.subrange(0, i as int);
            let cur = deck_name@.subrange(0, i + 1 as int);
            assert(cur.drop_last() =~= pre);
            assert(cur.last() == deck_name@[i as int]);
            assert(out@ =~= display_form(pre) + display_piece(deck_name@[i as int]));
        }
        i = i + 1;
    }
    proof {
        assert(deck_name@.subrange(0, n as int) =~= deck_name@);
    }
    out
}

/// Wraps the text in the ANSI escape codes for red.
pub fn red_text(text: &str) -> (r: String)
    ensures
        r@ == "\x1b[31m"@ + text@ + "\x1b[0m"@,
{
    let mut s = String::from_str("\x1b[31m");
    s.append(text);
    s.append("\x1b[0m");
    s
}

/// Wraps the text in the ANSI escape codes for green.
pub fn green_text(text: &str) -> (r: String)
    ensures
        r@ == "\x1b[32m"@ + text@ + "\x1b[0m"@,
{
    let mut s = String::from_str("\x1b[32m");
    s.append(text);
    s.append("\x1b[0m");
    s
}

/// The character for one decimal digit value.
pub open spec fn digit_char(v: int) -> char {
    if v == 0 {
        '0'
    } else if v == 1 {
        '1'
    } else if v == 2 {
        '2'
    } else if v == 3 {
        '3'
    } else if v == 4 {
        '4'
    } else if v == 5 {
        '5'
    } else if v == 6 {
        '6'
    } else if v == 7 {
        '7'
    } else if v == 8 {
        '8'
    } else {
        '9'
    }
}

/// The decimal digits of a non-negative number, most significant first.
pub open spec fn dec_digits(n: int) -> Seq<char>
    decreases n,
{
    if n < 10 {
        seq![digit_char(n)]
    } else {
        dec_digits(n / 10) + seq![digit_char(n % 10)]
    }
}

/// The decimal rendering of an integer, with a leading `-` when negative.
pub open spec fn int_dec(n: int) -> Seq<char> {
    if n < 0 {
        seq!['-'] + dec_digits(-n)
    } else {
        dec_digits(n)
    }
}

pub fn digit_char_exec(v: u8) -> (r: char)
    requires
        v < 10,
    ensures
        r == digit_char(v as int),
{
    match v {
        0 => '0',
        1 => '1',
        2 => '2',
        3 => '3',
        4 => '4',
        5 => '5',
        6 => '6',
        7 => '7',
        8 => '8',
        _ => '9',
    }
}

/// A two-digit zero-padded decimal rendering.
pub open spec fn pad2(v: int) -> Seq<char> {
    seq![digit_char(v / 10), digit_char(v % 10)]
}

/// A four-digit zero-padded decimal rendering.
pub open spec fn pad4(v: int) -> Seq<char> {
    seq![
        digit_char(v / 1000),
        digit_char((v / 100) % 10),
        digit_char((v / 10) % 10),
        digit_char(v % 10),
    ]
}

/// Appends the two-digit zero-padded form of `v` to the string.
pub fn push_pad2(s: &mut String, v: u8)
    requires
        v < 100,
    ensures
        final(s)@ == old(s)@ + pad2(v as int),
{
    s.push(digit_char_exec(v / 10));
    s.push(digit_char_exec(v % 10));
    proof {
        assert(s@ =~= old(s)@ + pad2(v as int));
    }
}

/// Appends the four-digit zero-padded form of `v` to the string.
pub fn push_pad4(s: &mut String, v: u16)
    requires
        v < 10000,
    ensures
        final(s)@ == old(s)@ + pad4(v as int),
{
    s.push(digit_char_exec((v / 1000) as u8));
    s.push(digit_char_exec(((v / 100) % 10) as u8));
    s.push(digit_char_exec(((v / 10) % 10) as u8));
    s.push(digit_char_exec((v % 10) as u8));
    proof {
        assert(s@ =~= old(s)@ + pad4(v as int));
    }
}

/// Appends the decimal digits of `n` to the string.
pub fn push_u64_dec(s: &mut String, n: u64)
    ensures
        final(s)@ == old(s)@ + dec_digits(n as int),
    decreases n,
{
    if n < 10 {
        s.push(digit_char_exec(n as u8));
    } else {
        push_u64_dec(s, n / 10);
        s.push(digit_char_exec((n % 10) as u8));
    }
}

/// Appends the decimal rendering of `n`, sign included, to the string.
pub fn push_i64_dec(s: &mut String, n: i64)
    requires
        n > i64::MIN,
    ensures
        final(s)@ == old(s)@ + int_dec(n as int),
{
    if n < 0 {
        s.push('-');
        push_u64_dec(s, (-n) as u64);
    } else {
        push_u64_dec(s, n as u64);
    }
}

} // verus!
