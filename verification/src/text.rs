//! Text columns: decimal numbers, and padding to a fixed width.
//!
//! Everything here appends to a `String` that the caller owns, and says in
//! its contract exactly which characters it appends.

use vstd::prelude::*;
use vstd::string::*;

verus! {

/// The character that shows the digit `d`, for `0 <= d <= 9`.
pub open spec fn digit_char(d: int) -> char {
    seq!['0', '1', '2', '3', '4', '5', '6', '7', '8', '9'][d]
}

/// `n` in decimal, most significant digit first, without leading zeros.
pub open spec fn decimal(n: nat) -> Seq<char>
    decreases n,
{
    if n < 10 {
        seq![digit_char(n as int)]
    } else {
        decimal(n / 10).push(digit_char((n % 10) as int))
    }
}

/// `n` in decimal, with a minus sign in front if it is negative.
pub open spec fn signed_decimal(n: int) -> Seq<char> {
    if n < 0 {
        seq!['-'] + decimal((-n) as nat)
    } else {
        decimal(n as nat)
    }
}

/// `count` times the character `fill`.
pub open spec fn filler(fill: char, count: int) -> Seq<char> {
    Seq::new(
        if count > 0 {
            count as nat
        } else {
            0
        },
        |i: int| fill,
    )
}

/// `text` moved to the right end of a column of `width` characters, the
/// room before it taken by `fill`. A text that is too long is left as it is.
pub open spec fn pad_left(text: Seq<char>, width: int, fill: char) -> Seq<char> {
    filler(fill, width - text.len()) + text
}

/// `text` at the left end of a column of `width` characters, the room after
/// it taken by `fill`. A text that is too long is left as it is.
pub open spec fn pad_right(text: Seq<char>, width: int, fill: char) -> Seq<char> {
    text + filler(fill, width - text.len())
}

/// The one-character text for a decimal digit.
fn digit_str(d: u8) -> (text: &'static str)
    requires
        d < 10,
    ensures
        text@ == seq![digit_char(d as int)],
{
    proof {
        reveal_strlit("0");
        reveal_strlit("1");
        reveal_strlit("2");
        reveal_strlit("3");
        reveal_strlit("4");
        reveal_strlit("5");
        reveal_strlit("6");
        reveal_strlit("7");
        reveal_strlit("8");
        reveal_strlit("9");
    }
    match d {
        0 => "0",
        1 => "1",
        2 => "2",
        3 => "3",
        4 => "4",
        5 => "5",
        6 => "6",
        7 => "7",
        8 => "8",
        _ => "9",
    }
}

/// Appends `n` in decimal.
pub fn push_decimal(out: &mut String, n: u64)
    ensures
        final(out)@ == old(out)@ + decimal(n as nat),
    decreases n,
{
    if n >= 10 {
        push_decimal(out, n / 10);
    }
    out.append(digit_str((n % 10) as u8));
}

/// Appends `n` in decimal, with a minus sign in front if it is negative.
pub fn push_signed_decimal(out: &mut String, n: i64)
    ensures
        final(out)@ == old(out)@ + signed_decimal(n as int),
{
    if n < 0 {
        proof {
            reveal_strlit("-");
        }
        out.append("-");
        let magnitude: u64 = if n == i64::MIN {
            9223372036854775808u64
        } else {
            (-n) as u64
        };
        push_decimal(out, magnitude);
    } else {
        push_decimal(out, n as u64);
    }
}

/// Appends `count` times the single character of `fill`.
fn push_filler(out: &mut String, fill: &str, count: usize)
    requires
        fill@.len() == 1,
    ensures
        final(out)@ == old(out)@ + filler(fill@[0], count as int),
{
    let mut done: usize = 0;
    while done < count
        invariant
            done <= count,
            fill@.len() == 1,
            out@ == old(out)@ + filler(fill@[0], done as int),
        decreases count - done,
    {
        out.append(fill);
        done = done + 1;
    }
}

/// Appends `n` in decimal at the right end of a column of `width`
/// characters, filled up in front with zeros.
pub fn push_zero_padded(out: &mut String, n: u64, width: usize)
    ensures
        final(out)@ == old(out)@ + pad_left(decimal(n as nat), width as int, '0'),
{
    let mut digits = String::new();
    push_decimal(&mut digits, n);
    let len = digits.as_str().unicode_len();
    if len < width {
        proof {
            reveal_strlit("0");
        }
        push_filler(out, "0", width - len);
    }
    out.append(digits.as_str());
}

/// Appends `n` in decimal, signed, at the right end of a column of `width`
/// characters, filled up in front with spaces.
pub fn push_right_aligned(out: &mut String, n: i64, width: usize)
    ensures
        final(out)@ == old(out)@ + pad_left(signed_decimal(n as int), width as int, ' '),
{
    let mut digits = String::new();
    push_signed_decimal(&mut digits, n);
    let len = digits.as_str().unicode_len();
    if len < width {
        proof {
            reveal_strlit(" ");
        }
        push_filler(out, " ", width - len);
    }
    out.append(digits.as_str());
}

/// Appends `text` at the left end of a column of `width` characters, filled
/// up behind with spaces.
pub fn push_left_aligned(out: &mut String, text: &str, width: usize)
    ensures
        final(out)@ == old(out)@ + pad_right(text@, width as int, ' '),
{
    let len = text.unicode_len();
    out.append(text);
    if len < width {
        proof {
            reveal_strlit(" ");
        }
        push_filler(out, " ", width - len);
    }
}

} // verus!
