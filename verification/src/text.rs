//! Conversions between cell values and their textual forms: the decimal line
//! that the print instruction emits, the character that the echo path emits,
//! and the byte value of a character read from the input device.

use vstd::prelude::*;
use vstd::string::StrSliceExecFns;
use vstd::string::StringExecFnsIsAscii;

verus! {

/// The decimal digit character for a value in 0..=9.
pub open spec fn decimal_digit(d: int) -> char {
    if d == 0 {
        '0'
    } else if d == 1 {
        '1'
    } else if d == 2 {
        '2'
    } else if d == 3 {
        '3'
    } else if d == 4 {
        '4'
    } else if d == 5 {
        '5'
    } else if d == 6 {
        '6'
    } else if d == 7 {
        '7'
    } else if d == 8 {
        '8'
    } else {
        '9'
    }
}

/// The decimal text of a byte value, without leading zeros.
pub open spec fn decimal_seq(v: int) -> Seq<char>
    recommends
        0 <= v <= 255,
{
    if v < 10 {
        seq![decimal_digit(v)]
    } else if v < 100 {
        seq![decimal_digit(v / 10), decimal_digit(v % 10)]
    } else {
        seq![decimal_digit(v / 100), decimal_digit((v / 10) % 10), decimal_digit(v % 10)]
    }
}

/// The character a cell value is echoed as: values above 127 are folded down
/// by 128 into the 7-bit range before the conversion.
pub open spec fn fold_char(n: u8) -> char {
    if n > 127 {
        ((n - 128) as u8) as char
    } else {
        n as char
    }
}

/// Relies on `String::push`: appends exactly the one given character.
#[verifier::external_body]
fn push_char(s: &mut String, c: char)
    ensures
        final(s)@ == old(s)@.push(c),
{
    s.push(c);
}

fn digit_to_char(d: u8) -> (c: char)
    requires
        d <= 9,
    ensures
        c == decimal_digit(d as int),
{
    if d == 0 {
        '0'
    } else if d == 1 {
        '1'
    } else if d == 2 {
        '2'
    } else if d == 3 {
        '3'
    } else if d == 4 {
        '4'
    } else if d == 5 {
        '5'
    } else if d == 6 {
        '6'
    } else if d == 7 {
        '7'
    } else if d == 8 {
        '8'
    } else {
        '9'
    }
}

/// The decimal text of a byte value, as a string.
pub fn decimal_string(v: u8) -> (s: String)
    ensures
        s@ == decimal_seq(v as int),
{
    let mut s = String::new();
    if v >= 100 {
        push_char(&mut s, digit_to_char(v / 100));
    }
    if v >= 10 {
        push_char(&mut s, digit_to_char((v / 10) % 10));
    }
    push_char(&mut s, digit_to_char(v % 10));
    proof {
        assert(s@ =~= decimal_seq(v as int));
    }
    s
}

/// The byte value of the first character of an ASCII string: the value that
/// the input-or-echo instruction stores after a character was read.
pub fn string_to_ascii_value(input: String) -> (r: u8)
    requires
        input@.len() > 0,
        input.is_ascii(),
    ensures
        r == input@[0] as u8,
{
    input.as_str().get_ascii(0)
}

/// The one-character line that a cell value is echoed as.  Values above 127
/// are folded down by 128 into the 7-bit range before the conversion.
pub fn get_utf8_from_integer(n: u8) -> (s: String)
    ensures
        s@ == seq![fold_char(n)],
{
    let m: u8 = if n > 127 {
        n - 128
    } else {
        n
    };
    let mut s = String::new();
    push_char(&mut s, m as char);
    proof {
        assert(s@ =~= seq![fold_char(n)]);
    }
    s
}

/// Whether two string slices hold the same characters.
pub fn str_eq_check(a: &str, b: &str) -> (r: bool)
    ensures
        r == (a@ == b@),
{
    let a_len: usize = a.unicode_len();
    let b_len: usize = b.unicode_len();
    if a_len != b_len {
        return false;
    }
    let mut i: usize = 0;
    while i < a_len
        invariant
            a_len == a@.len(),
            b_len == b@.len(),
            a_len == b_len,
            i <= a_len,
            forall|k: int| 0 <= k < i ==> a@[k] == b@[k],
        decreases a_len - i,
    {
        if a.get_char(i) != b.get_char(i) {
            return false;
        }
        i = i + 1;
    }
    proof {
        assert(a@ =~= b@);
    }
    true
}

} // verus!
