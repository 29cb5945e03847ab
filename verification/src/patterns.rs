//! Small classifications of bytes and characters.
use vstd::prelude::*;

verus! {

/// 1 for the odd numbers below six, 2 for the even ones, 3 for every other byte.
pub open spec fn small_parity(v: u8) -> u8 {
    if v == 1 || v == 3 || v == 5 {
        1
    } else if v == 0 || v == 2 || v == 4 {
        2
    } else {
        3
    }
}

/// 1 below a hundred, 2 from there below two hundred, 3 above.
pub open spec fn hundreds(v: u8) -> u8 {
    if v < 100 {
        1
    } else if v < 200 {
        2
    } else {
        3
    }
}

/// The letter `v` in lower case, if `v` is a letter of the English alphabet.
pub open spec fn english_letter(v: char) -> Option<char> {
    if 'a' <= v <= 'z' {
        Some(v)
    } else if 'A' <= v <= 'Z' {
        Some(((v as u32) + 32) as char)
    } else {
        None
    }
}

/// 1 for the letters `a` to `n`, 2 for `o` to `z`, in either case; 3 for
/// what is no letter of the English alphabet.
pub open spec fn alphabet_half(v: char) -> u8 {
    match english_letter(v) {
        Some(l) => if l <= 'n' {
            1
        } else {
            2
        },
        None => 3,
    }
}

/// The number that the decimal digit `v` stands for.
pub open spec fn digit_of(v: char) -> Option<u32> {
    if '0' <= v <= '9' {
        Some((v as u32 - '0' as u32) as u32)
    } else {
        None
    }
}

/// Tells the small odd numbers, the small even numbers and the rest apart.
pub fn exercise_1(v: u8) -> (r: u8)
    ensures
        r == small_parity(v),
{
    match v {
        1 | 3 | 5 => 1,
        0 | 2 | 4 => 2,
        _ => 3,
    }
}

/// Tells in which hundred a byte lies.
pub fn exercise_2(v: u8) -> (r: u8)
    ensures
        r == hundreds(v),
{
    if v < 100 {
        1
    } else if v < 200 {
        2
    } else {
        3
    }
}

/// Tells in which half of the English alphabet a character lies.
pub fn exercise_3(v: char) -> (r: u8)
    ensures
        r == alphabet_half(v),
{
    let u: u32 = v as u32;
    if (97 <= u && u <= 110) || (65 <= u && u <= 78) {
        1
    } else if (111 <= u && u <= 122) || (79 <= u && u <= 90) {
        2
    } else {
        3
    }
}

/// Whether a character is a decimal digit.
pub fn exercise_4(v: char) -> (r: bool)
    ensures
        r == digit_of(v).is_some(),
{
    let u: u32 = v as u32;
    48 <= u && u <= 57
}

/// The number that a decimal digit stands for.
pub fn exercise_5(v: char) -> (r: Option<u32>)
    ensures
        r == digit_of(v),
{
    let u: u32 = v as u32;
    if 48 <= u && u <= 57 {
        Some(u - 48)
    } else {
        None
    }
}

} // verus!
