//! Hexadecimal and decimal digit characters: their numeric values and the
//! uppercase textual form of a nibble.

use vstd::prelude::*;
use vstd::string::StringExecFns;

verus! {

/// Numeric value of a hexadecimal digit character, or 16 for any other
/// character (so `hex_val(c) < 16` exactly characterizes hex digits).
pub open spec fn hex_val(c: char) -> int {
    if c == '0' {
        0
    } else if c == '1' {
        1
    } else if c == '2' {
        2
    } else if c == '3' {
        3
    } else if c == '4' {
        4
    } else if c == '5' {
        5
    } else if c == '6' {
        6
    } else if c == '7' {
        7
    } else if c == '8' {
        8
    } else if c == '9' {
        9
    } else if c == 'a' || c == 'A' {
        10
    } else if c == 'b' || c == 'B' {
        11
    } else if c == 'c' || c == 'C' {
        12
    } else if c == 'd' || c == 'D' {
        13
    } else if c == 'e' || c == 'E' {
        14
    } else if c == 'f' || c == 'F' {
        15
    } else {
        16
    }
}

/// True when `c` is an ASCII hexadecimal digit, either letter case.
pub open spec fn is_hex_digit(c: char) -> bool {
    hex_val(c) < 16
}

/// Numeric value of a decimal digit character, or 10 for any other character.
pub open spec fn dec_val(c: char) -> int {
    if c == '0' {
        0
    } else if c == '1' {
        1
    } else if c == '2' {
        2
    } else if c == '3' {
        3
    } else if c == '4' {
        4
    } else if c == '5' {
        5
    } else if c == '6' {
        6
    } else if c == '7' {
        7
    } else if c == '8' {
        8
    } else if c == '9' {
        9
    } else {
        10
    }
}

/// True when `c` is an ASCII decimal digit.
pub open spec fn is_dec_digit(c: char) -> bool {
    dec_val(c) < 10
}

/// The uppercase hexadecimal digit character for a nibble value 0..=15
/// (any other value maps to '0'; callers only use 0..=15).
pub open spec fn hex_upper(n: int) -> char {
    if n == 0 {
        '0'
    } else if n == 1 {
        '1'
    } else if n == 2 {
        '2'
    } else if n == 3 {
        '3'
    } else if n == 4 {
        '4'
    } else if n == 5 {
        '5'
    } else if n == 6 {
        '6'
    } else if n == 7 {
        '7'
    } else if n == 8 {
        '8'
    } else if n == 9 {
        '9'
    } else if n == 10 {
        'A'
    } else if n == 11 {
        'B'
    } else if n == 12 {
        'C'
    } else if n == 13 {
        'D'
    } else if n == 14 {
        'E'
    } else if n == 15 {
        'F'
    } else {
        '0'
    }
}

/// A hexadecimal digit character with lowercase letters mapped to uppercase;
/// every other character is left unchanged.
pub open spec fn upper_hex_digit(c: char) -> char {
    if c == 'a' {
        'A'
    } else if c == 'b' {
        'B'
    } else if c == 'c' {
        'C'
    } else if c == 'd' {
        'D'
    } else if c == 'e' {
        'E'
    } else if c == 'f' {
        'F'
    } else {
        c
    }
}

/// Formatting the value of a hexadecimal digit recovers that digit in
/// uppercase.
pub proof fn lemma_hex_digit_roundtrip(c: char)
    requires
        is_hex_digit(c),
    ensures
        hex_upper(hex_val(c)) == upper_hex_digit(c),
{
}

pub fn hex_digit_val(c: char) -> (r: u8)
    ensures
        r as int == hex_val(c),
{
    match c {
        '0' => 0,
        '1' => 1,
        '2' => 2,
        '3' => 3,
        '4' => 4,
        '5' => 5,
        '6' => 6,
        '7' => 7,
        '8' => 8,
        '9' => 9,
        'a' | 'A' => 10,
        'b' | 'B' => 11,
        'c' | 'C' => 12,
        'd' | 'D' => 13,
        'e' | 'E' => 14,
        'f' | 'F' => 15,
        _ => 16,
    }
}

pub fn dec_digit_val(c: char) -> (r: u8)
    ensures
        r as int == dec_val(c),
{
    match c {
        '0' => 0,
        '1' => 1,
        '2' => 2,
        '3' => 3,
        '4' => 4,
        '5' => 5,
        '6' => 6,
        '7' => 7,
        '8' => 8,
        '9' => 9,
        _ => 10,
    }
}

/// Appends the uppercase hexadecimal digit for a nibble value to `out`.
pub fn append_hex_digit(out: &mut String, nibble: u8)
    requires
        nibble < 16,
    ensures
        final(out)@ == old(out)@ + seq![hex_upper(nibble as int)],
{
    if nibble == 0 {
        proof {
            reveal_strlit("0");
            assert("0"@ =~= seq![hex_upper(0)]);
        }
        out.append("0");
    } else if nibble == 1 {
        proof {
            reveal_strlit("1");
            assert("1"@ =~= seq![hex_upper(1)]);
        }
        out.append("1");
    } else if nibble == 2 {
        proof {
            reveal_strlit("2");
            assert("2"@ =~= seq![hex_upper(2)]);
        }
        out.append("2");
    } else if nibble == 3 {
        proof {
            reveal_strlit("3");
            assert("3"@ =~= seq![hex_upper(3)]);
        }
        out.append("3");
    } else if nibble == 4 {
        proof {
            reveal_strlit("4");
            assert("4"@ =~= seq![hex_upper(4)]);
        }
        out.append("4");
    } else if nibble == 5 {
        proof {
            reveal_strlit("5");
            assert("5"@ =~= seq![hex_upper(5)]);
        }
        out.append("5");
    } else if nibble == 6 {
        proof {
            reveal_strlit("6");
            assert("6"@ =~= seq![hex_upper(6)]);
        }
        out.append("6");
    } else if nibble == 7 {
        proof {
            reveal_strlit("7");
            assert("7"@ =~= seq![hex_upper(7)]);
        }
        out.append("7");
    } else if nibble == 8 {
        proof {
            reveal_strlit("8");
            assert("8"@ =~= seq![hex_upper(8)]);
        }
        out.append("8");
    } else if nibble == 9 {
        proof {
            reveal_strlit("9");
            assert("9"@ =~= seq![hex_upper(9)]);
        }
        out.append("9");
    } else if nibble == 10 {
        proof {
            reveal_strlit("A");
            assert("A"@ =~= seq![hex_upper(10)]);
        }
        out.append("A");
    } else if nibble == 11 {
        proof {
            reveal_strlit("B");
            assert("B"@ =~= seq![hex_upper(11)]);
        }
        out.append("B");
    } else if nibble == 12 {
        proof {
            reveal_strlit("C");
            assert("C"@ =~= seq![hex_upper(12)]);
        }
        out.append("C");
    } else if nibble == 13 {
        proof {
            reveal_strlit("D");
            assert("D"@ =~= seq![hex_upper(13)]);
        }
        out.append("D");
    } else if nibble == 14 {
        proof {
            reveal_strlit("E");
            assert("E"@ =~= seq![hex_upper(14)]);
        }
        out.append("E");
    } else {
        proof {
            reveal_strlit("F");
            assert("F"@ =~= seq![hex_upper(15)]);
        }
        out.append("F");
    }
}

} // verus!
