//! Small helpers for building and reading the ASCII text forms used by the
//! library: hexadecimal and decimal digits and the few punctuation marks of
//! snapshot names, ids and schedule strings.

use vstd::prelude::*;

verus! {

/// The lowercase hexadecimal digit for a value below sixteen.
pub open spec fn hex_char(d: int) -> char {
    if d == 0 {
        '0'
    } else if d == 1 {
        '1'
    } else if d == 2 {
        '2'
    } else if d == 3 {
        '3'
    } else if d == 4 {
        '4'
    } else if d == 5 {
        '5'
    } else if d == 6 {
        '6'
    } else if d == 7 {
        '7'
    } else if d == 8 {
        '8'
    } else if d == 9 {
        '9'
    } else if d == 10 {
        'a'
    } else if d == 11 {
        'b'
    } else if d == 12 {
        'c'
    } else if d == 13 {
        'd'
    } else if d == 14 {
        'e'
    } else {
        'f'
    }
}

/// The value of a lowercase hexadecimal digit, or 16 for any other character.
pub open spec fn hex_val(c: char) -> int {
    if c == '0' {
        0
    } else if c == '1' {
        1
    } else if c == '2' {
        2
    } else if c == '3' {
        3
    } else if c == '4' {
        4
    } else if c == '5' {
        5
    } else if c == '6' {
        6
    } else if c == '7' {
        7
    } else if c == '8' {
        8
    } else if c == '9' {
        9
    } else if c == 'a' {
        10
    } else if c == 'b' {
        11
    } else if c == 'c' {
        12
    } else if c == 'd' {
        13
    } else if c == 'e' {
        14
    } else if c == 'f' {
        15
    } else {
        16
    }
}

/// The value of a decimal digit, or 10 for any other character.
pub open spec fn digit_val(c: char) -> int {
    if hex_val(c) < 10 {
        hex_val(c)
    } else {
        10
    }
}

pub proof fn lemma_hex_char_val(d: int)
    requires
        0 <= d < 16,
    ensures
        hex_val(hex_char(d)) == d,
{
}

/// Appends the lowercase hexadecimal digit for `d` to `s`.
pub fn push_hex_char(s: &mut String, d: u8)
    requires
        d < 16,
    ensures
        final(s)@ == old(s)@.push(hex_char(d as int)),
{
    match d {
        0 => {
            s.append("0");
            proof { reveal_strlit("0"); }
        },
        1 => {
            s.append("1");
            proof { reveal_strlit("1"); }
        },
        2 => {
            s.append("2");
            proof { reveal_strlit("2"); }
        },
        3 => {
            s.append("3");
            proof { reveal_strlit("3"); }
        },
        4 => {
            s.append("4");
            proof { reveal_strlit("4"); }
        },
        5 => {
            s.append("5");
            proof { reveal_strlit("5"); }
        },
        6 => {
            s.append("6");
            proof { reveal_strlit("6"); }
        },
        7 => {
            s.append("7");
            proof { reveal_strlit("7"); }
        },
        8 => {
            s.append("8");
            proof { reveal_strlit("8"); }
        },
        9 => {
            s.append("9");
            proof { reveal_strlit("9"); }
        },
        10 => {
            s.append("a");
            proof { reveal_strlit("a"); }
        },
        11 => {
            s.append("b");
            proof { reveal_strlit("b"); }
        },
        12 => {
            s.append("c");
            proof { reveal_strlit("c"); }
        },
        13 => {
            s.append("d");
            proof { reveal_strlit("d"); }
        },
        14 => {
            s.append("e");
            proof { reveal_strlit("e"); }
        },
        _ => {
            s.append("f");
            proof { reveal_strlit("f"); }
        },
    }
    proof {
        assert(s@ =~= old(s)@.push(hex_char(d as int)));
    }
}

/// Appends a single hyphen to `s`.
pub fn push_dash(s: &mut String)
    ensures
        final(s)@ == old(s)@.push('-'),
{
    s.append("-");
    proof {
        reveal_strlit("-");
        assert(s@ =~= old(s)@.push('-'));
    }
}

} // verus!

verus! {

/// Appends a path separator to `s`.
pub fn push_dash_like_slash(s: &mut String)
    ensures
        final(s)@ == old(s)@.push('/'),
{
    s.append("/");
    proof {
        reveal_strlit("/");
        assert(s@ =~= old(s)@.push('/'));
    }
}

} // verus!
