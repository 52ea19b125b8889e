//! Hex rendering of 8-bit sRGB colors: `#rrggbb` with lowercase digits.
use vstd::prelude::*;

use crate::lab::Rgb8;

verus! {

/// The lowercase hex digit of a value below 16.
pub open spec fn hex_digit_s(d: int) -> char {
    if d == 0 {
        '0'
    } else if d == 1 {
        '1'
    } else if d == 2 {
        '2'
    } else if d == 3 {
        '3'
    } else if d == 4 {
        '4'
    } else if d == 5 {
        '5'
    } else if d == 6 {
        '6'
    } else if d == 7 {
        '7'
    } else if d == 8 {
        '8'
    } else if d == 9 {
        '9'
    } else if d == 10 {
        'a'
    } else if d == 11 {
        'b'
    } else if d == 12 {
        'c'
    } else if d == 13 {
        'd'
    } else if d == 14 {
        'e'
    } else {
        'f'
    }
}

/// The `#rrggbb` character sequence of a color.
pub open spec fn hex_seq_s(c: Rgb8) -> Seq<char> {
    seq![
        '#',
        hex_digit_s(c.r as int / 16),
        hex_digit_s(c.r as int % 16),
        hex_digit_s(c.g as int / 16),
        hex_digit_s(c.g as int % 16),
        hex_digit_s(c.b as int / 16),
        hex_digit_s(c.b as int % 16),
    ]
}

fn hex_digit_str(d: u8) -> (r: &'static str)
    requires
        d < 16,
    ensures
        r@ =~= seq![hex_digit_s(d as int)],
{
    if d == 0 {
        proof {
            reveal_strlit("0");
        }
        "0"
    } else if d == 1 {
        proof {
            reveal_strlit("1");
        }
        "1"
    } else if d == 2 {
        proof {
            reveal_strlit("2");
        }
        "2"
    } else if d == 3 {
        proof {
            reveal_strlit("3");
        }
        "3"
    } else if d == 4 {
        proof {
            reveal_strlit("4");
        }
        "4"
    } else if d == 5 {
        proof {
            reveal_strlit("5");
        }
        "5"
    } else if d == 6 {
        proof {
            reveal_strlit("6");
        }
        "6"
    } else if d == 7 {
        proof {
            reveal_strlit("7");
        }
        "7"
    } else if d == 8 {
        proof {
            reveal_strlit("8");
        }
        "8"
    } else if d == 9 {
        proof {
            reveal_strlit("9");
        }
        "9"
    } else if d == 10 {
        proof {
            reveal_strlit("a");
        }
        "a"
    } else if d == 11 {
        proof {
            reveal_strlit("b");
        }
        "b"
    } else if d == 12 {
        proof {
            reveal_strlit("c");
        }
        "c"
    } else if d == 13 {
        proof {
            reveal_strlit("d");
        }
        "d"
    } else if d == 14 {
        proof {
            reveal_strlit("e");
        }
        "e"
    } else {
        proof {
            reveal_strlit("f");
        }
        "f"
    }
}

/// Render a color as `#rrggbb`.
pub fn rgb_to_hex(c: Rgb8) -> (s: String)
    ensures
        s@ == hex_seq_s(c),
{
    let mut s = String::new();
    proof {
        reveal_strlit("#");
    }
    s.append("#");
    s.append(hex_digit_str(c.r / 16));
    s.append(hex_digit_str(c.r % 16));
    s.append(hex_digit_str(c.g / 16));
    s.append(hex_digit_str(c.g % 16));
    s.append(hex_digit_str(c.b / 16));
    s.append(hex_digit_str(c.b % 16));
    proof {
        assert(s@ =~= hex_seq_s(c));
    }
    s
}

} // verus!
