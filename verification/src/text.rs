//! Decimal rendering of unsigned integers, with exact character-sequence
//! specifications.  Everything that prints a number (timecodes, cut-list
//! events, version strings) goes through these functions.
use vstd::prelude::*;

verus! {

/// The character for a single decimal digit.
pub open spec fn dec_digit(d: nat) -> char {
    if d == 0 {
        '0'
    } else if d == 1 {
        '1'
    } else if d == 2 {
        '2'
    } else if d == 3 {
        '3'
    } else if d == 4 {
        '4'
    } else if d == 5 {
        '5'
    } else if d == 6 {
        '6'
    } else if d == 7 {
        '7'
    } else if d == 8 {
        '8'
    } else {
        '9'
    }
}

/// The decimal representation of `n`, most significant digit first,
/// without leading zeros (except for `n == 0` itself).
pub open spec fn dec_str(n: nat) -> Seq<char>
    decreases n,
{
    if n < 10 {
        seq![dec_digit(n)]
    } else {
        dec_str(n / 10) + seq![dec_digit(n % 10)]
    }
}

/// `dec_str(n)` zero-padded on the left to at least two characters.
pub open spec fn pad2_str(n: nat) -> Seq<char> {
    if n < 10 {
        seq!['0'] + dec_str(n)
    } else {
        dec_str(n)
    }
}

/// `dec_str(n)` zero-padded on the left to at least four characters.
pub open spec fn pad4_str(n: nat) -> Seq<char> {
    if n < 10 {
        seq!['0', '0', '0'] + dec_str(n)
    } else if n < 100 {
        seq!['0', '0'] + dec_str(n)
    } else if n < 1000 {
        seq!['0'] + dec_str(n)
    } else {
        dec_str(n)
    }
}

/// Appends the character of the decimal digit `d` to `s`.
pub fn append_digit(s: &mut String, d: u64)
    requires
        d < 10,
    ensures
        final(s)@ == old(s)@ + seq![dec_digit(d as nat)],
{
    if d == 0 {
        proof {
            reveal_strlit("0");
        }
        s.append("0");
    } else if d == 1 {
        proof {
            reveal_strlit("1");
        }
        s.append("1");
    } else if d == 2 {
        proof {
            reveal_strlit("2");
        }
        s.append("2");
    } else if d == 3 {
        proof {
            reveal_strlit("3");
        }
        s.append("3");
    } else if d == 4 {
        proof {
            reveal_strlit("4");
        }
        s.append("4");
    } else if d == 5 {
        proof {
            reveal_strlit("5");
        }
        s.append("5");
    } else if d == 6 {
        proof {
            reveal_strlit("6");
        }
        s.append("6");
    } else if d == 7 {
        proof {
            reveal_strlit("7");
        }
        s.append("7");
    } else if d == 8 {
        proof {
            reveal_strlit("8");
        }
        s.append("8");
    } else {
        proof {
            reveal_strlit("9");
        }
        s.append("9");
    }
    proof {
        assert(final(s)@ =~= old(s)@ + seq![dec_digit(d as nat)]);
    }
}

/// Appends the decimal representation of `n` to `s`.
pub fn append_decimal(s: &mut String, n: u64)
    ensures
        final(s)@ == old(s)@ + dec_str(n as nat),
    decreases n,
{
    if n < 10 {
        append_digit(s, n);
    } else {
        append_decimal(s, n / 10);
        append_digit(s, n % 10);
        proof {
            assert(final(s)@ =~= old(s)@ + dec_str(n as nat));
        }
    }
}

/// The decimal representation of `n` as a fresh string.
pub fn u64_to_string(n: u64) -> (r: String)
    ensures
        r@ == dec_str(n as nat),
{
    let mut s = String::new();
    append_decimal(&mut s, n);
    proof {
        assert(s@ =~= dec_str(n as nat));
    }
    s
}

/// Appends `n`, zero-padded to at least two digits, to `s`.
pub fn append_pad2(s: &mut String, n: u64)
    ensures
        final(s)@ == old(s)@ + pad2_str(n as nat),
{
    if n < 10 {
        append_digit(s, 0);
        append_digit(s, n);
        proof {
            assert(final(s)@ =~= old(s)@ + pad2_str(n as nat));
        }
    } else {
        append_decimal(s, n);
    }
}

/// Appends `n`, zero-padded to at least four digits, to `s`.
pub fn append_pad4(s: &mut String, n: u64)
    ensures
        final(s)@ == old(s)@ + pad4_str(n as nat),
{
    if n < 10 {
        append_digit(s, 0);
        append_digit(s, 0);
        append_digit(s, 0);
        append_digit(s, n);
    } else if n < 100 {
        append_digit(s, 0);
        append_digit(s, 0);
        append_decimal(s, n);
    } else if n < 1000 {
        append_digit(s, 0);
        append_decimal(s, n);
    } else {
        append_decimal(s, n);
    }
    proof {
        assert(final(s)@ =~= old(s)@ + pad4_str(n as nat));
    }
}

} // verus!
