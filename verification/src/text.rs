use vstd::prelude::*;
use vstd::string::StringExecFns;

verus! {

/// The character that writes a single digit, decimal or hexadecimal
/// (lower case).
pub open spec fn digit_char(d: nat) -> char {
    if d == 0 {
        '0'
    } else if d == 1 {
        '1'
    } else if d == 2 {
        '2'
    } else if d == 3 {
        '3'
    } else if d == 4 {
        '4'
    } else if d == 5 {
        '5'
    } else if d == 6 {
        '6'
    } else if d == 7 {
        '7'
    } else if d == 8 {
        '8'
    } else if d == 9 {
        '9'
    } else if d == 10 {
        'a'
    } else if d == 11 {
        'b'
    } else if d == 12 {
        'c'
    } else if d == 13 {
        'd'
    } else if d == 14 {
        'e'
    } else {
        'f'
    }
}

/// The decimal digits of a number, most significant first, no leading zeros
/// (a single '0' for zero).
pub open spec fn dec_rep(n: nat) -> Seq<char>
    decreases n,
{
    if n <= 9 {
        seq![digit_char(n)]
    } else {
        dec_rep(n / 10).push(digit_char(n % 10))
    }
}

/// The hexadecimal digits of a number, most significant first, no leading
/// zeros (a single '0' for zero), lower case.
pub open spec fn hex_rep(n: nat) -> Seq<char>
    decreases n,
{
    if n <= 15 {
        seq![digit_char(n)]
    } else {
        hex_rep(n / 16).push(digit_char(n % 16))
    }
}

/// A `0x`-prefixed hexadecimal field of at least two digits.
pub open spec fn hex_field(n: nat) -> Seq<char> {
    "0x"@ + (if n <= 15 {
        seq!['0']
    } else {
        Seq::<char>::empty()
    }) + hex_rep(n)
}

/// Append the one character that writes the digit `d`.
fn append_digit(out: &mut String, d: u64)
    requires
        d < 16,
    ensures
        final(out)@ == old(out)@ + seq![digit_char(d as nat)],
{
    if d == 0 {
        out.append("0");
        proof {
            reveal_strlit("0");
            assert("0"@ =~= seq![digit_char(d as nat)]);
        }
    } else if d == 1 {
        out.append("1");
        proof {
            reveal_strlit("1");
            assert("1"@ =~= seq![digit_char(d as nat)]);
        }
    } else if d == 2 {
        out.append("2");
        proof {
            reveal_strlit("2");
            assert("2"@ =~= seq![digit_char(d as nat)]);
        }
    } else if d == 3 {
        out.append("3");
        proof {
            reveal_strlit("3");
            assert("3"@ =~= seq![digit_char(d as nat)]);
        }
    } else if d == 4 {
        out.append("4");
        proof {
            reveal_strlit("4");
            assert("4"@ =~= seq![digit_char(d as nat)]);
        }
    } else if d == 5 {
        out.append("5");
        proof {
            reveal_strlit("5");
            assert("5"@ =~= seq![digit_char(d as nat)]);
        }
    } else if d == 6 {
        out.append("6");
        proof {
            reveal_strlit("6");
            assert("6"@ =~= seq![digit_char(d as nat)]);
        }
    } else if d == 7 {
        out.append("7");
        proof {
            reveal_strlit("7");
            assert("7"@ =~= seq![digit_char(d as nat)]);
        }
    } else if d == 8 {
        out.append("8");
        proof {
            reveal_strlit("8");
            assert("8"@ =~= seq![digit_char(d as nat)]);
        }
    } else if d == 9 {
        out.append("9");
        proof {
            reveal_strlit("9");
            assert("9"@ =~= seq![digit_char(d as nat)]);
        }
    } else if d == 10 {
        out.append("a");
        proof {
            reveal_strlit("a");
            assert("a"@ =~= seq![digit_char(d as nat)]);
        }
    } else if d == 11 {
        out.append("b");
        proof {
            reveal_strlit("b");
            assert("b"@ =~= seq![digit_char(d as nat)]);
        }
    } else if d == 12 {
        out.append("c");
        proof {
            reveal_strlit("c");
            assert("c"@ =~= seq![digit_char(d as nat)]);
        }
    } else if d == 13 {
        out.append("d");
        proof {
            reveal_strlit("d");
            assert("d"@ =~= seq![digit_char(d as nat)]);
        }
    } else if d == 14 {
        out.append("e");
        proof {
            reveal_strlit("e");
            assert("e"@ =~= seq![digit_char(d as nat)]);
        }
    } else {
        out.append("f");
        proof {
            reveal_strlit("f");
            assert("f"@ =~= seq![digit_char(d as nat)]);
        }
    }
}

/// Append the decimal digits of `n`.
pub fn append_dec(out: &mut String, n: u64)
    ensures
        final(out)@ == old(out)@ + dec_rep(n as nat),
    decreases n,
{
    if n >= 10 {
        append_dec(out, n / 10);
        append_digit(out, n % 10);
        proof {
            assert((old(out)@ + dec_rep((n / 10) as nat)) + seq![digit_char((n % 10) as nat)]
                =~= old(out)@ + dec_rep(n as nat));
        }
    } else {
        append_digit(out, n);
        proof {
            assert(old(out)@ + seq![digit_char(n as nat)] =~= old(out)@ + dec_rep(n as nat));
        }
    }
}

/// Append the hexadecimal digits of `n`, without prefix or padding.
fn append_hex(out: &mut String, n: u64)
    ensures
        final(out)@ == old(out)@ + hex_rep(n as nat),
    decreases n,
{
    if n >= 16 {
        append_hex(out, n / 16);
        append_digit(out, n % 16);
        proof {
            assert((old(out)@ + hex_rep((n / 16) as nat)) + seq![digit_char((n % 16) as nat)]
                =~= old(out)@ + hex_rep(n as nat));
        }
    } else {
        append_digit(out, n);
        proof {
            assert(old(out)@ + seq![digit_char(n as nat)] =~= old(out)@ + hex_rep(n as nat));
        }
    }
}

/// Append a `0x`-prefixed hexadecimal field of at least two digits, the way
/// identifiers are shown in the device report.
pub fn append_hex_field(out: &mut String, n: u64)
    ensures
        final(out)@ == old(out)@ + hex_field(n as nat),
{
    let ghost entry = out@;
    out.append("0x");
    if n < 16 {
        out.append("0");
        proof {
            reveal_strlit("0");
            assert("0"@ =~= seq!['0']);
        }
    }
    append_hex(out, n);
    proof {
        if n < 16 {
            assert(((entry + "0x"@) + seq!['0']) + hex_rep(n as nat) =~= entry + hex_field(
                n as nat,
            ));
        } else {
            assert((entry + "0x"@) + hex_rep(n as nat) =~= entry + hex_field(n as nat));
        }
    }
}

} // verus!
