//! Opaque identifiers: challenge ids and session ids are 64 random bits
//! written in lower-case hexadecimal without leading zeros.

use crate::entropy::random_u64;
use vstd::prelude::*;

verus! {

/// The character for one hexadecimal digit.
pub open spec fn hex_digit(d: nat) -> char {
    if d == 0 {
        '0'
    } else if d == 1 {
        '1'
    } else if d == 2 {
        '2'
    } else if d == 3 {
        '3'
    } else if d == 4 {
        '4'
    } else if d == 5 {
        '5'
    } else if d == 6 {
        '6'
    } else if d == 7 {
        '7'
    } else if d == 8 {
        '8'
    } else if d == 9 {
        '9'
    } else if d == 10 {
        'a'
    } else if d == 11 {
        'b'
    } else if d == 12 {
        'c'
    } else if d == 13 {
        'd'
    } else if d == 14 {
        'e'
    } else {
        'f'
    }
}

/// The hexadecimal numeral of `n`, most significant digit first.
pub open spec fn hex_digits(n: nat) -> Seq<char>
    decreases n,
{
    if n < 16 {
        seq![hex_digit(n)]
    } else {
        hex_digits(n / 16).push(hex_digit(n % 16))
    }
}

/// A token is the hexadecimal numeral of some 64-bit number.
pub open spec fn is_token(s: Seq<char>) -> bool {
    exists|n: u64| s == hex_digits(n as nat)
}

/// Every numeral has at least one digit.
pub proof fn lemma_hex_digits_nonempty(n: nat)
    ensures
        hex_digits(n).len() >= 1,
    decreases n,
{
    if n >= 16 {
        lemma_hex_digits_nonempty(n / 16);
    }
}

/// Different numbers have different numerals, so two tokens are equal only
/// if they were minted from the same 64 bits.
pub proof fn lemma_hex_digits_injective(a: nat, b: nat)
    requires
        hex_digits(a) == hex_digits(b),
    ensures
        a == b,
    decreases a,
{
    lemma_hex_digits_nonempty(a / 16);
    lemma_hex_digits_nonempty(b / 16);
    if a < 16 && b < 16 {
        assert(seq![hex_digit(a)][0] == seq![hex_digit(b)][0]);
    } else if a >= 16 && b >= 16 {
        let init_a = hex_digits(a / 16);
        let init_b = hex_digits(b / 16);
        let len = init_a.len() as int;
        let whole_a = init_a.push(hex_digit(a % 16));
        let whole_b = init_b.push(hex_digit(b % 16));
        assert(hex_digits(a) == whole_a);
        assert(hex_digits(b) == whole_b);
        assert(init_b.len() == len) by {
            assert(whole_a.len() == len + 1);
            assert(whole_b.len() == init_b.len() + 1);
        }
        assert(hex_digit(a % 16) == hex_digit(b % 16)) by {
            assert(whole_a[len] == whole_b[len]);
        }
        assert(init_a =~= init_b) by {
            assert forall|i: int| 0 <= i < len implies init_a[i] == init_b[i] by {
                assert(whole_a[i] == whole_b[i]);
            }
        }
        lemma_hex_digits_injective(a / 16, b / 16);
    } else {
        // One numeral has a single digit, the other at least two.
        let (small, large) = if a < 16 {
            (a, b)
        } else {
            (b, a)
        };
        assert(hex_digits(small).len() == seq![hex_digit(small)].len());
        assert(hex_digits(large).len() == hex_digits(large / 16).push(
            hex_digit(large % 16),
        ).len());
    }
}

fn digit_str(d: u64) -> (s: &'static str)
    requires
        d < 16,
    ensures
        s@ == seq![hex_digit(d as nat)],
{
    proof {
        reveal_strlit("0");
        reveal_strlit("1");
        reveal_strlit("2");
        reveal_strlit("3");
        reveal_strlit("4");
        reveal_strlit("5");
        reveal_strlit("6");
        reveal_strlit("7");
        reveal_strlit("8");
        reveal_strlit("9");
        reveal_strlit("a");
        reveal_strlit("b");
        reveal_strlit("c");
        reveal_strlit("d");
        reveal_strlit("e");
        reveal_strlit("f");
    }
    let s = if d == 0 {
        "0"
    } else if d == 1 {
        "1"
    } else if d == 2 {
        "2"
    } else if d == 3 {
        "3"
    } else if d == 4 {
        "4"
    } else if d == 5 {
        "5"
    } else if d == 6 {
        "6"
    } else if d == 7 {
        "7"
    } else if d == 8 {
        "8"
    } else if d == 9 {
        "9"
    } else if d == 10 {
        "a"
    } else if d == 11 {
        "b"
    } else if d == 12 {
        "c"
    } else if d == 13 {
        "d"
    } else if d == 14 {
        "e"
    } else {
        "f"
    };
    assert(s@ =~= seq![hex_digit(d as nat)]);
    s
}

/// Writes `n` in lower-case hexadecimal, without prefix or leading zeros.
pub fn to_hex(n: u64) -> (s: String)
    ensures
        s@ == hex_digits(n as nat),
        s@.len() >= 1,
    decreases n,
{
    proof {
        lemma_hex_digits_nonempty(n as nat);
    }
    if n < 16 {
        String::from_str(digit_str(n))
    } else {
        let mut s = to_hex(n / 16);
        s.append(digit_str(n % 16));
        assert(s@ =~= hex_digits((n / 16) as nat).push(hex_digit((n % 16) as nat)));
        s
    }
}

/// Mints an identifier from 64 fresh random bits. Which token comes back is
/// not determined; only its shape is.
pub fn fresh_token() -> (s: String)
    ensures
        is_token(s@),
        s@.len() >= 1,
{
    let n = random_u64();
    to_hex(n)
}

} // verus!
